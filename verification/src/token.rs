//! Tokens of the script language.
//!
//! A token is either a structural marker (`<MSG`, `<NOD`, `<CLR`, `<END`), a
//! fixed speaker-face identifier (`<FAC0000` … `<FAC0029`, one variant each),
//! a generic control code, a bare numeric code, a punctuation marker, a
//! literal text run, or a single fallback byte. The fallback guarantees that
//! every byte of input is covered by some token.

use vstd::prelude::*;

verus! {

/// Error type of the tokenizer's result slots. The tokenizer is total — every
/// byte is consumed by some token, the single-byte fallback at worst — so no
/// value of this type is ever produced; it exists so callers can hold
/// tokenizer results in a `Result`.
#[derive(Default, Debug, Clone, PartialEq)]
pub enum LexingError {
    #[default]
    Other,
}

/// One token of the script language. `Text` carries its literal bytes;
/// `Other` is the single-byte fallback.
#[derive(Debug, Clone, PartialEq)]
pub enum Token {
    LbCode,
    NumCode,
    NormalWidth,
    SueSmile,
    SueFrown,
    SueAngry,
    SueHurt,
    BalrogNormal,
    TorokoNormal,
    King,
    TorokoAngry,
    Jack,
    Kazuma,
    TorokoRage,
    Igor,
    Jenka,
    BalrogSmile,
    MiseryNormal,
    MiserySmile,
    BoosterHurt,
    BoosterNormal,
    CurlySmile,
    CurlyFrown,
    Doctor,
    Momorin,
    BalrogHurt,
    BrokenRobot,
    CurlyUnknown,
    MiseryAngry,
    HumanSue,
    Itoh,
    Ballos,
    Message,
    Nod,
    Clear,
    End,
    Pound,
    Colon,
    Text(Vec<u8>),
    Other(u8),
}

/// Mathematical model of a [`Token`]: the same variants with the text payload
/// abstracted to a byte sequence.
pub enum TokenModel {
    LbCode,
    NumCode,
    NormalWidth,
    SueSmile,
    SueFrown,
    SueAngry,
    SueHurt,
    BalrogNormal,
    TorokoNormal,
    King,
    TorokoAngry,
    Jack,
    Kazuma,
    TorokoRage,
    Igor,
    Jenka,
    BalrogSmile,
    MiseryNormal,
    MiserySmile,
    BoosterHurt,
    BoosterNormal,
    CurlySmile,
    CurlyFrown,
    Doctor,
    Momorin,
    BalrogHurt,
    BrokenRobot,
    CurlyUnknown,
    MiseryAngry,
    HumanSue,
    Itoh,
    Ballos,
    Message,
    Nod,
    Clear,
    End,
    Pound,
    Colon,
    Text(Seq<u8>),
    Other(u8),
}

impl View for Token {
    type V = TokenModel;

    open spec fn view(&self) -> TokenModel {
        match self {
            Token::LbCode => TokenModel::LbCode,
            Token::NumCode => TokenModel::NumCode,
            Token::NormalWidth => TokenModel::NormalWidth,
            Token::SueSmile => TokenModel::SueSmile,
            Token::SueFrown => TokenModel::SueFrown,
            Token::SueAngry => TokenModel::SueAngry,
            Token::SueHurt => TokenModel::SueHurt,
            Token::BalrogNormal => TokenModel::BalrogNormal,
            Token::TorokoNormal => TokenModel::TorokoNormal,
            Token::King => TokenModel::King,
            Token::TorokoAngry => TokenModel::TorokoAngry,
            Token::Jack => TokenModel::Jack,
            Token::Kazuma => TokenModel::Kazuma,
            Token::TorokoRage => TokenModel::TorokoRage,
            Token::Igor => TokenModel::Igor,
            Token::Jenka => TokenModel::Jenka,
            Token::BalrogSmile => TokenModel::BalrogSmile,
            Token::MiseryNormal => TokenModel::MiseryNormal,
            Token::MiserySmile => TokenModel::MiserySmile,
            Token::BoosterHurt => TokenModel::BoosterHurt,
            Token::BoosterNormal => TokenModel::BoosterNormal,
            Token::CurlySmile => TokenModel::CurlySmile,
            Token::CurlyFrown => TokenModel::CurlyFrown,
            Token::Doctor => TokenModel::Doctor,
            Token::Momorin => TokenModel::Momorin,
            Token::BalrogHurt => TokenModel::BalrogHurt,
            Token::BrokenRobot => TokenModel::BrokenRobot,
            Token::CurlyUnknown => TokenModel::CurlyUnknown,
            Token::MiseryAngry => TokenModel::MiseryAngry,
            Token::HumanSue => TokenModel::HumanSue,
            Token::Itoh => TokenModel::Itoh,
            Token::Ballos => TokenModel::Ballos,
            Token::Message => TokenModel::Message,
            Token::Nod => TokenModel::Nod,
            Token::Clear => TokenModel::Clear,
            Token::End => TokenModel::End,
            Token::Pound => TokenModel::Pound,
            Token::Colon => TokenModel::Colon,
            Token::Text(v) => TokenModel::Text(v@),
            Token::Other(b) => TokenModel::Other(*b),
        }
    }
}

impl TokenModel {
    /// Whether this token is one of the fixed speaker-face identifiers,
    /// including the narration/normal-width marker.
    pub open spec fn is_face(self) -> bool {
        match self {
            TokenModel::NormalWidth => true,
            TokenModel::SueSmile => true,
            TokenModel::SueFrown => true,
            TokenModel::SueAngry => true,
            TokenModel::SueHurt => true,
            TokenModel::BalrogNormal => true,
            TokenModel::TorokoNormal => true,
            TokenModel::King => true,
            TokenModel::TorokoAngry => true,
            TokenModel::Jack => true,
            TokenModel::Kazuma => true,
            TokenModel::TorokoRage => true,
            TokenModel::Igor => true,
            TokenModel::Jenka => true,
            TokenModel::BalrogSmile => true,
            TokenModel::MiseryNormal => true,
            TokenModel::MiserySmile => true,
            TokenModel::BoosterHurt => true,
            TokenModel::BoosterNormal => true,
            TokenModel::CurlySmile => true,
            TokenModel::CurlyFrown => true,
            TokenModel::Doctor => true,
            TokenModel::Momorin => true,
            TokenModel::BalrogHurt => true,
            TokenModel::BrokenRobot => true,
            TokenModel::CurlyUnknown => true,
            TokenModel::MiseryAngry => true,
            TokenModel::HumanSue => true,
            TokenModel::Itoh => true,
            TokenModel::Ballos => true,
            _ => false,
        }
    }

    /// Symbolic speaker name of a face token. The narration/normal-width
    /// marker maps to the narrator marker `"NP"`; every other face maps to
    /// its character's name.
    pub open spec fn face_name(self) -> Seq<char>
        recommends
            self.is_face(),
    {
        match self {
            TokenModel::NormalWidth => "NP"@,
            TokenModel::SueSmile => "SueSmile"@,
            TokenModel::SueFrown => "SueFrown"@,
            TokenModel::SueAngry => "SueAngry"@,
            TokenModel::SueHurt => "SueHurt"@,
            TokenModel::BalrogNormal => "BalrogNormal"@,
            TokenModel::TorokoNormal => "TorokoNormal"@,
            TokenModel::King => "King"@,
            TokenModel::TorokoAngry => "TorokoAngry"@,
            TokenModel::Jack => "Jack"@,
            TokenModel::Kazuma => "Kazuma"@,
            TokenModel::TorokoRage => "TorokoRage"@,
            TokenModel::Igor => "Igor"@,
            TokenModel::Jenka => "Jenka"@,
            TokenModel::BalrogSmile => "BalrogSmile"@,
            TokenModel::MiseryNormal => "MiseryNormal"@,
            TokenModel::MiserySmile => "MiserySmile"@,
            TokenModel::BoosterHurt => "BoosterHurt"@,
            TokenModel::BoosterNormal => "BoosterNormal"@,
            TokenModel::CurlySmile => "CurlySmile"@,
            TokenModel::CurlyFrown => "CurlyFrown"@,
            TokenModel::Doctor => "Doctor"@,
            TokenModel::Momorin => "Momorin"@,
            TokenModel::BalrogHurt => "BalrogHurt"@,
            TokenModel::BrokenRobot => "BrokenRobot"@,
            TokenModel::CurlyUnknown => "CurlyUnknown"@,
            TokenModel::MiseryAngry => "MiseryAngry"@,
            TokenModel::HumanSue => "HumanSue"@,
            TokenModel::Itoh => "Itoh"@,
            TokenModel::Ballos => "Ballos"@,
            _ => "NP"@,
        }
    }
}

/// Face token of a given portrait index.
pub open spec fn face_of_index(idx: int) -> TokenModel
    recommends
        0 <= idx <= 29,
{
    if idx == 0 {
        TokenModel::NormalWidth
    } else if idx == 1 {
        TokenModel::SueSmile
    } else if idx == 2 {
        TokenModel::SueFrown
    } else if idx == 3 {
        TokenModel::SueAngry
    } else if idx == 4 {
        TokenModel::SueHurt
    } else if idx == 5 {
        TokenModel::BalrogNormal
    } else if idx == 6 {
        TokenModel::TorokoNormal
    } else if idx == 7 {
        TokenModel::King
    } else if idx == 8 {
        TokenModel::TorokoAngry
    } else if idx == 9 {
        TokenModel::Jack
    } else if idx == 10 {
        TokenModel::Kazuma
    } else if idx == 11 {
        TokenModel::TorokoRage
    } else if idx == 12 {
        TokenModel::Igor
    } else if idx == 13 {
        TokenModel::Jenka
    } else if idx == 14 {
        TokenModel::BalrogSmile
    } else if idx == 15 {
        TokenModel::MiseryNormal
    } else if idx == 16 {
        TokenModel::MiserySmile
    } else if idx == 17 {
        TokenModel::BoosterHurt
    } else if idx == 18 {
        TokenModel::BoosterNormal
    } else if idx == 19 {
        TokenModel::CurlySmile
    } else if idx == 20 {
        TokenModel::CurlyFrown
    } else if idx == 21 {
        TokenModel::Doctor
    } else if idx == 22 {
        TokenModel::Momorin
    } else if idx == 23 {
        TokenModel::BalrogHurt
    } else if idx == 24 {
        TokenModel::BrokenRobot
    } else if idx == 25 {
        TokenModel::CurlyUnknown
    } else if idx == 26 {
        TokenModel::MiseryAngry
    } else if idx == 27 {
        TokenModel::HumanSue
    } else if idx == 28 {
        TokenModel::Itoh
    } else {
        TokenModel::Ballos
    }
}

impl Token {
    /// Whether this token is one of the fixed speaker-face identifiers,
    /// including the narration/normal-width marker.
    pub fn is_face(&self) -> (r: bool)
        ensures
            r == self@.is_face(),
    {
        matches!(
            self,
            Token::NormalWidth
                | Token::SueSmile
                | Token::SueFrown
                | Token::SueAngry
                | Token::SueHurt
                | Token::BalrogNormal
                | Token::TorokoNormal
                | Token::King
                | Token::TorokoAngry
                | Token::Jack
                | Token::Kazuma
                | Token::TorokoRage
                | Token::Igor
                | Token::Jenka
                | Token::BalrogSmile
                | Token::MiseryNormal
                | Token::MiserySmile
                | Token::BoosterHurt
                | Token::BoosterNormal
                | Token::CurlySmile
                | Token::CurlyFrown
                | Token::Doctor
                | Token::Momorin
                | Token::BalrogHurt
                | Token::BrokenRobot
                | Token::CurlyUnknown
                | Token::MiseryAngry
                | Token::HumanSue
                | Token::Itoh
                | Token::Ballos
        )
    }

    /// Symbolic speaker name of a face token.
    pub fn face_name(&self) -> (r: String)
        requires
            self@.is_face(),
        ensures
            r@ == self@.face_name(),
    {
        match self {
            Token::NormalWidth => "NP".to_owned(),
            Token::SueSmile => "SueSmile".to_owned(),
            Token::SueFrown => "SueFrown".to_owned(),
            Token::SueAngry => "SueAngry".to_owned(),
            Token::SueHurt => "SueHurt".to_owned(),
            Token::BalrogNormal => "BalrogNormal".to_owned(),
            Token::TorokoNormal => "TorokoNormal".to_owned(),
            Token::King => "King".to_owned(),
            Token::TorokoAngry => "TorokoAngry".to_owned(),
            Token::Jack => "Jack".to_owned(),
            Token::Kazuma => "Kazuma".to_owned(),
            Token::TorokoRage => "TorokoRage".to_owned(),
            Token::Igor => "Igor".to_owned(),
            Token::Jenka => "Jenka".to_owned(),
            Token::BalrogSmile => "BalrogSmile".to_owned(),
            Token::MiseryNormal => "MiseryNormal".to_owned(),
            Token::MiserySmile => "MiserySmile".to_owned(),
            Token::BoosterHurt => "BoosterHurt".to_owned(),
            Token::BoosterNormal => "BoosterNormal".to_owned(),
            Token::CurlySmile => "CurlySmile".to_owned(),
            Token::CurlyFrown => "CurlyFrown".to_owned(),
            Token::Doctor => "Doctor".to_owned(),
            Token::Momorin => "Momorin".to_owned(),
            Token::BalrogHurt => "BalrogHurt".to_owned(),
            Token::BrokenRobot => "BrokenRobot".to_owned(),
            Token::CurlyUnknown => "CurlyUnknown".to_owned(),
            Token::MiseryAngry => "MiseryAngry".to_owned(),
            Token::HumanSue => "HumanSue".to_owned(),
            Token::Itoh => "Itoh".to_owned(),
            Token::Ballos => "Ballos".to_owned(),
            _ => "NP".to_owned(),
        }
    }
}

/// Face token of a given portrait index.
pub fn face_from_index(idx: u8) -> (r: Token)
    requires
        idx <= 29,
    ensures
        r@ == face_of_index(idx as int),
        r@.is_face(),
{
    match idx {
        0 => Token::NormalWidth,
        1 => Token::SueSmile,
        2 => Token::SueFrown,
        3 => Token::SueAngry,
        4 => Token::SueHurt,
        5 => Token::BalrogNormal,
        6 => Token::TorokoNormal,
        7 => Token::King,
        8 => Token::TorokoAngry,
        9 => Token::Jack,
        10 => Token::Kazuma,
        11 => Token::TorokoRage,
        12 => Token::Igor,
        13 => Token::Jenka,
        14 => Token::BalrogSmile,
        15 => Token::MiseryNormal,
        16 => Token::MiserySmile,
        17 => Token::BoosterHurt,
        18 => Token::BoosterNormal,
        19 => Token::CurlySmile,
        20 => Token::CurlyFrown,
        21 => Token::Doctor,
        22 => Token::Momorin,
        23 => Token::BalrogHurt,
        24 => Token::BrokenRobot,
        25 => Token::CurlyUnknown,
        26 => Token::MiseryAngry,
        27 => Token::HumanSue,
        28 => Token::Itoh,
        _ => Token::Ballos,
    }
}

} // verus!
