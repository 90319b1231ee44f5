//! The tokenizer over decoded script text.
//!
//! The grammar, in priority order — at each position the longest match wins,
//! with ties broken in favour of the rule listed first:
//! 1. fixed face/portrait literals `<FAC0000` … `<FAC0029`;
//! 2. structural literals `<MSG`, `<NOD`, `<CLR`, `<END`;
//! 3. generic control codes: `<` followed by exactly three characters from
//!    {uppercase letters, `+`, `-`, digits};
//! 4. bare numeric codes: runs of three or four digits;
//! 5. the punctuation markers `#` and `:`;
//! 6. literal text runs: a start character (letter, limited punctuation,
//!    quote, space or minus) followed by any number of continuation
//!    characters (letters, digits, common punctuation, `=`, `*`, quotes,
//!    spaces, line breaks), optionally closed by a trailing `<NUM0000`
//!    sentinel that is captured verbatim as part of the run;
//! 7. fallback: any single remaining byte, as an opaque token.
//!
//! The fallback makes tokenizing total: every byte of input is consumed by
//! exactly one token, and each token carries its half-open byte span in the
//! input.

use vstd::prelude::*;
use crate::token::{face_from_index, face_of_index, Token, TokenModel};

verus! {

/// Byte values of the characters the grammar mentions.
pub const B_LT: u8 = 60;  // '<'
pub const B_HASH: u8 = 35;  // '#'
pub const B_COLON: u8 = 58;  // ':'
pub const B_PLUS: u8 = 43;  // '+'
pub const B_MINUS: u8 = 45;  // '-'
pub const B_DOT: u8 = 46;  // '.'
pub const B_BANG: u8 = 33;  // '!'
pub const B_QUERY: u8 = 63;  // '?'
pub const B_EQ: u8 = 61;  // '='
pub const B_STAR: u8 = 42;  // '*'
pub const B_SQUOTE: u8 = 39;  // '\''
pub const B_DQUOTE: u8 = 34;  // '"'
pub const B_SPACE: u8 = 32;  // ' '
pub const B_COMMA: u8 = 44;  // ','
pub const B_SEMI: u8 = 59;  // ';'
pub const B_CR: u8 = 13;  // carriage return
pub const B_NL: u8 = 10;  // line feed
pub const B_D0: u8 = 48;  // '0'
pub const B_D9: u8 = 57;  // '9'
pub const B_UA: u8 = 65;  // 'A'
pub const B_UC: u8 = 67;  // 'C'
pub const B_UD: u8 = 68;  // 'D'
pub const B_UE: u8 = 69;  // 'E'
pub const B_UF: u8 = 70;  // 'F'
pub const B_UG: u8 = 71;  // 'G'
pub const B_UL: u8 = 76;  // 'L'
pub const B_UM: u8 = 77;  // 'M'
pub const B_UN: u8 = 78;  // 'N'
pub const B_UO: u8 = 79;  // 'O'
pub const B_UR: u8 = 82;  // 'R'
pub const B_US: u8 = 83;  // 'S'
pub const B_UU: u8 = 85;  // 'U'
pub const B_UZ: u8 = 90;  // 'Z'
pub const B_LA: u8 = 97;  // 'a'
pub const B_LZ: u8 = 122;  // 'z'

/// Half-open byte range `[start, end)` in the tokenizer's input.
#[derive(Debug, Clone, Copy, PartialEq, Eq, Structural)]
pub struct Span {
    pub start: usize,
    pub end: usize,
}

/// Decimal digit.
pub open spec fn is_digit(b: u8) -> bool {
    B_D0 <= b <= B_D9
}

/// Character class of a generic control code: uppercase letter, `+`, `-` or
/// digit.
pub open spec fn is_code_char(b: u8) -> bool {
    (B_UA <= b <= B_UZ) || b == B_PLUS || b == B_MINUS || is_digit(b)
}

/// Characters that may open a literal text run.
pub open spec fn is_text_start(b: u8) -> bool {
    (B_LA <= b <= B_LZ) || (B_UA <= b <= B_UZ) || b == B_MINUS || b == B_DOT || b == B_BANG || b == B_QUERY
        || b == B_EQ || b == B_STAR || b == B_SQUOTE || b == B_DQUOTE || b == B_SPACE
}

/// Characters that may continue a literal text run.
pub open spec fn is_text_cont(b: u8) -> bool {
    (B_LA <= b <= B_LZ) || (B_UA <= b <= B_UZ) || is_digit(b) || b == B_COMMA || b == B_DOT
        || b == B_BANG || b == B_QUERY || b == B_SEMI || b == B_PLUS || b == B_MINUS || b == B_SQUOTE || b == B_DQUOTE
        || b == B_EQ || b == B_SPACE || b == B_STAR || b == B_CR || b == B_NL
}

/// A four-byte literal `<` `c1` `c2` `c3` stands at `pos`.
pub open spec fn lit4_at(s: Seq<u8>, pos: int, c1: u8, c2: u8, c3: u8) -> bool {
    &&& pos + 4 <= s.len()
    &&& s[pos] == B_LT
    &&& s[pos + 1] == c1
    &&& s[pos + 2] == c2
    &&& s[pos + 3] == c3
}

/// One of the fixed face literals `<FAC0000` … `<FAC0029` stands at `pos`.
pub open spec fn face_lit_at(s: Seq<u8>, pos: int) -> bool {
    &&& pos + 8 <= s.len()
    &&& s[pos] == B_LT
    &&& s[pos + 1] == B_UF
    &&& s[pos + 2] == B_UA
    &&& s[pos + 3] == B_UC
    &&& s[pos + 4] == B_D0
    &&& s[pos + 5] == B_D0
    &&& is_digit(s[pos + 6])
    &&& is_digit(s[pos + 7])
    &&& face_lit_index(s, pos) <= 29
}

/// Portrait index of the face literal at `pos`.
pub open spec fn face_lit_index(s: Seq<u8>, pos: int) -> int {
    (s[pos + 6] - B_D0) * 10 + (s[pos + 7] - B_D0)
}

/// One of the structural literals `<MSG`, `<NOD`, `<CLR`, `<END` stands at
/// `pos`.
pub open spec fn structural_lit_at(s: Seq<u8>, pos: int) -> bool {
    ||| lit4_at(s, pos, B_UM, B_US, B_UG)
    ||| lit4_at(s, pos, B_UN, B_UO, B_UD)
    ||| lit4_at(s, pos, B_UC, B_UL, B_UR)
    ||| lit4_at(s, pos, B_UE, B_UN, B_UD)
}

/// A generic control code stands at `pos`: `<` plus three code characters.
pub open spec fn code_lit_at(s: Seq<u8>, pos: int) -> bool {
    &&& pos + 4 <= s.len()
    &&& s[pos] == B_LT
    &&& is_code_char(s[pos + 1])
    &&& is_code_char(s[pos + 2])
    &&& is_code_char(s[pos + 3])
}

/// At least three digits stand at `pos`.
pub open spec fn num_code_at(s: Seq<u8>, pos: int) -> bool {
    &&& pos + 3 <= s.len()
    &&& is_digit(s[pos])
    &&& is_digit(s[pos + 1])
    &&& is_digit(s[pos + 2])
}

/// End of the numeric code starting at `pos`: four digits when a fourth is
/// present, else three.
pub open spec fn num_code_end(s: Seq<u8>, pos: int) -> int {
    if pos + 4 <= s.len() && is_digit(s[pos + 3]) {
        pos + 4
    } else {
        pos + 3
    }
}

/// The trailing sentinel literal `<NUM0000` stands at `pos`.
pub open spec fn sentinel_at(s: Seq<u8>, pos: int) -> bool {
    &&& pos + 8 <= s.len()
    &&& s[pos] == B_LT
    &&& s[pos + 1] == B_UN
    &&& s[pos + 2] == B_UU
    &&& s[pos + 3] == B_UM
    &&& s[pos + 4] == B_D0
    &&& s[pos + 5] == B_D0
    &&& s[pos + 6] == B_D0
    &&& s[pos + 7] == B_D0
}

/// Number of text-continuation characters from `pos` on.
pub open spec fn text_cont_len(s: Seq<u8>, pos: int) -> nat
    decreases s.len() - pos,
{
    if pos < s.len() && is_text_cont(s[pos]) {
        1 + text_cont_len(s, pos + 1)
    } else {
        0
    }
}

/// End of the text run starting at `pos`: the start character, the maximal
/// run of continuation characters, and the `<NUM0000` sentinel when it
/// immediately follows.
pub open spec fn text_end(s: Seq<u8>, pos: int) -> int {
    let e = pos + 1 + text_cont_len(s, pos + 1);
    if sentinel_at(s, e) {
        e + 8
    } else {
        e
    }
}

/// The token standing at `pos`, by the grammar's priority order.
pub open spec fn spec_token_at(s: Seq<u8>, pos: int) -> TokenModel
    recommends
        0 <= pos < s.len(),
{
    if face_lit_at(s, pos) {
        face_of_index(face_lit_index(s, pos))
    } else if lit4_at(s, pos, B_UM, B_US, B_UG) {
        TokenModel::Message
    } else if lit4_at(s, pos, B_UN, B_UO, B_UD) {
        TokenModel::Nod
    } else if lit4_at(s, pos, B_UC, B_UL, B_UR) {
        TokenModel::Clear
    } else if lit4_at(s, pos, B_UE, B_UN, B_UD) {
        TokenModel::End
    } else if code_lit_at(s, pos) {
        TokenModel::LbCode
    } else if num_code_at(s, pos) {
        TokenModel::NumCode
    } else if s[pos] == B_HASH {
        TokenModel::Pound
    } else if s[pos] == B_COLON {
        TokenModel::Colon
    } else if is_text_start(s[pos]) {
        TokenModel::Text(s.subrange(pos, text_end(s, pos)))
    } else {
        TokenModel::Other(s[pos])
    }
}

/// End of the token standing at `pos`.
pub open spec fn spec_token_end(s: Seq<u8>, pos: int) -> int
    recommends
        0 <= pos < s.len(),
{
    if face_lit_at(s, pos) {
        pos + 8
    } else if structural_lit_at(s, pos) {
        pos + 4
    } else if code_lit_at(s, pos) {
        pos + 4
    } else if num_code_at(s, pos) {
        num_code_end(s, pos)
    } else if is_text_start(s[pos]) {
        text_end(s, pos)
    } else {
        pos + 1
    }
}

/// A run of continuation characters never runs past the end of the input.
pub proof fn lemma_text_cont_len_bound(s: Seq<u8>, pos: int)
    requires
        0 <= pos <= s.len(),
    ensures
        pos + text_cont_len(s, pos) <= s.len(),
    decreases s.len() - pos,
{
    if pos < s.len() && is_text_cont(s[pos]) {
        lemma_text_cont_len_bound(s, pos + 1);
    }
}

/// Every token consumes at least one byte and stays within the input.
pub proof fn lemma_token_end_in_range(s: Seq<u8>, pos: int)
    requires
        0 <= pos < s.len(),
    ensures
        pos < spec_token_end(s, pos) <= s.len(),
{
    if !face_lit_at(s, pos) && !structural_lit_at(s, pos) && !code_lit_at(s, pos)
        && !num_code_at(s, pos) && is_text_start(s[pos]) {
        lemma_text_cont_len_bound(s, pos + 1);
    }
}

/// The full token stream of the input from `pos` on: each element is a token
/// with the start and end of its byte span.
pub open spec fn spec_tokens(s: Seq<u8>, pos: int) -> Seq<(TokenModel, int, int)>
    decreases s.len() - pos,
        via spec_tokens_decreases
{
    if 0 <= pos < s.len() {
        seq![(spec_token_at(s, pos), pos, spec_token_end(s, pos))] + spec_tokens(
            s,
            spec_token_end(s, pos),
        )
    } else {
        Seq::empty()
    }
}

#[via_fn]
proof fn spec_tokens_decreases(s: Seq<u8>, pos: int) {
    if 0 <= pos < s.len() {
        lemma_token_end_in_range(s, pos);
    }
}

/// The bytes underlying a list of token spans, concatenated in order.
pub open spec fn tokens_bytes(s: Seq<u8>, toks: Seq<(TokenModel, int, int)>) -> Seq<u8>
    decreases toks.len(),
{
    if toks.len() == 0 {
        Seq::empty()
    } else {
        s.subrange(toks[0].1, toks[0].2) + tokens_bytes(s, toks.drop_first())
    }
}

/// Tokenizing is total: the concatenation of all token spans' underlying
/// bytes equals the input from `pos` on.
pub proof fn lemma_tokens_cover(s: Seq<u8>, pos: int)
    requires
        0 <= pos <= s.len(),
    ensures
        tokens_bytes(s, spec_tokens(s, pos)) == s.subrange(pos, s.len() as int),
    decreases s.len() - pos,
{
    if pos < s.len() {
        lemma_token_end_in_range(s, pos);
        let e = spec_token_end(s, pos);
        let toks = spec_tokens(s, pos);
        lemma_tokens_cover(s, e);
        assert(toks.drop_first() =~= spec_tokens(s, e));
        assert(s.subrange(pos, e) + s.subrange(e, s.len() as int) =~= s.subrange(
            pos,
            s.len() as int,
        ));
    } else {
        assert(s.subrange(pos, s.len() as int) =~= Seq::<u8>::empty());
    }
}

/// A text token's payload is exactly the bytes of its span.
pub proof fn lemma_text_token_payload(s: Seq<u8>, pos: int)
    requires
        0 <= pos < s.len(),
        spec_token_at(s, pos) is Text,
    ensures
        spec_token_at(s, pos)->Text_0 == s.subrange(pos, spec_token_end(s, pos)),
{
    if face_lit_at(s, pos) {
        assert(!(face_of_index(face_lit_index(s, pos)) is Text));
    }
}

/// Tokenizing is total: the concatenation of all token spans' underlying
/// bytes equals the full input.
pub proof fn lemma_tokenize_total(s: Seq<u8>)
    ensures
        tokens_bytes(s, spec_tokens(s, 0)) == s,
{
    lemma_tokens_cover(s, 0);
    assert(s.subrange(0, s.len() as int) =~= s);
}

/// View of a produced token list as the mathematical token stream.
pub open spec fn tokens_view(v: Seq<(Token, Span)>) -> Seq<(TokenModel, int, int)> {
    v.map_values(|p: (Token, Span)| (p.0@, p.1.start as int, p.1.end as int))
}

fn byte_is_digit(b: u8) -> (r: bool)
    ensures
        r == is_digit(b),
{
    B_D0 <= b && b <= B_D9
}

fn byte_is_code_char(b: u8) -> (r: bool)
    ensures
        r == is_code_char(b),
{
    (B_UA <= b && b <= B_UZ) || b == B_PLUS || b == B_MINUS || (B_D0 <= b && b <= B_D9)
}

fn byte_is_text_start(b: u8) -> (r: bool)
    ensures
        r == is_text_start(b),
{
    (B_LA <= b && b <= B_LZ) || (B_UA <= b && b <= B_UZ) || b == B_MINUS || b == B_DOT || b == B_BANG
        || b == B_QUERY || b == B_EQ || b == B_STAR || b == B_SQUOTE || b == B_DQUOTE || b == B_SPACE
}

fn byte_is_text_cont(b: u8) -> (r: bool)
    ensures
        r == is_text_cont(b),
{
    (B_LA <= b && b <= B_LZ) || (B_UA <= b && b <= B_UZ) || (B_D0 <= b && b <= B_D9) || b == B_COMMA
        || b == B_DOT || b == B_BANG || b == B_QUERY || b == B_SEMI || b == B_PLUS || b == B_MINUS || b == B_SQUOTE
        || b == B_DQUOTE || b == B_EQ || b == B_SPACE || b == B_STAR || b == B_CR || b == B_NL
}

fn check_lit4(s: &[u8], pos: usize, c1: u8, c2: u8, c3: u8) -> (r: bool)
    requires
        pos < s@.len(),
    ensures
        r == lit4_at(s@, pos as int, c1, c2, c3),
{
    s.len() - pos >= 4 && s[pos] == B_LT && s[pos + 1] == c1 && s[pos + 2] == c2 && s[pos + 3]
        == c3
}

fn check_face(s: &[u8], pos: usize) -> (r: Option<u8>)
    requires
        pos < s@.len(),
    ensures
        match r {
            Some(idx) => face_lit_at(s@, pos as int) && idx as int == face_lit_index(
                s@,
                pos as int,
            ),
            None => !face_lit_at(s@, pos as int),
        },
{
    if s.len() - pos >= 8 && s[pos] == B_LT && s[pos + 1] == B_UF && s[pos + 2] == B_UA && s[pos
        + 3] == B_UC && s[pos + 4] == B_D0 && s[pos + 5] == B_D0 && byte_is_digit(s[pos + 6])
        && byte_is_digit(s[pos + 7]) {
        let idx = (s[pos + 6] - B_D0) * 10 + (s[pos + 7] - B_D0);
        if idx <= 29 {
            Some(idx)
        } else {
            None
        }
    } else {
        None
    }
}

fn check_sentinel(s: &[u8], pos: usize) -> (r: bool)
    requires
        pos <= s@.len(),
    ensures
        r == sentinel_at(s@, pos as int),
{
    s.len() - pos >= 8 && s[pos] == B_LT && s[pos + 1] == B_UN && s[pos + 2] == B_UU && s[pos + 3]
        == B_UM && s[pos + 4] == B_D0 && s[pos + 5] == B_D0 && s[pos + 6] == B_D0 && s[pos + 7]
        == B_D0
}

fn scan_text_cont(s: &[u8], pos: usize) -> (r: usize)
    requires
        pos <= s@.len(),
    ensures
        r as int == pos + text_cont_len(s@, pos as int),
        pos <= r <= s@.len(),
{
    let mut i: usize = pos;
    while i < s.len() && byte_is_text_cont(s[i])
        invariant
            pos <= i <= s@.len(),
            pos + text_cont_len(s@, pos as int) == i + text_cont_len(s@, i as int),
        decreases s@.len() - i,
    {
        i = i + 1;
    }
    i
}

fn copy_range(s: &[u8], a: usize, b: usize) -> (r: Vec<u8>)
    requires
        a <= b <= s@.len(),
    ensures
        r@ == s@.subrange(a as int, b as int),
{
    let mut out: Vec<u8> = Vec::new();
    let mut i: usize = a;
    while i < b
        invariant
            a <= i <= b <= s@.len(),
            out@.len() == i - a,
            forall|j: int| 0 <= j < out@.len() ==> out@[j] == s@[a + j],
        decreases b - i,
    {
        out.push(s[i]);
        i = i + 1;
    }
    assert(out@ =~= s@.subrange(a as int, b as int));
    out
}

/// Produces the token standing at `pos`, with its byte span. The tokenizer is
/// restartable: the next token begins at the returned span's end.
pub fn next_token(s: &[u8], pos: usize) -> (r: (Token, Span))
    requires
        pos < s@.len(),
    ensures
        r.0@ == spec_token_at(s@, pos as int),
        r.1.start == pos,
        r.1.end as int == spec_token_end(s@, pos as int),
        pos < r.1.end <= s@.len(),
{
    proof {
        lemma_token_end_in_range(s@, pos as int);
    }
    let n = s.len();
    if let Some(idx) = check_face(s, pos) {
        (face_from_index(idx), Span { start: pos, end: pos + 8 })
    } else if check_lit4(s, pos, B_UM, B_US, B_UG) {
        (Token::Message, Span { start: pos, end: pos + 4 })
    } else if check_lit4(s, pos, B_UN, B_UO, B_UD) {
        (Token::Nod, Span { start: pos, end: pos + 4 })
    } else if check_lit4(s, pos, B_UC, B_UL, B_UR) {
        (Token::Clear, Span { start: pos, end: pos + 4 })
    } else if check_lit4(s, pos, B_UE, B_UN, B_UD) {
        (Token::End, Span { start: pos, end: pos + 4 })
    } else if n - pos >= 4 && s[pos] == B_LT && byte_is_code_char(s[pos + 1])
        && byte_is_code_char(s[pos + 2]) && byte_is_code_char(s[pos + 3]) {
        (Token::LbCode, Span { start: pos, end: pos + 4 })
    } else if n - pos >= 3 && byte_is_digit(s[pos]) && byte_is_digit(s[pos + 1])
        && byte_is_digit(s[pos + 2]) {
        let end = if n - pos >= 4 && byte_is_digit(s[pos + 3]) {
            pos + 4
        } else {
            pos + 3
        };
        (Token::NumCode, Span { start: pos, end })
    } else if s[pos] == B_HASH {
        (Token::Pound, Span { start: pos, end: pos + 1 })
    } else if s[pos] == B_COLON {
        (Token::Colon, Span { start: pos, end: pos + 1 })
    } else if byte_is_text_start(s[pos]) {
        proof {
            lemma_text_cont_len_bound(s@, pos as int + 1);
        }
        let run_end = scan_text_cont(s, pos + 1);
        let end = if check_sentinel(s, run_end) {
            run_end + 8
        } else {
            run_end
        };
        let payload = copy_range(s, pos, end);
        (Token::Text(payload), Span { start: pos, end })
    } else {
        (Token::Other(s[pos]), Span { start: pos, end: pos + 1 })
    }
}

/// Tokenizes the whole input. Total: it cannot fail, and the returned spans
/// are contiguous, starting at zero and ending at the input's length, so
/// their underlying bytes concatenate to exactly the input.
pub fn tokenize(s: &[u8]) -> (r: Vec<(Token, Span)>)
    ensures
        tokens_view(r@) == spec_tokens(s@, 0),
{
    let mut out: Vec<(Token, Span)> = Vec::new();
    let mut pos: usize = 0;
    while pos < s.len()
        invariant
            pos <= s@.len(),
            spec_tokens(s@, 0) == tokens_view(out@) + spec_tokens(s@, pos as int),
        decreases s@.len() - pos,
    {
        let ghost prev = out@;
        let ghost p = pos as int;
        let (tok, span) = next_token(s, pos);
        out.push((tok, span));
        pos = span.end;
        proof {
            assert(tokens_view(out@) =~= tokens_view(prev).push(
                (spec_token_at(s@, p), p, spec_token_end(s@, p)),
            ));
            assert(spec_tokens(s@, p) == seq![
                (spec_token_at(s@, p), p, spec_token_end(s@, p)),
            ] + spec_tokens(s@, pos as int));
            assert(tokens_view(prev) + spec_tokens(s@, p) =~= tokens_view(out@) + spec_tokens(
                s@,
                pos as int,
            ));
        }
    }
    proof {
        assert(spec_tokens(s@, pos as int) =~= Seq::<(TokenModel, int, int)>::empty());
        assert(tokens_view(out@) + spec_tokens(s@, pos as int) =~= tokens_view(out@));
    }
    out
}

} // verus!
