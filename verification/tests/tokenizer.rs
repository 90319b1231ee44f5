use doukutsu_extractor::lexer::{next_token, tokenize, Span};
use doukutsu_extractor::token::{LexingError, Token};

fn spans_cover_input(input: &[u8]) {
    let toks = tokenize(input);
    let mut concat: Vec<u8> = Vec::new();
    let mut expected_start = 0usize;
    for (_, span) in &toks {
        assert_eq!(span.start, expected_start);
        assert!(span.start < span.end);
        assert!(span.end <= input.len());
        concat.extend_from_slice(&input[span.start..span.end]);
        expected_start = span.end;
    }
    assert_eq!(expected_start, input.len());
    assert_eq!(concat, input);
}

#[test]
fn totality_on_assorted_inputs() {
    spans_cover_input(b"");
    spans_cover_input(b"<MSG<FAC0001Hello<END");
    spans_cover_input(b"\r\n\n\x00\xFF<<<FAC");
    spans_cover_input(b"123456 text, with 0042 codes#:<ABC<+-1");
    spans_cover_input("caf\u{e9} \u{fffd}".as_bytes());
}

#[test]
fn structural_and_face_literals() {
    let toks = tokenize(b"<MSG<FAC0001Hello<END");
    let kinds: Vec<(Token, Span)> = toks;
    assert_eq!(kinds[0].0, Token::Message);
    assert_eq!(kinds[0].1, Span { start: 0, end: 4 });
    assert_eq!(kinds[1].0, Token::SueSmile);
    assert_eq!(kinds[1].1, Span { start: 4, end: 12 });
    assert_eq!(kinds[2].0, Token::Text(b"Hello".to_vec()));
    assert_eq!(kinds[2].1, Span { start: 12, end: 17 });
    assert_eq!(kinds[3].0, Token::End);
    assert_eq!(kinds[3].1, Span { start: 17, end: 21 });
    assert_eq!(kinds.len(), 4);
}

#[test]
fn control_codes_beat_nothing_but_faces() {
    // A generic control code.
    let toks = tokenize(b"<AB1");
    assert_eq!(toks[0].0, Token::LbCode);
    assert_eq!(toks[0].1, Span { start: 0, end: 4 });
    // An out-of-range face index is no face: the code rule takes `<FAC` and
    // the digits follow as a numeric code.
    let toks = tokenize(b"<FAC0030");
    assert_eq!(toks[0].0, Token::LbCode);
    assert_eq!(toks[0].1, Span { start: 0, end: 4 });
    assert_eq!(toks[1].0, Token::NumCode);
    assert_eq!(toks[1].1, Span { start: 4, end: 8 });
}

#[test]
fn numeric_codes_take_three_or_four_digits() {
    let toks = tokenize(b"123");
    assert_eq!(toks[0].0, Token::NumCode);
    assert_eq!(toks[0].1, Span { start: 0, end: 3 });

    let toks = tokenize(b"1234");
    assert_eq!(toks[0].0, Token::NumCode);
    assert_eq!(toks[0].1, Span { start: 0, end: 4 });

    let toks = tokenize(b"12345");
    assert_eq!(toks[0].0, Token::NumCode);
    assert_eq!(toks[0].1, Span { start: 0, end: 4 });
    assert_eq!(toks[1].0, Token::Other(b'5'));

    let toks = tokenize(b"12");
    assert_eq!(toks[0].0, Token::Other(b'1'));
    assert_eq!(toks[1].0, Token::Other(b'2'));
}

#[test]
fn text_runs_swallow_trailing_sentinel() {
    let toks = tokenize(b"Got one<NUM0000!");
    assert_eq!(toks[0].0, Token::Text(b"Got one<NUM0000".to_vec()));
    assert_eq!(toks[0].1, Span { start: 0, end: 15 });
    assert_eq!(toks[1].0, Token::Text(b"!".to_vec()));
    assert_eq!(toks[1].1, Span { start: 15, end: 16 });
}

#[test]
fn text_runs_stop_at_punctuation_markers() {
    let toks = tokenize(b"Hi#there:now");
    assert_eq!(toks[0].0, Token::Text(b"Hi".to_vec()));
    assert_eq!(toks[1].0, Token::Pound);
    assert_eq!(toks[2].0, Token::Text(b"there".to_vec()));
    assert_eq!(toks[3].0, Token::Colon);
    assert_eq!(toks[4].0, Token::Text(b"now".to_vec()));
}

#[test]
fn fallback_consumes_any_byte() {
    let toks = tokenize(b"\n");
    assert_eq!(toks[0].0, Token::Other(b'\n'));
    assert_eq!(toks[0].1, Span { start: 0, end: 1 });
    let toks = tokenize(b"<");
    assert_eq!(toks[0].0, Token::Other(b'<'));
    let toks = tokenize(&[0xFFu8]);
    assert_eq!(toks[0].0, Token::Other(0xFF));
}

#[test]
fn next_token_is_restartable() {
    let input = b"<MSG123abc";
    let (t0, s0) = next_token(input, 0);
    assert_eq!(t0, Token::Message);
    let (t1, s1) = next_token(input, s0.end);
    assert_eq!(t1, Token::NumCode);
    let (t2, s2) = next_token(input, s1.end);
    assert_eq!(t2, Token::Text(b"abc".to_vec()));
    assert_eq!(s2.end, input.len());
}

#[test]
fn is_face_distinguishes_faces() {
    assert!(Token::NormalWidth.is_face());
    assert!(Token::SueSmile.is_face());
    assert!(Token::Ballos.is_face());
    assert!(!Token::Message.is_face());
    assert!(!Token::LbCode.is_face());
    assert!(!Token::Text(b"x".to_vec()).is_face());
    assert!(!Token::Other(b'x').is_face());
}

#[test]
fn lexing_error_default() {
    // The tokenizer is total, so the error only ever appears as the unused
    // slot of a Result.
    let slot: Result<Token, LexingError> = Ok(Token::Message);
    assert!(slot.is_ok());
    assert_eq!(LexingError::default(), LexingError::Other);
}

#[test]
fn face_names() {
    assert_eq!(Token::NormalWidth.face_name(), "NP");
    assert_eq!(Token::SueSmile.face_name(), "SueSmile");
    assert_eq!(Token::Ballos.face_name(), "Ballos");
}
