use doukutsu_extractor::extract::dialogues_from_tsc;
use doukutsu_extractor::lexer::Span;

#[test]
fn groups_speeches_by_face_between_messages() {
    // Tokens: Message, Face(SueSmile), Text("hi"), Face(SueFrown),
    // Text("bye"), Message — one completed dialogue with two speeches.
    let input = b"<MSG<FAC0001hi<FAC0002bye<MSG";
    let dialogues = dialogues_from_tsc(input);
    assert_eq!(dialogues.len(), 1);
    let d = &dialogues[0];
    assert_eq!(d.len(), 2);
    assert_eq!(d[0].character, "SueSmile");
    assert_eq!(d[0].text, vec![(b"hi".to_vec(), Span { start: 12, end: 14 })]);
    assert_eq!(d[1].character, "SueFrown");
    assert_eq!(d[1].text, vec![(b"bye".to_vec(), Span { start: 22, end: 25 })]);
}

#[test]
fn no_grouping_tokens_yield_no_dialogues() {
    // No message-start, no face, no text: nothing is extracted.
    let input = b"<CLR<NOD123#:\r\n";
    let dialogues = dialogues_from_tsc(input);
    assert!(dialogues.is_empty());
}

#[test]
fn end_of_stream_finalizes_pending_speech() {
    let input = b"<MSG<FAC0001Hello<END";
    let dialogues = dialogues_from_tsc(input);
    assert_eq!(dialogues.len(), 1);
    assert_eq!(dialogues[0].len(), 1);
    assert_eq!(dialogues[0][0].character, "SueSmile");
    assert_eq!(
        dialogues[0][0].text,
        vec![(b"Hello".to_vec(), Span { start: 12, end: 17 })]
    );
}

#[test]
fn message_sets_narrator_speaker() {
    let input = b"<MSGHello";
    let dialogues = dialogues_from_tsc(input);
    assert_eq!(dialogues.len(), 1);
    assert_eq!(dialogues[0].len(), 1);
    assert_eq!(dialogues[0][0].character, "NP");
    assert_eq!(
        dialogues[0][0].text,
        vec![(b"Hello".to_vec(), Span { start: 4, end: 9 })]
    );
}

#[test]
fn face_token_closes_speech_under_previous_speaker() {
    // The speech pending when a face token arrives is attributed to the
    // speaker in effect before that token — the narration marker included.
    let input = b"<MSG<FAC0001Hi<FAC0000Yo";
    let dialogues = dialogues_from_tsc(input);
    assert_eq!(dialogues.len(), 1);
    let d = &dialogues[0];
    assert_eq!(d.len(), 2);
    assert_eq!(d[0].character, "SueSmile");
    assert_eq!(d[0].text, vec![(b"Hi".to_vec(), Span { start: 12, end: 14 })]);
    assert_eq!(d[1].character, "NP");
    assert_eq!(d[1].text, vec![(b"Yo".to_vec(), Span { start: 22, end: 24 })]);
}

#[test]
fn interrupting_codes_split_text_into_runs() {
    // A non-grouping token between two text runs keeps them in one speech.
    let input = b"<MSG<FAC0001Hello<NOD World";
    let dialogues = dialogues_from_tsc(input);
    assert_eq!(dialogues.len(), 1);
    assert_eq!(dialogues[0].len(), 1);
    assert_eq!(
        dialogues[0][0].text,
        vec![
            (b"Hello".to_vec(), Span { start: 12, end: 17 }),
            (b" World".to_vec(), Span { start: 21, end: 27 }),
        ]
    );
}

#[test]
fn message_closes_previous_dialogue() {
    let input = b"<MSG<FAC0001One<MSG<FAC0002Two<MSG";
    let dialogues = dialogues_from_tsc(input);
    assert_eq!(dialogues.len(), 2);
    assert_eq!(dialogues[0][0].character, "SueSmile");
    assert_eq!(dialogues[1][0].character, "SueFrown");
}

#[test]
fn empty_input_yields_nothing() {
    assert!(dialogues_from_tsc(b"").is_empty());
}
