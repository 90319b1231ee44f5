use doukutsu_extractor::data::{FileData, ReconstructError};
use doukutsu_extractor::extract::Speech;
use doukutsu_extractor::lexer::Span;

fn extract(text: &[u8]) -> FileData {
    FileData::from_text(text.to_vec(), "Stage/Cave.tsc".to_string()).unwrap()
}

#[test]
fn from_text_keeps_original_and_path() {
    let fd = extract(b"<MSG<FAC0001Hello<END");
    assert_eq!(fd.original, b"<MSG<FAC0001Hello<END".to_vec());
    assert_eq!(fd.path, "Stage/Cave.tsc");
    assert_eq!(fd.dialogues.len(), 1);
}

#[test]
fn from_text_drops_files_without_dialogue() {
    assert!(FileData::from_text(b"<CLR<NOD123#:".to_vec(), "a.tsc".to_string()).is_none());
    assert!(FileData::from_text(Vec::new(), "b.tsc".to_string()).is_none());
}

#[test]
fn unedited_reconstruction_is_identity() {
    let originals: Vec<&[u8]> = vec![
        b"<MSG<FAC0001Hello<END",
        b"<MSG<FAC0001Hello<NOD World<MSG<FAC0002Bye!<END",
        b"<MSGplain narration, 1234 codes#and:marks\r\n<END",
    ];
    for original in originals {
        let fd = extract(original);
        assert_eq!(fd.reconstruct().unwrap(), original.to_vec());
    }
}

#[test]
fn edited_text_is_substituted_in_place() {
    let mut fd = extract(b"<MSG<FAC0001Hello<END");
    fd.dialogues[0][0].text[0].0 = b"Bonjour".to_vec();
    assert_eq!(fd.reconstruct().unwrap(), b"<MSG<FAC0001Bonjour<END".to_vec());
}

#[test]
fn every_edited_run_is_substituted() {
    let mut fd = extract(b"<MSG<FAC0001Hello<NOD World<END");
    fd.dialogues[0][0].text[0].0 = b"Bonjour".to_vec();
    fd.dialogues[0][0].text[1].0 = b" tout le monde".to_vec();
    assert_eq!(
        fd.reconstruct().unwrap(),
        b"<MSG<FAC0001Bonjour<NOD tout le monde<END".to_vec()
    );
}

#[test]
fn no_dialogues_reconstructs_to_original() {
    let fd = FileData {
        dialogues: Vec::new(),
        original: b"<CLR<NOD".to_vec(),
        path: "c.tsc".to_string(),
    };
    assert_eq!(fd.reconstruct().unwrap(), b"<CLR<NOD".to_vec());
}

fn file_with_spans(spans: Vec<Span>) -> FileData {
    let speeches: Vec<Speech> = spans
        .into_iter()
        .map(|span| Speech {
            character: "NP".to_string(),
            text: vec![(b"x".to_vec(), span)],
        })
        .collect();
    FileData {
        dialogues: vec![speeches],
        original: b"0123456789".to_vec(),
        path: "d.tsc".to_string(),
    }
}

#[test]
fn overlapping_ranges_are_rejected() {
    let fd = file_with_spans(vec![Span { start: 2, end: 6 }, Span { start: 4, end: 8 }]);
    assert_eq!(fd.reconstruct(), Err(ReconstructError::InvalidRanges));
}

#[test]
fn decreasing_ranges_are_rejected() {
    let fd = file_with_spans(vec![Span { start: 6, end: 8 }, Span { start: 2, end: 4 }]);
    assert_eq!(fd.reconstruct(), Err(ReconstructError::InvalidRanges));
    let fd = file_with_spans(vec![Span { start: 6, end: 2 }]);
    assert_eq!(fd.reconstruct(), Err(ReconstructError::InvalidRanges));
}

#[test]
fn out_of_bounds_ranges_are_rejected() {
    let fd = file_with_spans(vec![Span { start: 8, end: 11 }]);
    assert_eq!(fd.reconstruct(), Err(ReconstructError::InvalidRanges));
}

#[test]
fn touching_ranges_are_accepted() {
    let fd = file_with_spans(vec![Span { start: 2, end: 4 }, Span { start: 4, end: 6 }]);
    assert_eq!(fd.reconstruct().unwrap(), b"01xx6789".to_vec());
}
