//! The dialogue extractor.
//!
//! A small state machine consumes the token stream in order and groups text
//! tokens into speaker-attributed lines ("speeches"), and speeches into
//! "dialogues" (everything between two message-start markers). Each text run
//! keeps the byte span it occupied in the tokenizer's input, so edited text
//! can later be spliced back into place.
//!
//! Transition rules, per token:
//! - message-start: a non-empty speech buffer is finalized under the current
//!   speaker and appended to the current dialogue; a non-empty current
//!   dialogue is appended to the output; both are cleared and the speaker is
//!   set to the narrator marker;
//! - face token (the narration marker included): a non-empty speech buffer is
//!   finalized under the speaker in effect before this token; the speaker is
//!   then set to this face's symbolic name;
//! - text token: its bytes and span are appended to the speech buffer;
//! - any other token: no effect on grouping;
//! - end of stream: a non-empty speech buffer is finalized, then a non-empty
//!   current dialogue is appended to the output.

use vstd::prelude::*;
use crate::lexer::{
    lemma_token_end_in_range, next_token, spec_token_at, spec_token_end, spec_tokens, Span,
};
use crate::token::{Token, TokenModel};

verus! {

/// One text run in mathematical form: the literal bytes and the half-open
/// byte span `[start, end)` they occupied in the decoded text.
pub type Run = (Seq<u8>, int, int);

/// One attributed line of dialogue: a speaker name and the text runs that
/// make up the line, in source order. Several runs arise when punctuation or
/// control codes interrupt the text without ending the speech.
#[derive(Debug, Clone, PartialEq)]
pub struct Speech {
    pub character: String,
    pub text: Vec<(Vec<u8>, Span)>,
}

/// Mathematical model of a [`Speech`].
#[verifier::ext_equal]
pub struct SpeechModel {
    pub character: Seq<char>,
    pub text: Seq<Run>,
}

impl View for Speech {
    type V = SpeechModel;

    open spec fn view(&self) -> SpeechModel {
        SpeechModel {
            character: self.character@,
            text: self.text@.map_values(
                |r: (Vec<u8>, Span)| (r.0@, r.1.start as int, r.1.end as int),
            ),
        }
    }
}

/// View of a speech buffer as a run list.
pub open spec fn runs_view(v: Seq<(Vec<u8>, Span)>) -> Seq<Run> {
    v.map_values(|r: (Vec<u8>, Span)| (r.0@, r.1.start as int, r.1.end as int))
}

/// View of one dialogue.
pub open spec fn dialogue_view(d: Seq<Speech>) -> Seq<SpeechModel> {
    d.map_values(|sp: Speech| sp@)
}

/// View of a dialogue list.
pub open spec fn dialogues_view(v: Seq<Vec<Speech>>) -> Seq<Seq<SpeechModel>> {
    v.map_values(|d: Vec<Speech>| dialogue_view(d@))
}

/// State of the extractor between two tokens.
#[verifier::ext_equal]
pub struct ExtractState {
    pub speaker: Seq<char>,
    pub speech: Seq<Run>,
    pub dialogue: Seq<SpeechModel>,
    pub output: Seq<Seq<SpeechModel>>,
}

/// Starting state: empty speaker, empty buffers, empty output.
pub open spec fn init_state() -> ExtractState {
    ExtractState {
        speaker: Seq::empty(),
        speech: Seq::empty(),
        dialogue: Seq::empty(),
        output: Seq::empty(),
    }
}

/// The current dialogue after finalizing a non-empty speech buffer under the
/// current speaker.
pub open spec fn flush_speech(st: ExtractState) -> Seq<SpeechModel> {
    if st.speech.len() > 0 {
        st.dialogue.push(SpeechModel { character: st.speaker, text: st.speech })
    } else {
        st.dialogue
    }
}

/// One transition of the extractor on a token with span `[start, end)`.
pub open spec fn extract_step(st: ExtractState, t: TokenModel, start: int, end: int) -> ExtractState {
    if t is Message {
        let d = flush_speech(st);
        ExtractState {
            speaker: "NP"@,
            speech: Seq::empty(),
            dialogue: Seq::empty(),
            output: if d.len() > 0 {
                st.output.push(d)
            } else {
                st.output
            },
        }
    } else if t.is_face() {
        ExtractState {
            speaker: t.face_name(),
            speech: Seq::empty(),
            dialogue: flush_speech(st),
            output: st.output,
        }
    } else if t is Text {
        ExtractState {
            speaker: st.speaker,
            speech: st.speech.push((t->Text_0, start, end)),
            dialogue: st.dialogue,
            output: st.output,
        }
    } else {
        st
    }
}

/// The extractor folded over a token stream.
pub open spec fn extract_run(st: ExtractState, toks: Seq<(TokenModel, int, int)>) -> ExtractState
    decreases toks.len(),
{
    if toks.len() == 0 {
        st
    } else {
        extract_run(extract_step(st, toks[0].0, toks[0].1, toks[0].2), toks.drop_first())
    }
}

/// End-of-stream finalization: a non-empty speech buffer joins the current
/// dialogue, and a non-empty current dialogue joins the output.
pub open spec fn extract_finish(st: ExtractState) -> Seq<Seq<SpeechModel>> {
    let d = flush_speech(st);
    if d.len() > 0 {
        st.output.push(d)
    } else {
        st.output
    }
}

/// The dialogues extracted from a token stream.
pub open spec fn spec_extract(toks: Seq<(TokenModel, int, int)>) -> Seq<Seq<SpeechModel>> {
    extract_finish(extract_run(init_state(), toks))
}

/// Runs the extractor over the token stream of `text` and returns the
/// extracted dialogues in source order.
pub fn dialogues_from_tsc(text: &[u8]) -> (r: Vec<Vec<Speech>>)
    ensures
        dialogues_view(r@) == spec_extract(spec_tokens(text@, 0)),
{
    let ghost s = text@;
    let mut pos: usize = 0;
    let mut speaker: String = String::new();
    let mut speech: Vec<(Vec<u8>, Span)> = Vec::new();
    let mut dialogue: Vec<Speech> = Vec::new();
    let mut dialogues: Vec<Vec<Speech>> = Vec::new();
    proof {
        assert(runs_view(speech@) =~= Seq::<Run>::empty());
        assert(dialogue_view(dialogue@) =~= Seq::<SpeechModel>::empty());
        assert(dialogues_view(dialogues@) =~= Seq::<Seq<SpeechModel>>::empty());
        assert(ExtractState {
            speaker: speaker@,
            speech: runs_view(speech@),
            dialogue: dialogue_view(dialogue@),
            output: dialogues_view(dialogues@),
        } =~= init_state());
    }
    while pos < text.len()
        invariant
            pos <= s.len(),
            s == text@,
            extract_run(
                ExtractState {
                    speaker: speaker@,
                    speech: runs_view(speech@),
                    dialogue: dialogue_view(dialogue@),
                    output: dialogues_view(dialogues@),
                },
                spec_tokens(s, pos as int),
            ) == extract_run(init_state(), spec_tokens(s, 0)),
        decreases s.len() - pos,
    {
        let ghost st0 = ExtractState {
            speaker: speaker@,
            speech: runs_view(speech@),
            dialogue: dialogue_view(dialogue@),
            output: dialogues_view(dialogues@),
        };
        let ghost p = pos as int;
        let (tok, span) = next_token(text, pos);
        let ghost t = tok@;
        let ghost e = span.end as int;
        proof {
            assert(spec_tokens(s, p) == seq![(t, p, e)] + spec_tokens(s, e));
            assert((seq![(t, p, e)] + spec_tokens(s, e)).drop_first() =~= spec_tokens(s, e));
            assert(extract_run(st0, spec_tokens(s, p)) == extract_run(
                extract_step(st0, t, p, e),
                spec_tokens(s, e),
            ));
        }
        if matches!(tok, Token::Message) {
            let ghost d0 = dialogue_view(dialogue@);
            if speech.len() > 0 {
                dialogue.push(Speech { character: speaker.clone(), text: speech });
                speech = Vec::new();
                proof {
                    assert(dialogue_view(dialogue@) =~= d0.push(
                        SpeechModel { character: st0.speaker, text: st0.speech },
                    ));
                    assert(runs_view(speech@) =~= Seq::<Run>::empty());
                }
            }
            let ghost d1 = dialogue_view(dialogue@);
            if dialogue.len() > 0 {
                let ghost o0 = dialogues_view(dialogues@);
                dialogues.push(dialogue);
                dialogue = Vec::new();
                proof {
                    assert(dialogues_view(dialogues@) =~= o0.push(d1));
                    assert(dialogue_view(dialogue@) =~= Seq::<SpeechModel>::empty());
                }
            }
            speaker = "NP".to_owned();
        } else if tok.is_face() {
            let ghost d0 = dialogue_view(dialogue@);
            if speech.len() > 0 {
                dialogue.push(Speech { character: speaker.clone(), text: speech });
                speech = Vec::new();
                proof {
                    assert(dialogue_view(dialogue@) =~= d0.push(
                        SpeechModel { character: st0.speaker, text: st0.speech },
                    ));
                    assert(runs_view(speech@) =~= Seq::<Run>::empty());
                }
            }
            speaker = tok.face_name();
        } else if let Token::Text(payload) = tok {
            let ghost r0 = runs_view(speech@);
            speech.push((payload, span));
            proof {
                assert(runs_view(speech@) =~= r0.push((t->Text_0, p, e)));
            }
        }
        pos = span.end;
        proof {
            let stn = ExtractState {
                speaker: speaker@,
                speech: runs_view(speech@),
                dialogue: dialogue_view(dialogue@),
                output: dialogues_view(dialogues@),
            };
            let sts = extract_step(st0, t, p, e);
            assert(stn.speaker =~= sts.speaker);
            assert(stn.speech =~= sts.speech);
            assert(stn.dialogue =~= sts.dialogue);
            assert(stn.output =~= sts.output);
            assert(stn =~= sts);
        }
    }
    let ghost st_end = ExtractState {
        speaker: speaker@,
        speech: runs_view(speech@),
        dialogue: dialogue_view(dialogue@),
        output: dialogues_view(dialogues@),
    };
    proof {
        assert(spec_tokens(s, pos as int) =~= Seq::<(TokenModel, int, int)>::empty());
        assert(extract_run(st_end, spec_tokens(s, pos as int)) == st_end);
    }
    let ghost d0 = dialogue_view(dialogue@);
    if speech.len() > 0 {
        dialogue.push(Speech { character: speaker, text: speech });
        proof {
            assert(dialogue_view(dialogue@) =~= d0.push(
                SpeechModel { character: st_end.speaker, text: st_end.speech },
            ));
        }
    }
    let ghost d1 = dialogue_view(dialogue@);
    proof {
        assert(d1 == flush_speech(st_end));
    }
    if dialogue.len() > 0 {
        let ghost o0 = dialogues_view(dialogues@);
        dialogues.push(dialogue);
        proof {
            assert(dialogues_view(dialogues@) =~= o0.push(d1));
        }
    }
    proof {
        assert(dialogues_view(dialogues@) == extract_finish(st_end));
    }
    dialogues
}

/// A token stream with no message-start, no face token and no text token
/// extracts to nothing: every such token leaves the grouping state untouched,
/// so the output stays empty.
pub proof fn lemma_no_grouping_tokens(toks: Seq<(TokenModel, int, int)>)
    requires
        forall|i: int|
            0 <= i < toks.len() ==> !(#[trigger] toks[i].0 is Message) && !toks[i].0.is_face()
                && !(toks[i].0 is Text),
    ensures
        spec_extract(toks) == Seq::<Seq<SpeechModel>>::empty(),
{
    lemma_run_inert(init_state(), toks);
    assert(spec_extract(toks) =~= Seq::<Seq<SpeechModel>>::empty());
}

/// Cursor position after a run list: the end of its last run, or the starting
/// cursor when the list is empty.
pub open spec fn end_cursor(rs: Seq<Run>, c: int) -> int {
    if rs.len() == 0 {
        c
    } else {
        rs.last().2
    }
}

/// The run list is well-formed from cursor `c` on: spans are in bounds,
/// non-decreasing within each run, and non-overlapping in order.
pub open spec fn runs_wf_from(s: Seq<u8>, rs: Seq<Run>, c: int) -> bool
    decreases rs.len(),
{
    rs.len() == 0 || {
        &&& c <= rs[0].1
        &&& rs[0].1 <= rs[0].2 <= s.len()
        &&& runs_wf_from(s, rs.drop_first(), rs[0].2)
    }
}

/// Every run still carries exactly the bytes of its span in `s`.
pub open spec fn runs_unedited(s: Seq<u8>, rs: Seq<Run>) -> bool {
    forall|i: int| 0 <= i < rs.len() ==> #[trigger] rs[i].0 == s.subrange(rs[i].1, rs[i].2)
}

/// All text runs of one dialogue, in source order.
pub open spec fn dialogue_runs(d: Seq<SpeechModel>) -> Seq<Run>
    decreases d.len(),
{
    if d.len() == 0 {
        Seq::empty()
    } else {
        d[0].text + dialogue_runs(d.drop_first())
    }
}

/// All text runs of a dialogue list, in source order.
pub open spec fn output_runs(o: Seq<Seq<SpeechModel>>) -> Seq<Run>
    decreases o.len(),
{
    if o.len() == 0 {
        Seq::empty()
    } else {
        dialogue_runs(o[0]) + output_runs(o.drop_first())
    }
}

/// All text runs the extractor holds, in source order: finished dialogues,
/// then the current dialogue, then the speech buffer.
pub open spec fn state_runs(st: ExtractState) -> Seq<Run> {
    output_runs(st.output) + dialogue_runs(st.dialogue) + st.speech
}

pub proof fn lemma_dialogue_runs_push(d: Seq<SpeechModel>, sp: SpeechModel)
    ensures
        dialogue_runs(d.push(sp)) == dialogue_runs(d) + sp.text,
    decreases d.len(),
{
    assert(d.push(sp)[0] == if d.len() == 0 { sp } else { d[0] });
    if d.len() == 0 {
        assert(d.push(sp).drop_first() =~= Seq::<SpeechModel>::empty());
        assert(dialogue_runs(d.push(sp).drop_first()) == Seq::<Run>::empty());
        assert(dialogue_runs(d.push(sp)) =~= dialogue_runs(d) + sp.text);
    } else {
        assert(d.push(sp).drop_first() =~= d.drop_first().push(sp));
        lemma_dialogue_runs_push(d.drop_first(), sp);
        assert(dialogue_runs(d.push(sp)) == d[0].text + dialogue_runs(d.drop_first().push(sp)));
        assert(dialogue_runs(d.push(sp)) =~= dialogue_runs(d) + sp.text);
    }
}

pub proof fn lemma_output_runs_push(o: Seq<Seq<SpeechModel>>, d: Seq<SpeechModel>)
    ensures
        output_runs(o.push(d)) == output_runs(o) + dialogue_runs(d),
    decreases o.len(),
{
    assert(o.push(d)[0] == if o.len() == 0 { d } else { o[0] });
    if o.len() == 0 {
        assert(o.push(d).drop_first() =~= Seq::<Seq<SpeechModel>>::empty());
        assert(output_runs(o.push(d).drop_first()) == Seq::<Run>::empty());
        assert(output_runs(o.push(d)) =~= output_runs(o) + dialogue_runs(d));
    } else {
        assert(o.push(d).drop_first() =~= o.drop_first().push(d));
        lemma_output_runs_push(o.drop_first(), d);
        assert(output_runs(o.push(d)) == dialogue_runs(o[0]) + output_runs(o.drop_first().push(d)));
        assert(output_runs(o.push(d)) =~= output_runs(o) + dialogue_runs(d));
    }
}

pub proof fn lemma_dialogue_runs_concat(a: Seq<SpeechModel>, b: Seq<SpeechModel>)
    ensures
        dialogue_runs(a + b) == dialogue_runs(a) + dialogue_runs(b),
    decreases a.len(),
{
    if a.len() == 0 {
        assert(a + b =~= b);
        assert(dialogue_runs(a) + dialogue_runs(b) =~= dialogue_runs(b));
    } else {
        assert((a + b).drop_first() =~= a.drop_first() + b);
        assert((a + b)[0] == a[0]);
        lemma_dialogue_runs_concat(a.drop_first(), b);
        assert(dialogue_runs(a + b) =~= dialogue_runs(a) + dialogue_runs(b));
    }
}

pub proof fn lemma_output_runs_concat(a: Seq<Seq<SpeechModel>>, b: Seq<Seq<SpeechModel>>)
    ensures
        output_runs(a + b) == output_runs(a) + output_runs(b),
    decreases a.len(),
{
    if a.len() == 0 {
        assert(a + b =~= b);
        assert(output_runs(a) + output_runs(b) =~= output_runs(b));
    } else {
        assert((a + b).drop_first() =~= a.drop_first() + b);
        assert((a + b)[0] == a[0]);
        lemma_output_runs_concat(a.drop_first(), b);
        assert(output_runs(a + b) =~= output_runs(a) + output_runs(b));
    }
}

/// Well-formedness and the end cursor distribute over concatenation of run
/// lists.
pub proof fn lemma_runs_concat(s: Seq<u8>, rs1: Seq<Run>, rs2: Seq<Run>, c: int)
    ensures
        runs_wf_from(s, rs1 + rs2, c) == (runs_wf_from(s, rs1, c) && runs_wf_from(
            s,
            rs2,
            end_cursor(rs1, c),
        )),
        end_cursor(rs1 + rs2, c) == end_cursor(rs2, end_cursor(rs1, c)),
    decreases rs1.len(),
{
    if rs1.len() == 0 {
        assert(rs1 + rs2 =~= rs2);
    } else {
        assert((rs1 + rs2).drop_first() =~= rs1.drop_first() + rs2);
        assert((rs1 + rs2)[0] == rs1[0]);
        lemma_runs_concat(s, rs1.drop_first(), rs2, rs1[0].2);
        if rs2.len() == 0 {
            assert((rs1 + rs2).last() == rs1.last());
        } else {
            assert((rs1 + rs2).last() == rs2.last());
        }
    }
}

/// One extractor step only moves runs between its buffers — in order — and a
/// text token appends its run at the end.
proof fn lemma_step_runs(st: ExtractState, t: TokenModel, start: int, end: int)
    ensures
        state_runs(extract_step(st, t, start, end)) == if t is Text {
            state_runs(st).push((t->Text_0, start, end))
        } else {
            state_runs(st)
        },
{
    let stn = extract_step(st, t, start, end);
    if t is Message {
        let d = flush_speech(st);
        if st.speech.len() > 0 {
            lemma_dialogue_runs_push(st.dialogue, SpeechModel { character: st.speaker, text: st.speech });
        }
        assert(dialogue_runs(d) =~= dialogue_runs(st.dialogue) + st.speech);
        if d.len() > 0 {
            lemma_output_runs_push(st.output, d);
        } else {
            assert(dialogue_runs(d) =~= Seq::<Run>::empty());
        }
        assert(state_runs(stn) =~= state_runs(st));
    } else if t.is_face() {
        let d = flush_speech(st);
        if st.speech.len() > 0 {
            lemma_dialogue_runs_push(st.dialogue, SpeechModel { character: st.speaker, text: st.speech });
        }
        assert(dialogue_runs(d) =~= dialogue_runs(st.dialogue) + st.speech);
        assert(state_runs(stn) =~= state_runs(st));
    } else if t is Text {
        assert(state_runs(stn) =~= state_runs(st).push((t->Text_0, start, end)));
    }
}

/// End-of-stream finalization keeps exactly the runs the extractor holds.
proof fn lemma_finish_runs(st: ExtractState)
    ensures
        output_runs(extract_finish(st)) == state_runs(st),
{
    let d = flush_speech(st);
    if st.speech.len() > 0 {
        lemma_dialogue_runs_push(st.dialogue, SpeechModel { character: st.speaker, text: st.speech });
    }
    assert(dialogue_runs(d) =~= dialogue_runs(st.dialogue) + st.speech);
    if d.len() > 0 {
        lemma_output_runs_push(st.output, d);
    } else {
        assert(dialogue_runs(d) =~= Seq::<Run>::empty());
    }
    assert(output_runs(extract_finish(st)) =~= state_runs(st));
}

proof fn lemma_extract_wf_from(s: Seq<u8>, st: ExtractState, pos: int)
    requires
        0 <= pos <= s.len(),
        runs_wf_from(s, state_runs(st), 0),
        end_cursor(state_runs(st), 0) <= pos,
        runs_unedited(s, state_runs(st)),
    ensures
        runs_wf_from(s, state_runs(extract_run(st, spec_tokens(s, pos))), 0),
        runs_unedited(s, state_runs(extract_run(st, spec_tokens(s, pos)))),
    decreases s.len() - pos,
{
    if pos < s.len() {
        lemma_token_end_in_range(s, pos);
        let t = spec_token_at(s, pos);
        let e = spec_token_end(s, pos);
        let st1 = extract_step(st, t, pos, e);
        lemma_step_runs(st, t, pos, e);
        if t is Text {
            crate::lexer::lemma_text_token_payload(s, pos);
            let r = (t->Text_0, pos, e);
            assert(state_runs(st).push(r) =~= state_runs(st) + seq![r]);
            lemma_runs_concat(s, state_runs(st), seq![r], 0);
            assert(seq![r].drop_first() =~= Seq::<Run>::empty());
            assert(seq![r][0] == r);
            assert(runs_wf_from(s, seq![r].drop_first(), r.2));
            assert(runs_wf_from(s, seq![r], end_cursor(state_runs(st), 0)));
            assert(end_cursor(state_runs(st1), 0) == e);
            assert forall|i: int| 0 <= i < state_runs(st1).len() implies #[trigger] state_runs(
                st1,
            )[i].0 == s.subrange(state_runs(st1)[i].1, state_runs(st1)[i].2) by {
                if i < state_runs(st).len() {
                    assert(state_runs(st1)[i] == state_runs(st)[i]);
                } else {
                    assert(state_runs(st1)[i] == r);
                }
            }
        }
        assert(spec_tokens(s, pos) == seq![(t, pos, e)] + spec_tokens(s, e));
        assert((seq![(t, pos, e)] + spec_tokens(s, e)).drop_first() =~= spec_tokens(s, e));
        assert(extract_run(st, spec_tokens(s, pos)) == extract_run(st1, spec_tokens(s, e)));
        lemma_extract_wf_from(s, st1, e);
    }
}

/// Extraction yields well-formed, unedited runs: the byte spans recorded in
/// the extracted dialogues are in bounds, in strictly non-overlapping source
/// order, and each run's bytes are exactly the bytes of its span in the
/// input.
pub proof fn lemma_extract_runs_wf(s: Seq<u8>)
    ensures
        runs_wf_from(s, output_runs(spec_extract(spec_tokens(s, 0))), 0),
        runs_unedited(s, output_runs(spec_extract(spec_tokens(s, 0)))),
{
    assert(state_runs(init_state()) =~= Seq::<Run>::empty());
    lemma_extract_wf_from(s, init_state(), 0);
    lemma_finish_runs(extract_run(init_state(), spec_tokens(s, 0)));
}

proof fn lemma_run_inert(st: ExtractState, toks: Seq<(TokenModel, int, int)>)
    requires
        forall|i: int|
            0 <= i < toks.len() ==> !(#[trigger] toks[i].0 is Message) && !toks[i].0.is_face()
                && !(toks[i].0 is Text),
    ensures
        extract_run(st, toks) == st,
    decreases toks.len(),
{
    if toks.len() > 0 {
        assert(extract_step(st, toks[0].0, toks[0].1, toks[0].2) == st);
        assert(forall|i: int|
            0 <= i < toks.drop_first().len() ==> !(#[trigger] toks.drop_first()[i].0 is Message)
                && !toks.drop_first()[i].0.is_face() && !(toks.drop_first()[i].0 is Text));
        lemma_run_inert(st, toks.drop_first());
    }
}

} // verus!
