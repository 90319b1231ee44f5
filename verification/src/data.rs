//! Extracted data and reconstruction.
//!
//! A [`FileData`] holds the full decoded text of one script file, its path,
//! and the extracted dialogues, each text run with the byte span it occupied
//! in the decoded text. [`FileData::reconstruct`] rebuilds the full decoded
//! text by splicing the (possibly edited) text of every run into its recorded
//! span and copying every other byte of the original verbatim. The recorded
//! spans must be in bounds, non-decreasing within each run and
//! non-overlapping in order; reconstruction validates this and rejects
//! malformed data rather than mis-splice.

use vstd::prelude::*;
use crate::extract::{
    dialogue_runs, dialogue_view, dialogues_from_tsc, dialogues_view, end_cursor,
    lemma_dialogue_runs_concat, lemma_dialogue_runs_push, lemma_extract_runs_wf,
    lemma_output_runs_concat, lemma_output_runs_push, lemma_runs_concat, output_runs, runs_unedited,
    runs_wf_from, spec_extract, Run, Speech, SpeechModel,
};
use crate::lexer::spec_tokens;

verus! {

/// Reconstruction rejected the recorded byte ranges: some range is out of
/// bounds of the original text, decreasing, or overlaps the range before it.
#[derive(Debug, Clone, Copy, PartialEq, Eq, Structural)]
pub enum ReconstructError {
    InvalidRanges,
}

/// The extracted content of one script file: its decoded text (the immutable
/// ground truth), its filesystem path, and the extracted dialogues. Between
/// extraction and reconstruction only the text of each run may be edited.
#[derive(Debug)]
pub struct FileData {
    pub dialogues: Vec<Vec<Speech>>,
    pub original: Vec<u8>,
    pub path: String,
}

/// Mathematical model of a [`FileData`].
#[verifier::ext_equal]
pub struct FileDataModel {
    pub dialogues: Seq<Seq<SpeechModel>>,
    pub original: Seq<u8>,
    pub path: Seq<char>,
}

impl View for FileData {
    type V = FileDataModel;

    open spec fn view(&self) -> FileDataModel {
        FileDataModel {
            dialogues: dialogues_view(self.dialogues@),
            original: self.original@,
            path: self.path@,
        }
    }
}

/// The complete persisted unit: the root directory the script files were
/// discovered under, and the extracted content of every file that produced
/// at least one dialogue.
#[derive(Debug)]
pub struct DialogueData {
    pub game_data_root: String,
    pub files: Vec<FileData>,
}

/// All text runs of a file's dialogues, in source order.
pub open spec fn file_runs(fd: FileDataModel) -> Seq<Run> {
    output_runs(fd.dialogues)
}

/// The spliced body: for each run in order, the original bytes from the
/// cursor up to the run's start, then the run's (possibly edited) text; the
/// cursor then moves to the run's end.
pub open spec fn splice_body(orig: Seq<u8>, rs: Seq<Run>, c: int) -> Seq<u8>
    decreases rs.len(),
{
    if rs.len() == 0 {
        Seq::empty()
    } else {
        orig.subrange(c, rs[0].1) + rs[0].0 + splice_body(orig, rs.drop_first(), rs[0].2)
    }
}

/// The reconstructed text: the spliced body followed by the original bytes
/// from the last run's end to the end of the original.
pub open spec fn splice(orig: Seq<u8>, rs: Seq<Run>, c: int) -> Seq<u8> {
    splice_body(orig, rs, c) + orig.subrange(end_cursor(rs, c), orig.len() as int)
}

/// The spliced body distributes over concatenation of run lists.
pub proof fn lemma_splice_body_concat(orig: Seq<u8>, rs1: Seq<Run>, rs2: Seq<Run>, c: int)
    ensures
        splice_body(orig, rs1 + rs2, c) == splice_body(orig, rs1, c) + splice_body(
            orig,
            rs2,
            end_cursor(rs1, c),
        ),
    decreases rs1.len(),
{
    if rs1.len() == 0 {
        assert(rs1 + rs2 =~= rs2);
        assert(splice_body(orig, rs1, c) + splice_body(orig, rs2, c) =~= splice_body(
            orig,
            rs2,
            c,
        ));
    } else {
        assert((rs1 + rs2).drop_first() =~= rs1.drop_first() + rs2);
        assert((rs1 + rs2)[0] == rs1[0]);
        lemma_runs_concat(orig, rs1.drop_first(), rs2, rs1[0].2);
        lemma_splice_body_concat(orig, rs1.drop_first(), rs2, rs1[0].2);
        assert(end_cursor(rs1, c) == end_cursor(rs1.drop_first(), rs1[0].2));
        assert(splice_body(orig, rs1 + rs2, c) =~= splice_body(orig, rs1, c) + splice_body(
            orig,
            rs2,
            end_cursor(rs1, c),
        ));
    }
}

/// Reconstruction identity: when every run still carries exactly the bytes of
/// its span, splicing from cursor `c` reproduces the original from `c` on.
pub proof fn lemma_splice_unedited(s: Seq<u8>, rs: Seq<Run>, c: int)
    requires
        0 <= c <= s.len(),
        runs_wf_from(s, rs, c),
        runs_unedited(s, rs),
    ensures
        splice(s, rs, c) == s.subrange(c, s.len() as int),
        c <= end_cursor(rs, c) <= s.len(),
    decreases rs.len(),
{
    if rs.len() == 0 {
        assert(splice(s, rs, c) =~= s.subrange(c, s.len() as int));
    } else {
        assert(runs_unedited(s, rs.drop_first())) by {
            assert(forall|i: int|
                0 <= i < rs.drop_first().len() ==> rs.drop_first()[i] == rs[i + 1]);
        }
        lemma_splice_unedited(s, rs.drop_first(), rs[0].2);
        assert(rs[0].0 == s.subrange(rs[0].1, rs[0].2));
        assert(end_cursor(rs, c) == end_cursor(rs.drop_first(), rs[0].2));
        assert(splice_body(s, rs, c) == s.subrange(c, rs[0].1) + rs[0].0 + splice_body(
            s,
            rs.drop_first(),
            rs[0].2,
        ));
        let a = rs[0].1;
        let b = rs[0].2;
        let ec = end_cursor(rs, c);
        let ln = s.len() as int;
        let x = splice_body(s, rs.drop_first(), b);
        assert(x + s.subrange(ec, ln) == s.subrange(b, ln));
        assert(splice(s, rs, c) =~= (s.subrange(c, a) + rs[0].0) + (x + s.subrange(ec, ln)));
        assert((s.subrange(c, a) + s.subrange(a, b)) + s.subrange(b, ln) =~= s.subrange(c, ln));
        assert(splice(s, rs, c) == s.subrange(c, s.len() as int));
    }
}

/// Reconstruction identity for a whole file: a well-formed [`FileData`] whose
/// runs are unedited reconstructs to exactly its original text.
pub proof fn lemma_reconstruct_identity(fd: FileDataModel)
    requires
        runs_wf_from(fd.original, file_runs(fd), 0),
        runs_unedited(fd.original, file_runs(fd)),
    ensures
        splice(fd.original, file_runs(fd), 0) == fd.original,
{
    lemma_splice_unedited(fd.original, file_runs(fd), 0);
    assert(fd.original.subrange(0, fd.original.len() as int) =~= fd.original);
}

/// Extraction followed by reconstruction is the identity: the dialogues
/// extracted from any text are well formed, and splicing their unedited runs
/// back reproduces the text byte for byte.
pub proof fn lemma_extract_reconstruct_identity(s: Seq<u8>)
    ensures
        splice(s, output_runs(spec_extract(spec_tokens(s, 0))), 0) == s,
{
    lemma_extract_runs_wf(s);
    lemma_splice_unedited(s, output_runs(spec_extract(spec_tokens(s, 0))), 0);
    assert(s.subrange(0, s.len() as int) =~= s);
}

/// A [`FileData`] assembled by extraction reconstructs to its own original:
/// its runs are well formed, so [`FileData::reconstruct`] succeeds, and as
/// long as no text field was edited the spliced result is the original text,
/// byte for byte.
pub proof fn lemma_extracted_file_reconstructs(fd: FileDataModel, text: Seq<u8>)
    requires
        fd.dialogues == spec_extract(spec_tokens(text, 0)),
        fd.original == text,
    ensures
        runs_wf_from(fd.original, file_runs(fd), 0),
        splice(fd.original, file_runs(fd), 0) == fd.original,
{
    lemma_extract_runs_wf(text);
    lemma_extract_reconstruct_identity(text);
}

fn append_bytes(out: &mut Vec<u8>, src: &Vec<u8>)
    ensures
        final(out)@ == old(out)@ + src@,
{
    let mut i: usize = 0;
    while i < src.len()
        invariant
            i <= src@.len(),
            out@ == old(out)@ + src@.subrange(0, i as int),
        decreases src@.len() - i,
    {
        out.push(src[i]);
        i = i + 1;
        assert(out@ =~= old(out)@ + src@.subrange(0, i as int));
    }
    assert(out@ =~= old(out)@ + src@);
}

fn append_subrange(out: &mut Vec<u8>, src: &Vec<u8>, a: usize, b: usize)
    requires
        a <= b <= src@.len(),
    ensures
        final(out)@ == old(out)@ + src@.subrange(a as int, b as int),
{
    let mut i: usize = a;
    while i < b
        invariant
            a <= i <= b <= src@.len(),
            out@ == old(out)@ + src@.subrange(a as int, i as int),
        decreases b - i,
    {
        out.push(src[i]);
        i = i + 1;
        assert(out@ =~= old(out)@ + src@.subrange(a as int, i as int));
    }
}

fn splice_speech(out: &mut Vec<u8>, orig: &Vec<u8>, sp: &Speech, cursor: usize) -> (res: Option<
    usize,
>)
    requires
        cursor <= orig@.len(),
    ensures
        match res {
            Some(c2) => {
                &&& runs_wf_from(orig@, sp@.text, cursor as int)
                &&& c2 as int == end_cursor(sp@.text, cursor as int)
                &&& c2 <= orig@.len()
                &&& final(out)@ == old(out)@ + splice_body(orig@, sp@.text, cursor as int)
            },
            None => !runs_wf_from(orig@, sp@.text, cursor as int),
        },
{
    let ghost rs = sp@.text;
    let mut cur: usize = cursor;
    let mut k: usize = 0;
    proof {
        assert(rs.take(0) =~= Seq::<Run>::empty());
        assert(out@ =~= old(out)@ + splice_body(orig@, rs.take(0), cursor as int));
    }
    while k < sp.text.len()
        invariant
            k <= sp.text@.len(),
            rs == sp@.text,
            rs.len() == sp.text@.len(),
            cursor <= orig@.len(),
            cur <= orig@.len(),
            runs_wf_from(orig@, rs.take(k as int), cursor as int),
            cur as int == end_cursor(rs.take(k as int), cursor as int),
            out@ == old(out)@ + splice_body(orig@, rs.take(k as int), cursor as int),
        decreases sp.text@.len() - k,
    {
        let run = &sp.text[k];
        let start = run.1.start;
        let end = run.1.end;
        let ghost r = rs[k as int];
        proof {
            assert(r == (run.0@, run.1.start as int, run.1.end as int));
        }
        if !(cur <= start && start <= end && end <= orig.len()) {
            proof {
                assert(rs =~= rs.take(k as int) + rs.skip(k as int));
                lemma_runs_concat(orig@, rs.take(k as int), rs.skip(k as int), cursor as int);
                assert(rs.skip(k as int)[0] == r);
                assert(!runs_wf_from(orig@, rs.skip(k as int), cur as int));
                assert(!runs_wf_from(orig@, rs, cursor as int));
            }
            return None;
        }
        append_subrange(out, orig, cur, start);
        append_bytes(out, &run.0);
        cur = end;
        k = k + 1;
        proof {
            assert(rs.take(k as int) =~= rs.take(k as int - 1) + seq![r]);
            lemma_runs_concat(orig@, rs.take(k as int - 1), seq![r], cursor as int);
            lemma_splice_body_concat(orig@, rs.take(k as int - 1), seq![r], cursor as int);
            assert(seq![r].drop_first() =~= Seq::<Run>::empty());
            assert(seq![r][0] == r);
            assert(runs_wf_from(orig@, seq![r].drop_first(), r.2));
            assert(runs_wf_from(orig@, seq![r], end_cursor(rs.take(k as int - 1), cursor as int)));
            assert(splice_body(orig@, seq![r].drop_first(), r.2) == Seq::<u8>::empty());
            assert(splice_body(orig@, seq![r], end_cursor(rs.take(k as int - 1), cursor as int))
                =~= orig@.subrange(end_cursor(rs.take(k as int - 1), cursor as int), r.1) + r.0);
            assert(out@ =~= old(out)@ + splice_body(orig@, rs.take(k as int), cursor as int));
        }
    }
    proof {
        assert(rs.take(k as int) =~= rs);
    }
    Some(cur)
}

fn splice_dialogue(out: &mut Vec<u8>, orig: &Vec<u8>, d: &Vec<Speech>, cursor: usize) -> (res:
    Option<usize>)
    requires
        cursor <= orig@.len(),
    ensures
        match res {
            Some(c2) => {
                &&& runs_wf_from(orig@, dialogue_runs(dialogue_view(d@)), cursor as int)
                &&& c2 as int == end_cursor(dialogue_runs(dialogue_view(d@)), cursor as int)
                &&& c2 <= orig@.len()
                &&& final(out)@ == old(out)@ + splice_body(
                    orig@,
                    dialogue_runs(dialogue_view(d@)),
                    cursor as int,
                )
            },
            None => !runs_wf_from(orig@, dialogue_runs(dialogue_view(d@)), cursor as int),
        },
{
    let ghost dv = dialogue_view(d@);
    let mut cur: usize = cursor;
    let mut j: usize = 0;
    proof {
        assert(dv.take(0) =~= Seq::<SpeechModel>::empty());
        assert(dialogue_runs(dv.take(0)) == Seq::<Run>::empty());
        assert(out@ =~= old(out)@ + splice_body(orig@, dialogue_runs(dv.take(0)), cursor as int));
    }
    while j < d.len()
        invariant
            j <= d@.len(),
            dv == dialogue_view(d@),
            dv.len() == d@.len(),
            cursor <= orig@.len(),
            cur <= orig@.len(),
            runs_wf_from(orig@, dialogue_runs(dv.take(j as int)), cursor as int),
            cur as int == end_cursor(dialogue_runs(dv.take(j as int)), cursor as int),
            out@ == old(out)@ + splice_body(orig@, dialogue_runs(dv.take(j as int)), cursor as int),
        decreases d@.len() - j,
    {
        let ghost pre = dialogue_runs(dv.take(j as int));
        let res = splice_speech(out, orig, &d[j], cur);
        proof {
            assert(dv[j as int] == d@[j as int]@);
        }
        match res {
            None => {
                proof {
                    assert(dv =~= dv.take(j as int) + dv.skip(j as int));
                    lemma_dialogue_runs_concat(dv.take(j as int), dv.skip(j as int));
                    lemma_runs_concat(
                        orig@,
                        pre,
                        dialogue_runs(dv.skip(j as int)),
                        cursor as int,
                    );
                    assert(dv.skip(j as int)[0] == dv[j as int]);
                    assert(dv.skip(j as int).drop_first() =~= dv.skip(j as int + 1));
                    assert(dialogue_runs(dv.skip(j as int)) == dv[j as int].text + dialogue_runs(
                        dv.skip(j as int + 1),
                    ));
                    lemma_runs_concat(
                        orig@,
                        dv[j as int].text,
                        dialogue_runs(dv.skip(j as int + 1)),
                        cur as int,
                    );
                    assert(!runs_wf_from(orig@, dialogue_runs(dv), cursor as int));
                }
                return None;
            },
            Some(c2) => {
                cur = c2;
                j = j + 1;
                proof {
                    assert(dv.take(j as int) =~= dv.take(j as int - 1).push(dv[j as int - 1]));
                    lemma_dialogue_runs_push(dv.take(j as int - 1), dv[j as int - 1]);
                    lemma_runs_concat(orig@, pre, dv[j as int - 1].text, cursor as int);
                    lemma_splice_body_concat(orig@, pre, dv[j as int - 1].text, cursor as int);
                    assert(out@ =~= old(out)@ + splice_body(
                        orig@,
                        dialogue_runs(dv.take(j as int)),
                        cursor as int,
                    ));
                }
            },
        }
    }
    proof {
        assert(dv.take(j as int) =~= dv);
    }
    Some(cur)
}

impl FileData {
    /// Rebuilds the full decoded text: every byte of the original outside the
    /// recorded spans is copied verbatim, and each recorded span is replaced
    /// by its run's (possibly edited) text. Succeeds exactly when the
    /// recorded spans are in bounds, non-decreasing and non-overlapping in
    /// order; malformed ranges are reported, never spliced.
    pub fn reconstruct(&self) -> (r: Result<Vec<u8>, ReconstructError>)
        ensures
            r is Ok <==> runs_wf_from(self@.original, file_runs(self@), 0),
            r is Ok ==> r->Ok_0@ == splice(self@.original, file_runs(self@), 0),
    {
        let ghost ov = dialogues_view(self.dialogues@);
        let mut out: Vec<u8> = Vec::new();
        let mut cur: usize = 0;
        let mut i: usize = 0;
        proof {
            assert(ov.take(0) =~= Seq::<Seq<SpeechModel>>::empty());
            assert(output_runs(ov.take(0)) == Seq::<Run>::empty());
            assert(out@ =~= splice_body(self@.original, output_runs(ov.take(0)), 0));
        }
        while i < self.dialogues.len()
            invariant
                i <= self.dialogues@.len(),
                ov == dialogues_view(self.dialogues@),
                ov.len() == self.dialogues@.len(),
                cur <= self.original@.len(),
                runs_wf_from(self@.original, output_runs(ov.take(i as int)), 0),
                cur as int == end_cursor(output_runs(ov.take(i as int)), 0),
                out@ == splice_body(self@.original, output_runs(ov.take(i as int)), 0),
            decreases self.dialogues@.len() - i,
        {
            let ghost pre = output_runs(ov.take(i as int));
            let res = splice_dialogue(&mut out, &self.original, &self.dialogues[i], cur);
            proof {
                assert(ov[i as int] == dialogue_view(self.dialogues@[i as int]@));
            }
            match res {
                None => {
                    proof {
                        assert(ov =~= ov.take(i as int) + ov.skip(i as int));
                        lemma_output_runs_concat(ov.take(i as int), ov.skip(i as int));
                        lemma_runs_concat(
                            self@.original,
                            pre,
                            output_runs(ov.skip(i as int)),
                            0,
                        );
                        assert(ov.skip(i as int)[0] == ov[i as int]);
                        assert(ov.skip(i as int).drop_first() =~= ov.skip(i as int + 1));
                        assert(output_runs(ov.skip(i as int)) == dialogue_runs(ov[i as int])
                            + output_runs(ov.skip(i as int + 1)));
                        lemma_runs_concat(
                            self@.original,
                            dialogue_runs(ov[i as int]),
                            output_runs(ov.skip(i as int + 1)),
                            cur as int,
                        );
                        assert(!runs_wf_from(self@.original, output_runs(ov), 0));
                    }
                    return Err(ReconstructError::InvalidRanges);
                },
                Some(c2) => {
                    cur = c2;
                    i = i + 1;
                    proof {
                        assert(ov.take(i as int) =~= ov.take(i as int - 1).push(ov[i as int - 1]));
                        lemma_output_runs_push(ov.take(i as int - 1), ov[i as int - 1]);
                        lemma_runs_concat(self@.original, pre, dialogue_runs(ov[i as int - 1]), 0);
                        lemma_splice_body_concat(
                            self@.original,
                            pre,
                            dialogue_runs(ov[i as int - 1]),
                            0,
                        );
                        assert(out@ =~= splice_body(
                            self@.original,
                            output_runs(ov.take(i as int)),
                            0,
                        ));
                    }
                },
            }
        }
        proof {
            assert(ov.take(i as int) =~= ov);
        }
        let n = self.original.len();
        append_subrange(&mut out, &self.original, cur, n);
        proof {
            assert(out@ =~= splice(self@.original, file_runs(self@), 0));
        }
        Ok(out)
    }

    /// Extracts the dialogues of one decoded script text. Returns the
    /// assembled [`FileData`] when extraction produced at least one dialogue,
    /// and nothing otherwise: files without dialogue are excluded from the
    /// persisted result set.
    pub fn from_text(original: Vec<u8>, path: String) -> (r: Option<FileData>)
        ensures
            r is Some <==> spec_extract(spec_tokens(original@, 0)).len() > 0,
            r is Some ==> r->Some_0@ == (FileDataModel {
                dialogues: spec_extract(spec_tokens(original@, 0)),
                original: original@,
                path: path@,
            }),
    {
        let ghost m = FileDataModel {
            dialogues: spec_extract(spec_tokens(original@, 0)),
            original: original@,
            path: path@,
        };
        let dialogues = dialogues_from_tsc(original.as_slice());
        if dialogues.len() > 0 {
            let fd = FileData { dialogues, original, path };
            proof {
                assert(fd@ =~= m);
            }
            Some(fd)
        } else {
            None
        }
    }
}

} // verus!
