//! Classifier for captured build-and-run output: when the text carries a
//! build-progress marker, only complete diagnostic blocks (a line opening
//! with a diagnostic marker, up to the next blank line) are kept; text
//! without the marker is already clean and passes through unchanged.
use vstd::prelude::*;

use crate::text::{
    content_of, line_content, push_all, segs_view, slice_starts_with, split_lines, split_segments,
    starts_with,
};

verus! {

/// Marker opening a warning diagnostic block.
pub open spec fn warning_marker() -> Seq<u8> {
    seq![('w' as u8), ('a' as u8), ('r' as u8), ('n' as u8), ('i' as u8), ('n' as u8), ('g' as u8)]
}

/// Marker opening an error diagnostic block.
pub open spec fn error_marker() -> Seq<u8> {
    seq![('e' as u8), ('r' as u8), ('r' as u8), ('o' as u8), ('r' as u8)]
}

/// Marker of build-progress noise in captured output.
pub open spec fn progress_marker() -> Seq<u8> {
    seq![('C' as u8), ('o' as u8), ('m' as u8), ('p' as u8), ('i' as u8), ('l' as u8), ('i' as u8), ('n' as u8), ('g' as u8)]
}

/// True when a line opens a diagnostic block.
pub open spec fn is_diag_start(content: Seq<u8>) -> bool {
    starts_with(content, warning_marker()) || starts_with(content, error_marker())
}

/// The in-diagnostic-block flag after scanning one line: a diagnostic
/// marker raises it, a blank line clears it, any other line keeps it.
pub open spec fn flag_after(content: Seq<u8>, flag: bool) -> bool {
    if is_diag_start(content) {
        true
    } else if content.len() == 0 {
        false
    } else {
        flag
    }
}

/// The bytes kept from the given line segments: a segment is kept exactly
/// while the in-diagnostic-block flag, updated by its own content, is set.
pub open spec fn keep_diagnostics(segs: Seq<Seq<u8>>, flag: bool) -> Seq<u8>
    decreases segs.len(),
{
    if segs.len() == 0 {
        seq![]
    } else {
        let nf = flag_after(line_content(segs[0]), flag);
        (if nf {
            segs[0]
        } else {
            seq![]
        }) + keep_diagnostics(segs.drop_first(), nf)
    }
}

/// The progress marker occurs in `s` at position `i`.
pub open spec fn marker_at(s: Seq<u8>, i: int) -> bool {
    0 <= i && i + progress_marker().len() <= s.len() && s.subrange(
        i,
        i + progress_marker().len() as int,
    ) == progress_marker()
}

/// `s` contains the build-progress marker somewhere.
pub open spec fn contains_progress_marker(s: Seq<u8>) -> bool {
    exists|i: int| marker_at(s, i)
}

/// What the classifier returns on `s`.
pub open spec fn format_eval_spec(s: Seq<u8>) -> Seq<u8> {
    if contains_progress_marker(s) {
        keep_diagnostics(split_lines(s), false)
    } else {
        s
    }
}

/// Whether a line opens a diagnostic block.
fn is_diag_line(content: &[u8]) -> (r: bool)
    ensures
        r == is_diag_start(content@),
{
    let w: Vec<u8> = vec![('w' as u8), ('a' as u8), ('r' as u8), ('n' as u8), ('i' as u8), ('n' as u8), ('g' as u8)];
    let e: Vec<u8> = vec![('e' as u8), ('r' as u8), ('r' as u8), ('o' as u8), ('r' as u8)];
    assert(w@ =~= warning_marker());
    assert(e@ =~= error_marker());
    slice_starts_with(content, w.as_slice()) || slice_starts_with(content, e.as_slice())
}

/// Whether captured output carries the build-progress marker.
pub fn contains_progress(s: &[u8]) -> (r: bool)
    ensures
        r == contains_progress_marker(s@),
{
    let m: Vec<u8> = vec![('C' as u8), ('o' as u8), ('m' as u8), ('p' as u8), ('i' as u8), ('l' as u8), ('i' as u8), ('n' as u8), ('g' as u8)];
    assert(m@ =~= progress_marker());
    let mut i: usize = 0;
    while i < s.len()
        invariant
            i <= s.len(),
            m@ == progress_marker(),
            forall|j: int| 0 <= j < i ==> !marker_at(s@, j),
        decreases s.len() - i,
    {
        let window = vstd::slice::slice_subrange(s, i, s.len());
        if slice_starts_with(window, m.as_slice()) {
            assert(s@.subrange(i as int, i + progress_marker().len()) =~= window@.subrange(
                0,
                progress_marker().len() as int,
            ));
            assert(marker_at(s@, i as int));
            return true;
        }
        assert(!marker_at(s@, i as int)) by {
            if marker_at(s@, i as int) {
                assert(s@.subrange(i as int, i + progress_marker().len()) =~= window@.subrange(
                    0,
                    progress_marker().len() as int,
                ));
            }
        }
        i += 1;
    }
    assert(forall|j: int| !marker_at(s@, j));
    false
}

impl crate::IRust {
    /// Classify captured build output: with a build-progress marker present,
    /// keep exactly the diagnostic blocks; without one, return the input
    /// byte-identical.
    pub fn format_eval_output(&self, output: &[u8]) -> (r: Vec<u8>)
        ensures
            r@ == format_eval_spec(output@),
    {
    if !contains_progress(output) {
        let mut copy: Vec<u8> = Vec::new();
        push_all(&mut copy, output);
        assert(copy@ =~= output@);
        return copy;
    }
    let segs = split_segments(output);
    let mut out: Vec<u8> = Vec::new();
    let mut flag: bool = false;
    let mut i: usize = 0;
    assert(segs_view(segs@).subrange(0, segs@.len() as int) =~= segs_view(segs@));
    assert(out@ + keep_diagnostics(segs_view(segs@), false) =~= keep_diagnostics(
        segs_view(segs@),
        false,
    ));
    while i < segs.len()
        invariant
            i <= segs.len(),
            segs_view(segs@) == split_lines(output@),
            keep_diagnostics(split_lines(output@), false) == out@ + keep_diagnostics(
                segs_view(segs@).subrange(i as int, segs@.len() as int),
                flag,
            ),
        decreases segs.len() - i,
    {
        let ghost rest = segs_view(segs@).subrange(i as int, segs@.len() as int);
        assert(rest.drop_first() =~= segs_view(segs@).subrange(i + 1, segs@.len() as int));
        assert(rest[0] == segs@[i as int]@);
        let ghost pre = out@;
        let content = content_of(&segs[i]);
        let nf = is_diag_line(content) || (content.len() != 0 && flag);
        assert(nf == flag_after(line_content(segs@[i as int]@), flag));
        if nf {
            push_all(&mut out, segs[i].as_slice());
        } else {
            assert(out@ =~= pre + Seq::<u8>::empty());
        }
        flag = nf;
        i += 1;
    }
    assert(segs_view(segs@).subrange(segs@.len() as int, segs@.len() as int) =~= Seq::<Seq<
        u8,
    >>::empty());
    assert(out@ =~= keep_diagnostics(split_lines(output@), false));
        out
    }
}

} // verus!
