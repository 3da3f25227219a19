//! Byte-level text utilities shared by the output classifier and the
//! daemon-adapter chunk filter: prefix tests, line splitting and joining.
use vstd::prelude::*;

verus! {

/// Newline byte, the sole line separator recognized here.
pub const NL: u8 = 10;

/// True when `p` is a prefix of `s`.
pub open spec fn starts_with(s: Seq<u8>, p: Seq<u8>) -> bool {
    p.len() <= s.len() && s.subrange(0, p.len() as int) == p
}

/// Prefix test on byte slices.
pub fn slice_starts_with(s: &[u8], p: &[u8]) -> (r: bool)
    ensures
        r == starts_with(s@, p@),
{
    if p.len() > s.len() {
        return false;
    }
    let mut i: usize = 0;
    while i < p.len()
        invariant
            i <= p.len() <= s.len(),
            forall|k: int| 0 <= k < i ==> s@[k] == p@[k],
        decreases p.len() - i,
    {
        if s[i] != p[i] {
            assert(s@.subrange(0, p@.len() as int)[i as int] == s@[i as int]);
            return false;
        }
        i += 1;
    }
    assert(s@.subrange(0, p@.len() as int) =~= p@);
    true
}

/// Equality test on byte slices.
pub fn slice_eq(s: &[u8], t: &[u8]) -> (r: bool)
    ensures
        r == (s@ == t@),
{
    if s.len() != t.len() {
        assert(s@ != t@);
        return false;
    }
    let r = slice_starts_with(s, t);
    if r {
        assert(s@.subrange(0, t@.len() as int) =~= s@);
    } else {
        assert(s@.subrange(0, t@.len() as int) =~= s@);
    }
    r
}

/// The line segments of `s`, given that the bytes of the current unfinished
/// line read so far are `cur`: every segment but possibly the last ends in a
/// newline, and concatenating all segments restores `cur + s`.
pub open spec fn split_from(s: Seq<u8>, cur: Seq<u8>) -> Seq<Seq<u8>>
    decreases s.len(),
{
    if s.len() == 0 {
        if cur.len() == 0 {
            seq![]
        } else {
            seq![cur]
        }
    } else if s[0] == NL {
        seq![cur.push(NL)] + split_from(s.drop_first(), seq![])
    } else {
        split_from(s.drop_first(), cur.push(s[0]))
    }
}

/// The line segments of `s`: each keeps its terminating newline, except a
/// final segment that `s` left unterminated.
pub open spec fn split_lines(s: Seq<u8>) -> Seq<Seq<u8>> {
    split_from(s, seq![])
}

/// A segment without its terminating newline, if it has one.
pub open spec fn line_content(seg: Seq<u8>) -> Seq<u8> {
    if seg.len() > 0 && seg.last() == NL {
        seg.drop_last()
    } else {
        seg
    }
}

/// Concatenation of a sequence of byte segments.
pub open spec fn concat_segs(segs: Seq<Seq<u8>>) -> Seq<u8>
    decreases segs.len(),
{
    if segs.len() == 0 {
        seq![]
    } else {
        segs[0] + concat_segs(segs.drop_first())
    }
}

/// View of a vector of byte vectors as a sequence of byte sequences.
pub open spec fn segs_view(v: Seq<Vec<u8>>) -> Seq<Seq<u8>> {
    v.map_values(|seg: Vec<u8>| seg@)
}

/// Split a byte string into its line segments.
pub fn split_segments(s: &[u8]) -> (r: Vec<Vec<u8>>)
    ensures
        segs_view(r@) == split_lines(s@),
{
    let mut out: Vec<Vec<u8>> = Vec::new();
    let mut cur: Vec<u8> = Vec::new();
    let mut i: usize = 0;
    assert(s@.subrange(0, s@.len() as int) =~= s@);
    assert(segs_view(out@) + split_from(s@, cur@) =~= split_lines(s@));
    while i < s.len()
        invariant
            i <= s.len(),
            split_lines(s@) == segs_view(out@) + split_from(s@.subrange(i as int, s@.len() as int), cur@),
        decreases s.len() - i,
    {
        let ghost pre_out = out@;
        let ghost pre_cur = cur@;
        let ghost rest = s@.subrange(i as int, s@.len() as int);
        assert(rest.drop_first() =~= s@.subrange(i + 1, s@.len() as int));
        let b = s[i];
        if b == NL {
            cur.push(NL);
            out.push(cur);
            cur = Vec::new();
            assert(segs_view(out@) =~= segs_view(pre_out) + seq![pre_cur.push(NL)]);
            assert(segs_view(out@) + split_from(s@.subrange(i + 1, s@.len() as int), cur@)
                =~= segs_view(pre_out) + split_from(rest, pre_cur));
        } else {
            cur.push(b);
        }
        i += 1;
    }
    assert(s@.subrange(s@.len() as int, s@.len() as int) =~= Seq::<u8>::empty());
    if cur.len() > 0 {
        out.push(cur);
        assert(segs_view(out@) =~= split_lines(s@));
    } else {
        assert(segs_view(out@) =~= split_lines(s@));
    }
    out
}

/// Join a vector of byte segments back into one byte string.
pub fn join_segments(segs: &Vec<Vec<u8>>) -> (r: Vec<u8>)
    ensures
        r@ == concat_segs(segs_view(segs@)),
{
    let mut out: Vec<u8> = Vec::new();
    let mut i: usize = 0;
    assert(segs_view(segs@).subrange(0, segs@.len() as int) =~= segs_view(segs@));
    assert(out@ + concat_segs(segs_view(segs@)) =~= concat_segs(segs_view(segs@)));
    while i < segs.len()
        invariant
            i <= segs.len(),
            concat_segs(segs_view(segs@)) == out@ + concat_segs(segs_view(segs@).subrange(
                i as int,
                segs@.len() as int,
            )),
        decreases segs.len() - i,
    {
        let ghost pre = out@;
        let ghost rest = segs_view(segs@).subrange(i as int, segs@.len() as int);
        assert(rest.drop_first() =~= segs_view(segs@).subrange(i + 1, segs@.len() as int));
        assert(rest[0] == segs@[i as int]@);
        let seg = &segs[i];
        let mut j: usize = 0;
        while j < seg.len()
            invariant
                j <= seg.len(),
                out@ == pre + seg@.subrange(0, j as int),
            decreases seg.len() - j,
        {
            out.push(seg[j]);
            assert(pre + seg@.subrange(0, j + 1) =~= (pre + seg@.subrange(0, j as int)).push(
                seg@[j as int],
            ));
            j += 1;
        }
        assert(seg@.subrange(0, seg@.len() as int) =~= seg@);
        assert(out@ + concat_segs(segs_view(segs@).subrange(i + 1, segs@.len() as int)) =~= pre
            + concat_segs(rest));
        i += 1;
    }
    assert(segs_view(segs@).subrange(segs@.len() as int, segs@.len() as int) =~= Seq::<Seq<
        u8,
    >>::empty());
    assert(out@ =~= concat_segs(segs_view(segs@)));
    out
}

/// A line's content without its terminating newline.
pub fn content_of(seg: &Vec<u8>) -> (r: &[u8])
    ensures
        r@ == line_content(seg@),
{
    if seg.len() > 0 && seg[seg.len() - 1] == NL {
        let r = vstd::slice::slice_subrange(seg.as_slice(), 0, seg.len() - 1);
        assert(r@ =~= line_content(seg@));
        r
    } else {
        let r = seg.as_slice();
        r
    }
}

/// Append all bytes of `seg` to `out`.
pub fn push_all(out: &mut Vec<u8>, seg: &[u8])
    ensures
        final(out)@ == old(out)@ + seg@,
{
    let mut j: usize = 0;
    while j < seg.len()
        invariant
            j <= seg.len(),
            out@ == old(out)@ + seg@.subrange(0, j as int),
        decreases seg.len() - j,
    {
        assert(old(out)@ + seg@.subrange(0, j as int) =~= old(out)@ + seg@.subrange(0, j as int));
        out.push(seg[j]);
        assert(old(out)@ + seg@.subrange(0, j + 1) =~= (old(out)@ + seg@.subrange(
            0,
            j as int,
        )).push(seg@[j as int]));
        j += 1;
    }
    assert(seg@.subrange(0, seg@.len() as int) =~= seg@);
}

/// View of an optional byte vector as an optional byte sequence.
pub open spec fn opt_bytes_view(o: Option<Vec<u8>>) -> Option<Seq<u8>> {
    match o {
        Some(v) => Some(v@),
        None => None,
    }
}

/// Concatenation distributes over appending one segment at the end.
pub proof fn lemma_concat_push(segs: Seq<Seq<u8>>, seg: Seq<u8>)
    ensures
        concat_segs(segs.push(seg)) == concat_segs(segs) + seg,
    decreases segs.len(),
{
    if segs.len() == 0 {
        assert(segs.push(seg)[0] == seg);
        assert(segs.push(seg).drop_first() =~= Seq::<Seq<u8>>::empty());
        assert(concat_segs(segs.push(seg)) == seg + concat_segs(Seq::<Seq<u8>>::empty()));
        assert(concat_segs(Seq::<Seq<u8>>::empty()) =~= Seq::<u8>::empty());
        assert(seg + Seq::<u8>::empty() =~= concat_segs(segs) + seg);
    } else {
        lemma_concat_push(segs.drop_first(), seg);
        assert(segs.push(seg).drop_first() =~= segs.drop_first().push(seg));
        assert(segs.push(seg)[0] == segs[0]);
        assert(segs[0] + (concat_segs(segs.drop_first()) + seg) =~= (segs[0] + concat_segs(
            segs.drop_first(),
        )) + seg);
    }
}

/// Splitting a byte string into line segments and concatenating them back
/// restores the string exactly.
pub proof fn lemma_split_concat(s: Seq<u8>)
    ensures
        concat_segs(split_lines(s)) == s,
{
    lemma_split_from_concat(s, seq![]);
    assert(concat_segs(split_lines(s)) =~= s);
}

proof fn lemma_split_from_concat(s: Seq<u8>, cur: Seq<u8>)
    ensures
        concat_segs(split_from(s, cur)) == cur + s,
    decreases s.len(),
{
    if s.len() == 0 {
        if cur.len() == 0 {
            assert(concat_segs(split_from(s, cur)) =~= cur + s);
        } else {
            assert(concat_segs(split_from(s, cur).drop_first()) =~= Seq::<u8>::empty());
            assert(concat_segs(split_from(s, cur)) =~= cur + s);
        }
    } else if s[0] == NL {
        lemma_split_from_concat(s.drop_first(), seq![]);
        let tail = split_from(s.drop_first(), seq![]);
        assert((seq![cur.push(NL)] + tail).drop_first() =~= tail);
        assert((seq![cur.push(NL)] + tail)[0] == cur.push(NL));
        assert(cur.push(NL) + (seq![] + s.drop_first()) =~= cur + s);
        assert(concat_segs(split_from(s, cur)) =~= cur + s);
    } else {
        lemma_split_from_concat(s.drop_first(), cur.push(s[0]));
        assert(cur.push(s[0]) + s.drop_first() =~= cur + s);
    }
}

} // verus!
