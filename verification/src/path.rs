//! Splitting a request path into its `/`-separated segments.

use vstd::prelude::*;

verus! {

/// The byte of `'/'`.
pub const SLASH: u8 = 47;

/// The pieces of `s` between the slashes, in order, as splitting a string
/// on `"/"` gives them: one more piece than there are slashes, empty
/// pieces included (`""` gives one empty piece, `"/"` two).
pub open spec fn split_segments(s: Seq<u8>) -> Seq<Seq<u8>>
    decreases s.len(),
{
    if s.len() == 0 {
        seq![Seq::<u8>::empty()]
    } else {
        let prev = split_segments(s.drop_last());
        if s.last() == SLASH {
            prev.push(Seq::<u8>::empty())
        } else {
            prev.update(prev.len() - 1, prev.last().push(s.last()))
        }
    }
}

/// The segment at `index` of the path, if the path has that many.
pub open spec fn segment(path: Seq<u8>, index: int) -> Option<Seq<u8>> {
    let segs = split_segments(path);
    if 0 <= index < segs.len() {
        Some(segs[index])
    } else {
        None
    }
}

/// A path that starts with `'/'` has at least two segments, the first of
/// them empty: the segment that names a route is the one after it.
pub proof fn lemma_leading_slash(path: Seq<u8>)
    requires
        path.len() > 0,
        path[0] == SLASH,
    ensures
        split_segments(path).len() >= 2,
        split_segments(path)[0] == Seq::<u8>::empty(),
        segment(path, 0) == Some(Seq::<u8>::empty()),
    decreases path.len(),
{
    let prev = path.drop_last();
    if path.len() == 1 {
        assert(prev =~= Seq::<u8>::empty());
        assert(path.last() == SLASH);
        assert(split_segments(prev) == seq![Seq::<u8>::empty()]);
    } else {
        assert(prev[0] == SLASH);
        lemma_leading_slash(prev);
    }
}

/// A piece of text without any `'/'`.
pub open spec fn no_slash(s: Seq<u8>) -> bool {
    forall|i: int| 0 <= i < s.len() ==> s[i] != SLASH
}

/// Splitting never gives an empty list of segments.
pub proof fn lemma_split_nonempty(s: Seq<u8>)
    ensures
        split_segments(s).len() >= 1,
    decreases s.len(),
{
    if s.len() > 0 {
        lemma_split_nonempty(s.drop_last());
    }
}

/// Text without a slash, put after `x`, only extends the last segment.
pub proof fn lemma_split_append_plain(x: Seq<u8>, s: Seq<u8>)
    requires
        no_slash(s),
    ensures
        split_segments(x + s) == split_segments(x).update(
            split_segments(x).len() - 1,
            split_segments(x).last() + s,
        ),
    decreases s.len(),
{
    lemma_split_nonempty(x);
    let segs = split_segments(x);
    if s.len() == 0 {
        assert(x + s =~= x);
        assert(segs.last() + s =~= segs.last());
        assert(segs.update(segs.len() - 1, segs.last()) =~= segs);
    } else {
        let init = s.drop_last();
        lemma_split_append_plain(x, init);
        assert((x + s).drop_last() =~= x + init);
        assert((x + s).last() == s.last());
        assert(s.last() != SLASH);
        let prev = split_segments(x + init);
        assert(prev.last() == segs.last() + init);
        assert((segs.last() + init).push(s.last()) =~= segs.last() + s);
        assert(split_segments(x + s) =~= segs.update(segs.len() - 1, segs.last() + s));
    }
}

/// A slash and then text without a slash, put after `x`, add that text as
/// one more segment.
pub proof fn lemma_split_append_segment(x: Seq<u8>, s: Seq<u8>)
    requires
        no_slash(s),
    ensures
        split_segments(x.push(SLASH) + s) == split_segments(x).push(s),
{
    let y = x.push(SLASH);
    assert(y.drop_last() =~= x);
    assert(split_segments(y) == split_segments(x).push(Seq::<u8>::empty()));
    lemma_split_append_plain(y, s);
    assert(Seq::<u8>::empty() + s =~= s);
    assert(split_segments(y).update(split_segments(y).len() - 1, split_segments(y).last() + s)
        =~= split_segments(x).push(s));
}

/// The segments of a path `/a`, `/a/b` or `/a/b/c` made of slash-free
/// parts: an empty first segment, then the parts.
pub proof fn lemma_split_of_parts(a: Seq<u8>, b: Seq<u8>, c: Seq<u8>)
    requires
        no_slash(a),
        no_slash(b),
        no_slash(c),
    ensures
        split_segments(seq![SLASH] + a) == seq![Seq::<u8>::empty(), a],
        split_segments(seq![SLASH] + a + seq![SLASH] + b) == seq![Seq::<u8>::empty(), a, b],
        split_segments(seq![SLASH] + a + seq![SLASH] + b + seq![SLASH] + c) == seq![
            Seq::<u8>::empty(),
            a,
            b,
            c,
        ],
{
    let e = Seq::<u8>::empty();
    assert(split_segments(e) == seq![e]);
    lemma_split_append_segment(e, a);
    assert(e.push(SLASH) + a =~= seq![SLASH] + a);
    let p1 = seq![SLASH] + a;
    lemma_split_append_segment(p1, b);
    assert(p1.push(SLASH) + b =~= seq![SLASH] + a + seq![SLASH] + b);
    let p2 = seq![SLASH] + a + seq![SLASH] + b;
    lemma_split_append_segment(p2, c);
    assert(p2.push(SLASH) + c =~= seq![SLASH] + a + seq![SLASH] + b + seq![SLASH] + c);
    assert(seq![e].push(a) =~= seq![e, a]);
    assert(seq![e, a].push(b) =~= seq![e, a, b]);
    assert(seq![e, a, b].push(c) =~= seq![e, a, b, c]);
}

/// The views of a list of byte buffers.
pub open spec fn views(v: Seq<Vec<u8>>) -> Seq<Seq<u8>> {
    v.map_values(|b: Vec<u8>| b@)
}

/// Splits a path on `'/'`, keeping empty segments.
pub fn split_path(path: &[u8]) -> (segs: Vec<Vec<u8>>)
    ensures
        views(segs@) == split_segments(path@),
{
    let mut pieces: Vec<Vec<u8>> = Vec::new();
    let mut cur: Vec<u8> = Vec::new();
    let mut i: usize = 0;
    assert(path@.take(0) =~= Seq::<u8>::empty());
    assert(views(pieces@).push(cur@) =~= split_segments(path@.take(0)));
    while i < path.len()
        invariant
            i <= path@.len(),
            views(pieces@).push(cur@) == split_segments(path@.take(i as int)),
        decreases path@.len() - i,
    {
        let b = path[i];
        assert(path@.take(i + 1).drop_last() =~= path@.take(i as int));
        assert(path@.take(i + 1).last() == b);
        if b == SLASH {
            let ghost old_pieces = pieces@;
            let ghost old_cur = cur@;
            pieces.push(cur);
            cur = Vec::new();
            assert(views(pieces@) =~= views(old_pieces).push(old_cur));
        } else {
            cur.push(b);
        }
        i = i + 1;
        assert(views(pieces@).push(cur@) =~= split_segments(path@.take(i as int)));
    }
    assert(path@.take(i as int) =~= path@);
    let ghost last_pieces = pieces@;
    pieces.push(cur);
    assert(views(pieces@) =~= views(last_pieces).push(cur@));
    pieces
}

} // verus!
