use vstd::prelude::*;

verus! {

/// A qualified path, `segment1::...::segmentN`, as the name search proposes it.
/// A well-formed path has at least one segment.
#[derive(Clone, Debug)]
pub struct ModPath {
    pub segments: Vec<String>,
}

/// The text of each segment.
pub open spec fn segment_texts(p: ModPath) -> Seq<Seq<char>> {
    p.segments@.map_values(|s: String| s@)
}

/// Segments joined by `::`.
pub open spec fn join_segments(s: Seq<Seq<char>>) -> Seq<char>
    decreases s.len(),
{
    if s.len() == 0 {
        Seq::empty()
    } else if s.len() == 1 {
        s[0]
    } else {
        join_segments(s.drop_last()) + "::"@ + s.last()
    }
}

/// The rendered text of a path.
pub open spec fn spec_render(p: ModPath) -> Seq<char> {
    join_segments(segment_texts(p))
}

impl ModPath {
    pub open spec fn wf(self) -> bool {
        self.segments@.len() > 0
    }

    pub fn new(segments: Vec<String>) -> (r: ModPath)
        requires
            segments@.len() > 0,
        ensures
            r.segments@ == segments@,
            r.wf(),
    {
        ModPath { segments }
    }
}

/// Renders a path as `segment1::...::segmentN`.
pub fn render_path(p: &ModPath) -> (r: String)
    ensures
        r@ == spec_render(*p),
{
    let mut out = String::new();
    let mut i: usize = 0;
    let ghost texts = segment_texts(*p);
    while i < p.segments.len()
        invariant
            i <= p.segments@.len(),
            texts == segment_texts(*p),
            out@ == join_segments(texts.take(i as int)),
        decreases p.segments@.len() - i,
    {
        proof {
            assert(texts.take(i + 1).drop_last() =~= texts.take(i as int));
            assert(texts.take(i + 1).last() == p.segments@[i as int]@);
            if i == 0 {
                assert(texts.take(0) =~= Seq::<Seq<char>>::empty());
                assert(texts.take(1) =~= seq![texts[0]]);
            }
        }
        if i > 0 {
            out.append("::");
        }
        out.append(p.segments[i].as_str());
        i = i + 1;
    }
    proof {
        assert(texts.take(i as int) =~= texts);
    }
    out
}

} // verus!
