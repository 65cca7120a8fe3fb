use vstd::prelude::*;

verus! {

/// Mathematical value of a path: an optional root marker, present exactly on
/// absolute paths, and the components after it, each a byte string.
#[verifier::ext_equal]
pub struct PathView {
    pub root: Option<Seq<u8>>,
    pub segments: Seq<Seq<u8>>,
}

/// The byte strings of a sequence of components.
pub open spec fn seg_views(v: Seq<Vec<u8>>) -> Seq<Seq<u8>> {
    Seq::new(v.len(), |i: int| v[i]@)
}

/// A path held as plain components: a root marker when the path is absolute
/// (`b"/"` on slash-separated platforms, a volume prefix such as `b"c:\\"`
/// elsewhere) and the component byte strings after it, in order.
#[derive(Debug, PartialEq, Eq)]
pub struct FsPath {
    pub root: Option<Vec<u8>>,
    pub segments: Vec<Vec<u8>>,
}

impl View for FsPath {
    type V = PathView;

    open spec fn view(&self) -> PathView {
        PathView {
            root: match self.root {
                Some(m) => Some(m@),
                None => None,
            },
            segments: seg_views(self.segments@),
        }
    }
}

/// The empty path: no root and no components.
pub open spec fn empty_path_view() -> PathView {
    PathView { root: None, segments: Seq::empty() }
}

impl FsPath {
    /// True when the path is absolute, that is, carries a root marker.
    pub fn is_absolute(&self) -> (r: bool)
        ensures
            r == (self@.root is Some),
    {
        self.root.is_some()
    }

    /// True when the path is the empty path.
    pub fn is_empty_path(&self) -> (r: bool)
        ensures
            r == (self@ == empty_path_view()),
    {
        let r = self.root.is_none() && self.segments.len() == 0;
        proof {
            if r {
                assert(self@ =~~= empty_path_view());
            } else if self.root is Some {
                assert(self@.root is Some);
            } else {
                assert(self@.segments.len() == self.segments@.len());
            }
        }
        r
    }
}

pub(crate) fn clone_bytes(v: &Vec<u8>) -> (r: Vec<u8>)
    ensures
        r@ == v@,
{
    let r = v.clone();
    proof {
        assert(r@ =~= v@);
    }
    r
}

pub(crate) fn clone_segments(v: &Vec<Vec<u8>>) -> (r: Vec<Vec<u8>>)
    ensures
        seg_views(r@) == seg_views(v@),
{
    let mut r: Vec<Vec<u8>> = Vec::new();
    let mut i: usize = 0;
    while i < v.len()
        invariant
            i <= v.len(),
            r@.len() == i,
            forall|j: int| 0 <= j < i ==> r@[j]@ == v@[j]@,
        decreases v.len() - i,
    {
        r.push(clone_bytes(&v[i]));
        i = i + 1;
    }
    proof {
        assert(seg_views(r@) =~~= seg_views(v@));
    }
    r
}

impl Clone for FsPath {
    fn clone(&self) -> (r: Self)
        ensures
            r@ == self@,
    {
        let root = match &self.root {
            Some(m) => Some(clone_bytes(m)),
            None => None,
        };
        let r = FsPath { root, segments: clone_segments(&self.segments) };
        proof {
            assert(r@ =~~= self@);
        }
        r
    }
}

/// True when the two paths have the same components.
pub fn path_eq(a: &FsPath, b: &FsPath) -> (r: bool)
    ensures
        r == (a@ == b@),
{
    let roots_match = match (&a.root, &b.root) {
        (Some(x), Some(y)) => x == y,
        (None, None) => true,
        _ => false,
    };
    if !roots_match {
        return false;
    }
    if a.segments.len() != b.segments.len() {
        proof {
            assert(a@.segments.len() != b@.segments.len());
        }
        return false;
    }
    let mut i: usize = 0;
    while i < a.segments.len()
        invariant
            i <= a.segments.len(),
            a.segments.len() == b.segments.len(),
            a@.root == b@.root,
            forall|j: int| 0 <= j < i ==> a@.segments[j] == b@.segments[j],
        decreases a.segments.len() - i,
    {
        if !(a.segments[i] == b.segments[i]) {
            proof {
                assert(a@.segments[i as int] != b@.segments[i as int]);
            }
            return false;
        }
        i = i + 1;
    }
    proof {
        assert(a@ =~~= b@);
    }
    true
}

/// The separator byte of slash-separated path text.
pub open spec fn sep_byte() -> u8 {
    47u8
}

/// The byte string of a current-directory component.
pub open spec fn dot_seg() -> Seq<u8> {
    seq![46u8]
}

/// Path text split at every separator, with nothing dropped: splitting the
/// empty text gives one empty piece, and each separator ends a piece.
pub open spec fn raw_split(s: Seq<u8>) -> Seq<Seq<u8>>
    decreases s.len(),
{
    if s.len() <= 0 {
        seq![Seq::<u8>::empty()]
    } else if s[0] == sep_byte() {
        seq![Seq::<u8>::empty()] + raw_split(s.skip(1))
    } else {
        let rest = raw_split(s.skip(1));
        seq![seq![s[0]] + rest[0]] + rest.skip(1)
    }
}

/// True of the pieces that are path components: empty pieces, which separators
/// leave behind, and current-directory components are not.
pub open spec fn keep_seg(g: Seq<u8>) -> bool {
    g.len() > 0 && g != dot_seg()
}

/// The pieces that are path components, in order.
pub open spec fn cleaned(raw: Seq<Seq<u8>>) -> Seq<Seq<u8>>
    decreases raw.len(),
{
    if raw.len() <= 0 {
        Seq::empty()
    } else if keep_seg(raw[0]) {
        seq![raw[0]] + cleaned(raw.skip(1))
    } else {
        cleaned(raw.skip(1))
    }
}

/// The path that slash-separated path text denotes: absolute exactly when the
/// text begins with a separator, with empty and current-directory components
/// normalized away and everything else, parent components included, kept.
pub open spec fn parse_spec(s: Seq<u8>) -> PathView {
    if s.len() > 0 && s[0] == sep_byte() {
        PathView { root: Some(seq![sep_byte()]), segments: cleaned(raw_split(s.skip(1))) }
    } else {
        PathView { root: None, segments: cleaned(raw_split(s)) }
    }
}

/// Every component that cleaning keeps is nonempty and is not the
/// current-directory component.
pub proof fn lemma_cleaned_segments(raw: Seq<Seq<u8>>)
    ensures
        forall|i: int| 0 <= i < cleaned(raw).len() ==> keep_seg(#[trigger] cleaned(raw)[i]),
    decreases raw.len(),
{
    if raw.len() > 0 {
        lemma_cleaned_segments(raw.skip(1));
        if keep_seg(raw[0]) {
            assert forall|i: int| 0 <= i < cleaned(raw).len() implies keep_seg(
                #[trigger] cleaned(raw)[i],
            ) by {
                if i > 0 {
                    assert(cleaned(raw)[i] == cleaned(raw.skip(1))[i - 1]);
                }
            }
        }
    }
}

fn raw_split_exec(text: &Vec<u8>, from: usize) -> (r: Vec<Vec<u8>>)
    requires
        from <= text@.len(),
    ensures
        seg_views(r@) == raw_split(text@.skip(from as int)),
        r@.len() >= 1,
    decreases text@.len() - from,
{
    if from == text.len() {
        let mut r: Vec<Vec<u8>> = Vec::new();
        r.push(Vec::new());
        proof {
            assert(text@.skip(from as int).len() == 0);
            assert(seg_views(r@) =~~= raw_split(text@.skip(from as int)));
        }
        r
    } else {
        let mut r = raw_split_exec(text, from + 1);
        proof {
            assert(text@.skip(from as int).skip(1) =~= text@.skip(from as int + 1));
            assert(text@.skip(from as int)[0] == text@[from as int]);
        }
        if text[from] == 47u8 {
            r.insert(0, Vec::new());
            proof {
                assert(seg_views(r@) =~~= raw_split(text@.skip(from as int)));
            }
        } else {
            let mut first = r.remove(0);
            first.insert(0, text[from]);
            r.insert(0, first);
            proof {
                assert(seg_views(r@) =~~= raw_split(text@.skip(from as int)));
            }
        }
        r
    }
}

fn keep_seg_exec(g: &Vec<u8>) -> (r: bool)
    ensures
        r == keep_seg(g@),
{
    if g.len() == 0 {
        false
    } else if g.len() == 1 && g[0] == 46u8 {
        proof {
            assert(g@ =~= dot_seg());
        }
        false
    } else {
        proof {
            if g@.len() == 1 {
                assert(g@[0] != dot_seg()[0]);
            }
        }
        true
    }
}

fn cleaned_exec(raw: Vec<Vec<u8>>) -> (r: Vec<Vec<u8>>)
    ensures
        seg_views(r@) == cleaned(seg_views(raw@)),
{
    let mut r: Vec<Vec<u8>> = Vec::new();
    let mut rest = raw;
    let ghost whole = seg_views(rest@);
    proof {
        assert(cleaned(whole) =~~= seg_views(r@) + cleaned(seg_views(rest@)));
    }
    while rest.len() > 0
        invariant
            cleaned(whole) == seg_views(r@) + cleaned(seg_views(rest@)),
        decreases rest@.len(),
    {
        let ghost prev = seg_views(rest@);
        let ghost kept = seg_views(r@);
        let g = rest.remove(0);
        proof {
            assert(prev[0] == g@);
            assert(prev.skip(1) =~~= seg_views(rest@));
        }
        if keep_seg_exec(&g) {
            proof {
                assert(cleaned(prev) =~~= seq![g@] + cleaned(seg_views(rest@)));
            }
            r.push(g);
            proof {
                assert(seg_views(r@) =~~= kept + seq![g@]);
                assert(cleaned(whole) =~~= seg_views(r@) + cleaned(seg_views(rest@)));
            }
        } else {
            proof {
                assert(cleaned(prev) =~~= cleaned(seg_views(rest@)));
            }
        }
    }
    proof {
        assert(seg_views(rest@).len() == 0);
        assert(cleaned(seg_views(rest@)) =~~= Seq::<Seq<u8>>::empty());
        assert(seg_views(r@) =~~= seg_views(r@) + cleaned(seg_views(rest@)));
    }
    r
}

/// The path that the given slash-separated text names. Empty components and
/// current-directory components are normalized away, as platform path
/// iteration does; parent components are kept, to be seen by the
/// relativization rules.
pub fn parse(text: &Vec<u8>) -> (r: FsPath)
    ensures
        r@ == parse_spec(text@),
{
    if text.len() > 0 && text[0] == 47u8 {
        let raw = raw_split_exec(text, 1);
        let segments = cleaned_exec(raw);
        let mut marker: Vec<u8> = Vec::new();
        marker.push(47u8);
        let r = FsPath { root: Some(marker), segments };
        proof {
            assert(r@ =~~= parse_spec(text@));
        }
        r
    } else {
        let raw = raw_split_exec(text, 0);
        proof {
            assert(text@.skip(0) =~= text@);
        }
        let r = FsPath { root: None, segments: cleaned_exec(raw) };
        proof {
            assert(r@ =~~= parse_spec(text@));
        }
        r
    }
}

} // verus!
