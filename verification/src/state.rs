use vstd::prelude::*;

use crate::error::{ErrorView, FsError, FsErrorKind};
use crate::path::{clone_bytes, path_eq, FsPath, PathView};

verus! {

/// What a symbolic link points at, as recorded when the link was made or
/// observed: a file, a directory, or nothing that can be found.
#[derive(Debug, Clone, Copy, PartialEq, Eq, Structural)]
pub enum LinkKind {
    ToFile,
    ToDir,
    Dangling,
}

/// A node of the filesystem state: a regular file with its content, a
/// directory, or a symbolic link carrying the target written into it.
#[derive(Debug, Clone, PartialEq, Eq)]
pub enum FsNode {
    File { content: Vec<u8> },
    Dir,
    Link { target: FsPath, kind: LinkKind },
}

/// Mathematical value of a node.
#[verifier::ext_equal]
pub enum NodeView {
    File { content: Seq<u8> },
    Dir,
    Link { target: PathView, kind: LinkKind },
}

impl View for FsNode {
    type V = NodeView;

    open spec fn view(&self) -> NodeView {
        match self {
            FsNode::File { content } => NodeView::File { content: content@ },
            FsNode::Dir => NodeView::Dir,
            FsNode::Link { target, kind } => NodeView::Link { target: target@, kind: *kind },
        }
    }
}

/// The node a path names, scanning the entries front to back: the first entry
/// whose path matches decides.
pub open spec fn node_of(es: Seq<(FsPath, FsNode)>, q: PathView) -> Option<NodeView>
    decreases es.len(),
{
    if es.len() == 0 {
        None
    } else if es[0].0@ == q {
        Some(es[0].1@)
    } else {
        node_of(es.skip(1), q)
    }
}

/// Whether a path stands in the denied list.
pub open spec fn denied_in(ds: Seq<FsPath>, q: PathView) -> bool {
    exists|i: int| 0 <= i < ds.len() && ds[i]@ == q
}

/// The parent of a path: the path with its last component dropped.
pub open spec fn parent_view(p: PathView) -> PathView {
    PathView { root: p.root, segments: p.segments.drop_last() }
}

/// True when `q` lies at or under `p`: same root, and `p`'s components lead
/// `q`'s. Every path lies under itself.
pub open spec fn within(q: PathView, p: PathView) -> bool {
    &&& q.root == p.root
    &&& p.segments.len() <= q.segments.len()
    &&& forall|i: int| 0 <= i < p.segments.len() ==> q.segments[i] == p.segments[i]
}

/// The path's prefix of the given component count.
pub open spec fn prefix_at(p: PathView, j: int) -> PathView {
    PathView { root: p.root, segments: p.segments.take(j) }
}

/// A filesystem as a value: the nodes that exist, and the paths at which the
/// platform denies mutation and content reads. Entries are kept path by
/// path; the hierarchy shows in the operations, which reach a path's parent
/// chain for directory creation and a path's whole subtree for directory
/// removal.
#[derive(Debug, Clone, PartialEq, Eq)]
pub struct Fs {
    pub entries: Vec<(FsPath, FsNode)>,
    pub denied: Vec<FsPath>,
}

proof fn lemma_node_of_skip_clean(es: Seq<(FsPath, FsNode)>, q: PathView, i: int)
    requires
        0 <= i <= es.len(),
        forall|j: int| 0 <= j < i ==> es[j].0@ != q,
    ensures
        node_of(es, q) == node_of(es.skip(i), q),
    decreases i,
{
    if i == 0 {
        assert(es.skip(0) =~= es);
    } else {
        assert(es[0].0@ != q);
        assert forall|j: int| 0 <= j < i - 1 implies es.skip(1)[j].0@ != q by {
            assert(es.skip(1)[j] == es[j + 1]);
        }
        lemma_node_of_skip_clean(es.skip(1), q, i - 1);
        assert(es.skip(1).skip(i - 1) =~= es.skip(i));
    }
}

proof fn lemma_node_of_push(es: Seq<(FsPath, FsNode)>, e: (FsPath, FsNode), q: PathView)
    ensures
        node_of(es.push(e), q) == if node_of(es, q) is Some {
            node_of(es, q)
        } else if e.0@ == q {
            Some(e.1@)
        } else {
            None
        },
    decreases es.len(),
{
    if es.len() == 0 {
        assert(es.push(e).len() == 1);
        assert(es.push(e)[0] == e);
        assert(es.push(e).skip(1) =~= Seq::<(FsPath, FsNode)>::empty());
        assert(node_of(Seq::<(FsPath, FsNode)>::empty(), q) is None);
        assert(node_of(es, q) is None);
        if e.0@ == q {
            assert(node_of(es.push(e), q) == Some(e.1@));
        } else {
            assert(node_of(es.push(e), q) == node_of(es.push(e).skip(1), q));
        }
    } else {
        lemma_node_of_push(es.skip(1), e, q);
        assert(es.push(e)[0] == es[0]);
        assert(es.push(e).skip(1) =~= es.skip(1).push(e));
        if es[0].0@ == q {
            assert(node_of(es.push(e), q) == Some(es[0].1@));
            assert(node_of(es, q) == Some(es[0].1@));
        } else {
            assert(node_of(es, q) == node_of(es.skip(1), q));
            assert(node_of(es.push(e), q) == node_of(es.skip(1).push(e), q));
        }
    }
}

proof fn lemma_node_of_remove_idx(es: Seq<(FsPath, FsNode)>, i: int, q: PathView)
    requires
        0 <= i < es.len(),
        es[i].0@ != q,
    ensures
        node_of(es.remove(i), q) == node_of(es, q),
    decreases i,
{
    if i == 0 {
        assert(es.remove(0) =~= es.skip(1));
    } else {
        lemma_node_of_remove_idx(es.skip(1), i - 1, q);
        assert(es.remove(i)[0] == es[0]);
        assert(es.remove(i).skip(1) =~= es.skip(1).remove(i - 1));
    }
}

/// True when `q` lies at or under `p`.
pub fn is_within(q: &FsPath, p: &FsPath) -> (r: bool)
    ensures
        r == within(q@, p@),
{
    let roots_match = match (&q.root, &p.root) {
        (Some(x), Some(y)) => {
            let e = *x == *y;
            proof {
                if e {
                    assert(x@ =~= y@);
                }
            }
            e
        },
        (None, None) => true,
        _ => false,
    };
    if !roots_match {
        return false;
    }
    if q.segments.len() < p.segments.len() {
        return false;
    }
    let mut i: usize = 0;
    while i < p.segments.len()
        invariant
            i <= p.segments.len() <= q.segments.len(),
            q@.root == p@.root,
            forall|j: int| 0 <= j < i ==> q@.segments[j] == p@.segments[j],
        decreases p.segments.len() - i,
    {
        if !(q.segments[i] == p.segments[i]) {
            proof {
                assert(q@.segments[i as int] != p@.segments[i as int]);
            }
            return false;
        }
        i = i + 1;
    }
    true
}

/// The path's prefix of the given component count.
pub fn prefix_of(path: &FsPath, j: usize) -> (r: FsPath)
    requires
        j <= path@.segments.len(),
    ensures
        r@ == prefix_at(path@, j as int),
{
    let mut r = path.clone();
    r.segments.truncate(j);
    proof {
        assert(r@ =~~= prefix_at(path@, j as int));
    }
    r
}

impl Fs {
    /// The node at a path.
    pub open spec fn node(self, q: PathView) -> Option<NodeView> {
        node_of(self.entries@, q)
    }

    /// True when the platform denies operations at the path.
    pub open spec fn is_denied(self, q: PathView) -> bool {
        denied_in(self.denied@, q)
    }

    /// A filesystem with no nodes and nothing denied.
    pub fn new() -> (r: Fs)
        ensures
            forall|q: PathView| r.node(q) is None,
            forall|q: PathView| !r.is_denied(q),
    {
        Fs { entries: Vec::new(), denied: Vec::new() }
    }

    /// A borrow of the node at a path, if one exists.
    pub fn lookup(&self, path: &FsPath) -> (r: Option<&FsNode>)
        ensures
            match r {
                Some(n) => self.node(path@) == Some(n@),
                None => self.node(path@) is None,
            },
    {
        let mut i: usize = 0;
        while i < self.entries.len()
            invariant
                i <= self.entries.len(),
                forall|j: int| 0 <= j < i ==> self.entries@[j].0@ != path@,
            decreases self.entries.len() - i,
        {
            let e = &self.entries[i];
            if path_eq(&e.0, path) {
                proof {
                    lemma_node_of_skip_clean(self.entries@, path@, i as int);
                    assert(self.entries@.skip(i as int)[0] == self.entries@[i as int]);
                }
                return Some(&e.1);
            }
            i = i + 1;
        }
        proof {
            lemma_node_of_skip_clean(self.entries@, path@, self.entries@.len() as int);
        }
        None
    }

    /// True when a node exists at the path.
    pub fn exists_at(&self, path: &FsPath) -> (r: bool)
        ensures
            r == (self.node(path@) is Some),
    {
        self.lookup(path).is_some()
    }

    /// True when the platform denies operations at the path.
    pub fn is_denied_at(&self, path: &FsPath) -> (r: bool)
        ensures
            r == self.is_denied(path@),
    {
        let mut i: usize = 0;
        while i < self.denied.len()
            invariant
                i <= self.denied.len(),
                forall|j: int| 0 <= j < i ==> self.denied@[j]@ != path@,
            decreases self.denied.len() - i,
        {
            if path_eq(&self.denied[i], path) {
                return true;
            }
            i = i + 1;
        }
        false
    }

    /// Removes every entry at the path. The platform boundary proper never
    /// calls this bare step: removal goes through the classification of
    /// `best_effort_remove`.
    pub fn drop_node(&mut self, path: &FsPath)
        ensures
            final(self).node(path@) is None,
            forall|q: PathView| q != path@ ==> final(self).node(q) == old(self).node(q),
            final(self).denied == old(self).denied,
    {
        let mut i: usize = 0;
        while i < self.entries.len()
            invariant
                i <= self.entries.len(),
                forall|j: int| 0 <= j < i ==> self.entries@[j].0@ != path@,
                forall|q: PathView|
                    q != path@ ==> node_of(self.entries@, q) == node_of(old(self).entries@, q),
                self.denied == old(self).denied,
            decreases self.entries.len() - i,
        {
            if path_eq(&self.entries[i].0, path) {
                let ghost es0 = self.entries@;
                let _ = self.entries.remove(i);
                proof {
                    assert forall|q: PathView|
                        q != path@ implies node_of(self.entries@, q) == node_of(
                        old(self).entries@,
                        q,
                    ) by {
                        lemma_node_of_remove_idx(es0, i as int, q);
                    }
                }
            } else {
                i = i + 1;
            }
        }
        proof {
            lemma_node_of_skip_clean(self.entries@, path@, self.entries@.len() as int);
        }
    }

    /// Puts the given node at the path, replacing whatever was there.
    pub fn put_node(&mut self, path: &FsPath, node: FsNode)
        ensures
            final(self).node(path@) == Some(node@),
            forall|q: PathView| q != path@ ==> final(self).node(q) == old(self).node(q),
            final(self).denied == old(self).denied,
    {
        self.drop_node(path);
        let ghost es1 = self.entries@;
        let entry = (path.clone(), node);
        proof {
            assert(entry.1@ == node@);
        }
        self.entries.push(entry);
        proof {
            assert forall|q: PathView| #[trigger]
                node_of(self.entries@, q) == if q == path@ {
                    Some(node@)
                } else {
                    node_of(es1, q)
                } by {
                lemma_node_of_push(es1, entry, q);
            }
        }
    }

    /// Removes every entry at or under the path.
    fn drop_subtree(&mut self, path: &FsPath)
        ensures
            forall|q: PathView| within(q, path@) ==> final(self).node(q) is None,
            forall|q: PathView| !within(q, path@) ==> final(self).node(q) == old(self).node(q),
            final(self).denied == old(self).denied,
    {
        let mut i: usize = 0;
        while i < self.entries.len()
            invariant
                i <= self.entries.len(),
                forall|j: int| 0 <= j < i ==> !within(self.entries@[j].0@, path@),
                forall|q: PathView|
                    !within(q, path@) ==> node_of(self.entries@, q) == node_of(
                        old(self).entries@,
                        q,
                    ),
                self.denied == old(self).denied,
            decreases self.entries.len() - i,
        {
            if is_within(&self.entries[i].0, path) {
                let ghost es0 = self.entries@;
                let _ = self.entries.remove(i);
                proof {
                    assert forall|q: PathView|
                        !within(q, path@) implies node_of(self.entries@, q) == node_of(
                        old(self).entries@,
                        q,
                    ) by {
                        assert(es0[i as int].0@ != q);
                        lemma_node_of_remove_idx(es0, i as int, q);
                    }
                }
            } else {
                i = i + 1;
            }
        }
        proof {
            assert forall|q: PathView| within(q, path@) implies node_of(self.entries@, q)
                is None by {
                assert forall|j: int|
                    0 <= j < self.entries@.len() implies self.entries@[j].0@ != q by {
                    if self.entries@[j].0@ == q {
                        assert(within(self.entries@[j].0@, path@));
                    }
                }
                lemma_node_of_skip_clean(self.entries@, q, self.entries@.len() as int);
            }
        }
    }
}

/// True when the prefix of the given count is denied or occupied by
/// something other than a directory, which stops recursive directory
/// creation there.
pub open spec fn bad_prefix(fs0: Fs, p: PathView, j: int) -> bool {
    fs0.is_denied(prefix_at(p, j)) || blocks_dir(fs0.node(prefix_at(p, j)))
}

/// True when recursive directory creation at the path goes through: no
/// prefix of the path, from the bare root to the path itself, is denied or
/// occupied by something other than a directory.
pub open spec fn dir_chain_ok(fs0: Fs, p: PathView) -> bool {
    forall|j: int| 0 <= j <= p.segments.len() ==> !bad_prefix(fs0, p, j)
}

/// The count of the shortest prefix that stops directory creation, looking
/// from the given count on; one past the path's own count when none does.
pub open spec fn first_bad(fs0: Fs, p: PathView, j: int) -> int
    decreases p.segments.len() + 1 - j,
{
    if j > p.segments.len() {
        j
    } else if bad_prefix(fs0, p, j) {
        j
    } else {
        first_bad(fs0, p, j + 1)
    }
}

/// The failure recursive directory creation reports: at the shortest prefix
/// that stops it, denial before occupancy.
pub open spec fn dir_chain_failure(fs0: Fs, p: PathView) -> ErrorView {
    let j = first_bad(fs0, p, 0);
    ErrorView {
        kind: if fs0.is_denied(prefix_at(p, j)) {
            FsErrorKind::PermissionDenied
        } else {
            FsErrorKind::Invalid
        },
        at: prefix_at(p, j),
    }
}

proof fn lemma_first_bad_skip(fs0: Fs, p: PathView, j: int)
    requires
        0 <= j <= p.segments.len() + 1,
        forall|i: int| 0 <= i < j ==> !bad_prefix(fs0, p, i),
    ensures
        first_bad(fs0, p, 0) == first_bad(fs0, p, j),
    decreases j,
{
    if j > 0 {
        lemma_first_bad_skip(fs0, p, j - 1);
        assert(!bad_prefix(fs0, p, j - 1));
    }
}

/// The parent of a path: the path with its last component dropped.
pub fn parent_of(path: &FsPath) -> (r: FsPath)
    requires
        path@.segments.len() >= 1,
    ensures
        r@ == parent_view(path@),
        r@.segments.len() < usize::MAX,
{
    let whole = path.segments.len();
    let mut r = path.clone();
    let _ = r.segments.pop();
    proof {
        assert(r@ =~~= parent_view(path@));
        assert(r@.segments.len() == whole - 1);
    }
    r
}

/// The content at the path, when a regular file holds one.
pub open spec fn file_content(n: Option<NodeView>) -> Option<Seq<u8>> {
    match n {
        Some(NodeView::File { content }) => Some(content),
        _ => None,
    }
}

/// True when something other than a directory occupies the path, which blocks
/// directory creation there.
pub open spec fn blocks_dir(n: Option<NodeView>) -> bool {
    match n {
        Some(NodeView::Dir) => false,
        Some(_) => true,
        None => false,
    }
}

/// True when the file-removal primitive removes the node: a regular file, or
/// a link, except that a platform with typed links refuses a link to a
/// directory there.
pub open spec fn file_removable(n: NodeView, typed_links: bool) -> bool {
    match n {
        NodeView::File { .. } => true,
        NodeView::Dir => false,
        NodeView::Link { kind, .. } => !(typed_links && kind == LinkKind::ToDir),
    }
}

/// True when the directory-removal primitive removes the node: a directory,
/// or, on a platform with typed links, a link to a directory.
pub open spec fn dir_removable(n: NodeView, typed_links: bool) -> bool {
    match n {
        NodeView::Dir => true,
        NodeView::Link { kind, .. } => typed_links && kind == LinkKind::ToDir,
        NodeView::File { .. } => false,
    }
}

/// What following metadata reports at a node: whether it is a directory, with
/// links classified by what they point at, and nothing for an absent node or
/// a dangling link.
pub open spec fn follow_stat(n: Option<NodeView>) -> Option<bool> {
    match n {
        None => None,
        Some(NodeView::File { .. }) => Some(false),
        Some(NodeView::Dir) => Some(true),
        Some(NodeView::Link { kind, .. }) => match kind {
            LinkKind::ToFile => Some(false),
            LinkKind::ToDir => Some(true),
            LinkKind::Dangling => None,
        },
    }
}

/// What non-following metadata reports at a node: whether it is a directory,
/// with every link counting as a non-directory, and nothing for an absent
/// node.
pub open spec fn nofollow_stat(n: Option<NodeView>) -> Option<bool> {
    match n {
        None => None,
        Some(NodeView::Dir) => Some(true),
        Some(_) => Some(false),
    }
}

/// The failure a write at the path would report.
pub open spec fn write_fail_kind(fs0: Fs, p: PathView) -> FsErrorKind {
    if fs0.is_denied(p) {
        FsErrorKind::PermissionDenied
    } else if p.segments.len() < 1 || fs0.node(parent_view(p)) != Some(NodeView::Dir) {
        FsErrorKind::NotFound
    } else {
        FsErrorKind::Invalid
    }
}

/// The failure a link creation at the path would report.
pub open spec fn link_fail_kind(fs0: Fs, p: PathView) -> FsErrorKind {
    if fs0.node(p) is Some {
        FsErrorKind::AlreadyExists
    } else if fs0.is_denied(p) {
        FsErrorKind::PermissionDenied
    } else {
        FsErrorKind::NotFound
    }
}

impl Fs {
    /// True when a write at the path goes through: the path is not denied,
    /// names a component under its parent, that parent is a directory, and no
    /// directory occupies the path itself.
    pub open spec fn can_write_at(self, p: PathView) -> bool {
        &&& !self.is_denied(p)
        &&& p.segments.len() >= 1
        &&& self.node(parent_view(p)) == Some(NodeView::Dir)
        &&& self.node(p) != Some(NodeView::Dir)
    }

    /// The content at the path, as the platform read primitive reports it:
    /// only a regular file at an undenied path can be read.
    pub fn read_file(&self, path: &FsPath) -> (r: Result<Vec<u8>, FsError>)
        ensures
            r is Ok <==> (!self.is_denied(path@) && file_content(self.node(path@)) is Some),
            r matches Ok(c) ==> Some(c@) == file_content(self.node(path@)),
            r matches Err(e) ==> e@.at == path@,
    {
        if self.is_denied_at(path) {
            return Err(FsError { kind: FsErrorKind::PermissionDenied, at: path.clone() });
        }
        match self.lookup(path) {
            Some(FsNode::File { content }) => Ok(clone_bytes(content)),
            Some(_) => Err(FsError { kind: FsErrorKind::Invalid, at: path.clone() }),
            None => Err(FsError { kind: FsErrorKind::NotFound, at: path.clone() }),
        }
    }

    /// Whether the node the path leads to, links followed, is a directory:
    /// nothing for an absent node or a dangling link.
    pub fn stat_follow(&self, path: &FsPath) -> (r: Option<bool>)
        ensures
            r == follow_stat(self.node(path@)),
    {
        match self.lookup(path) {
            None => None,
            Some(FsNode::File { .. }) => Some(false),
            Some(FsNode::Dir) => Some(true),
            Some(FsNode::Link { kind, .. }) => match kind {
                LinkKind::ToFile => Some(false),
                LinkKind::ToDir => Some(true),
                LinkKind::Dangling => None,
            },
        }
    }

    /// Whether the node at the path itself, links not followed, is a
    /// directory: nothing for an absent node.
    pub fn stat_nofollow(&self, path: &FsPath) -> (r: Option<bool>)
        ensures
            r == nofollow_stat(self.node(path@)),
    {
        match self.lookup(path) {
            None => None,
            Some(FsNode::Dir) => Some(true),
            Some(_) => Some(false),
        }
    }

    /// Ensures a directory stands at the path, as the recursive
    /// directory-creation primitive would: every prefix of the path, from
    /// the bare root to the path itself, is made a directory where absent. A
    /// denied prefix, or one occupied by something other than a directory,
    /// stops the whole operation before anything is made, and the failure
    /// names the shortest such prefix.
    pub fn create_dir_all(&mut self, path: &FsPath) -> (r: Result<(), FsError>)
        requires
            path@.segments.len() < usize::MAX,
        ensures
            final(self).denied == old(self).denied,
            forall|q: PathView| !within(path@, q) ==> final(self).node(q) == old(self).node(q),
            r is Ok <==> dir_chain_ok(*old(self), path@),
            r is Ok ==> forall|j: int|
                0 <= j <= path@.segments.len() ==> final(self).node(prefix_at(path@, j)) == Some(
                    NodeView::Dir,
                ),
            r is Ok ==> final(self).node(path@) == Some(NodeView::Dir),
            r is Err ==> *final(self) == *old(self),
            r matches Err(e) ==> e@ == dir_chain_failure(*old(self), path@),
    {
        let mut j: usize = 0;
        while j <= path.segments.len()
            invariant
                path@.segments.len() < usize::MAX,
                j <= path@.segments.len() + 1,
                forall|i: int| 0 <= i < j ==> !bad_prefix(*self, path@, i),
            decreases path@.segments.len() + 1 - j,
        {
            let prefix = prefix_of(path, j);
            let denied = self.is_denied_at(&prefix);
            let blocked = match self.lookup(&prefix) {
                Some(FsNode::Dir) => false,
                Some(_) => true,
                None => false,
            };
            if denied || blocked {
                proof {
                    assert(bad_prefix(*self, path@, j as int));
                    lemma_first_bad_skip(*self, path@, j as int);
                    assert(first_bad(*self, path@, 0) == j as int);
                }
                let kind = if denied {
                    FsErrorKind::PermissionDenied
                } else {
                    FsErrorKind::Invalid
                };
                return Err(FsError { kind, at: prefix });
            }
            j = j + 1;
        }
        proof {
            assert(dir_chain_ok(*self, path@));
        }
        let mut m: usize = 0;
        while m <= path.segments.len()
            invariant
                path@.segments.len() < usize::MAX,
                m <= path@.segments.len() + 1,
                dir_chain_ok(*old(self), path@),
                self.denied == old(self).denied,
                forall|q: PathView| !within(path@, q) ==> self.node(q) == old(self).node(q),
                forall|i: int|
                    0 <= i < m ==> self.node(prefix_at(path@, i)) == Some(NodeView::Dir),
                forall|i: int|
                    m <= i <= path@.segments.len() ==> self.node(prefix_at(path@, i)) == old(
                        self,
                    ).node(prefix_at(path@, i)),
            decreases path@.segments.len() + 1 - m,
        {
            let prefix = prefix_of(path, m);
            proof {
                assert(within(path@, prefix_at(path@, m as int)));
                assert forall|i: int|
                    0 <= i <= path@.segments.len() && i != m implies prefix_at(path@, i)
                    != prefix_at(path@, m as int) by {
                    assert(prefix_at(path@, i).segments.len() == i);
                }
            }
            let make = match self.lookup(&prefix) {
                None => true,
                Some(FsNode::Dir) => false,
                Some(_) => {
                    proof {
                        assert(bad_prefix(*old(self), path@, m as int));
                    }
                    false
                },
            };
            if make {
                self.put_node(&prefix, FsNode::Dir);
            }
            m = m + 1;
        }
        proof {
            assert(prefix_at(path@, path@.segments.len() as int) =~~= path@);
        }
        Ok(())
    }

    /// Writes content at the path, as the platform write primitive would: the
    /// parent must already be a directory, and a directory at the path itself
    /// is not overwritten.
    pub fn write_file(&mut self, path: &FsPath, content: &Vec<u8>) -> (r: Result<(), FsError>)
        ensures
            final(self).denied == old(self).denied,
            forall|q: PathView| q != path@ ==> final(self).node(q) == old(self).node(q),
            r is Ok <==> old(self).can_write_at(path@),
            r is Ok ==> final(self).node(path@) == Some(NodeView::File { content: content@ }),
            r is Err ==> *final(self) == *old(self),
            r matches Err(e) ==> e@.at == path@ && e@.kind == write_fail_kind(*old(self), path@),
    {
        if self.is_denied_at(path) {
            return Err(FsError { kind: FsErrorKind::PermissionDenied, at: path.clone() });
        }
        if path.segments.len() == 0 {
            return Err(FsError { kind: FsErrorKind::NotFound, at: path.clone() });
        }
        let par = parent_of(path);
        let parent_is_dir = match self.lookup(&par) {
            Some(FsNode::Dir) => true,
            _ => false,
        };
        if !parent_is_dir {
            return Err(FsError { kind: FsErrorKind::NotFound, at: path.clone() });
        }
        let self_is_dir = match self.lookup(path) {
            Some(FsNode::Dir) => true,
            _ => false,
        };
        if self_is_dir {
            return Err(FsError { kind: FsErrorKind::Invalid, at: path.clone() });
        }
        self.put_node(path, FsNode::File { content: clone_bytes(content) });
        Ok(())
    }

    /// Creates a symbolic link at the path, as the platform link primitive
    /// would: it refuses, with an already-exists failure, when anything
    /// occupies the path, and records the target and the kind the creator
    /// declared.
    pub fn make_link(&mut self, target: &FsPath, path: &FsPath, to_dir: bool) -> (r: Result<
        (),
        FsError,
    >)
        ensures
            final(self).denied == old(self).denied,
            forall|q: PathView| q != path@ ==> final(self).node(q) == old(self).node(q),
            r is Ok <==> (old(self).node(path@) is None && !old(self).is_denied(path@)
                && path@.segments.len() >= 1 && old(self).node(parent_view(path@)) == Some(
                NodeView::Dir,
            )),
            r is Ok ==> final(self).node(path@) == Some(
                NodeView::Link {
                    target: target@,
                    kind: if to_dir {
                        LinkKind::ToDir
                    } else {
                        LinkKind::ToFile
                    },
                },
            ),
            r is Err ==> *final(self) == *old(self),
            r matches Err(e) ==> e@.at == path@ && e@.kind == link_fail_kind(*old(self), path@),
    {
        if self.exists_at(path) {
            return Err(FsError { kind: FsErrorKind::AlreadyExists, at: path.clone() });
        }
        if self.is_denied_at(path) {
            return Err(FsError { kind: FsErrorKind::PermissionDenied, at: path.clone() });
        }
        if path.segments.len() == 0 {
            return Err(FsError { kind: FsErrorKind::NotFound, at: path.clone() });
        }
        let par = parent_of(path);
        let parent_is_dir = match self.lookup(&par) {
            Some(FsNode::Dir) => true,
            _ => false,
        };
        if !parent_is_dir {
            return Err(FsError { kind: FsErrorKind::NotFound, at: path.clone() });
        }
        let kind = if to_dir {
            LinkKind::ToDir
        } else {
            LinkKind::ToFile
        };
        self.put_node(path, FsNode::Link { target: target.clone(), kind });
        Ok(())
    }

    /// Removes the node at the path as the platform file-removal primitive
    /// would: directories are refused; on a platform with typed links a link
    /// to a directory is refused too, elsewhere every link is removed here.
    pub fn remove_file(&mut self, path: &FsPath, typed_links: bool) -> (r: Result<(), FsError>)
        ensures
            final(self).denied == old(self).denied,
            forall|q: PathView| q != path@ ==> final(self).node(q) == old(self).node(q),
            r is Ok <==> (!old(self).is_denied(path@) && (old(self).node(path@) matches Some(n)
                && file_removable(n, typed_links))),
            r is Ok ==> final(self).node(path@) is None,
            r is Err ==> *final(self) == *old(self),
            r matches Err(e) ==> e@.at == path@,
    {
        if self.is_denied_at(path) {
            return Err(FsError { kind: FsErrorKind::PermissionDenied, at: path.clone() });
        }
        let verdict = match self.lookup(path) {
            None => 0u8,
            Some(FsNode::File { .. }) => 1u8,
            Some(FsNode::Dir) => 2u8,
            Some(FsNode::Link { kind, .. }) => {
                if typed_links && *kind == LinkKind::ToDir {
                    3u8
                } else {
                    1u8
                }
            },
        };
        if verdict == 0 {
            Err(FsError { kind: FsErrorKind::NotFound, at: path.clone() })
        } else if verdict == 2 {
            Err(FsError { kind: FsErrorKind::Invalid, at: path.clone() })
        } else if verdict == 3 {
            Err(FsError { kind: FsErrorKind::PermissionDenied, at: path.clone() })
        } else {
            self.drop_node(path);
            Ok(())
        }
    }

    /// Removes the node at the path as the recursive directory-removal
    /// primitive would: a directory goes with everything at or under its
    /// path; on a platform with typed links a link to a directory goes too,
    /// the link itself and not what it points at; files and other links are
    /// refused.
    pub fn remove_dir_all(&mut self, path: &FsPath, typed_links: bool) -> (r: Result<(), FsError>)
        ensures
            final(self).denied == old(self).denied,
            forall|q: PathView| !within(q, path@) ==> final(self).node(q) == old(self).node(q),
            r is Ok <==> (!old(self).is_denied(path@) && (old(self).node(path@) matches Some(n)
                && dir_removable(n, typed_links))),
            r is Ok ==> final(self).node(path@) is None,
            r is Ok && old(self).node(path@) == Some(NodeView::Dir) ==> forall|q: PathView|
                within(q, path@) ==> final(self).node(q) is None,
            old(self).node(path@) != Some(NodeView::Dir) ==> forall|q: PathView|
                q != path@ ==> final(self).node(q) == old(self).node(q),
            r is Err ==> *final(self) == *old(self),
            r matches Err(e) ==> e@.at == path@,
    {
        if self.is_denied_at(path) {
            return Err(FsError { kind: FsErrorKind::PermissionDenied, at: path.clone() });
        }
        let verdict = match self.lookup(path) {
            None => 0u8,
            Some(FsNode::Dir) => 1u8,
            Some(FsNode::Link { kind, .. }) => {
                if typed_links && *kind == LinkKind::ToDir {
                    2u8
                } else {
                    3u8
                }
            },
            Some(FsNode::File { .. }) => 3u8,
        };
        if verdict == 1 {
            self.drop_subtree(path);
            Ok(())
        } else if verdict == 2 {
            self.drop_node(path);
            Ok(())
        } else if verdict == 3 {
            Err(FsError { kind: FsErrorKind::Invalid, at: path.clone() })
        } else {
            Err(FsError { kind: FsErrorKind::NotFound, at: path.clone() })
        }
    }
}

} // verus!
