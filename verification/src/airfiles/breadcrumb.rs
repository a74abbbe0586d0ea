use vstd::prelude::*;
use crate::airfiles::paths::{components_of, join_components, path_components_of, path_from_components, texts};

verus! {

/// The current path as a list of segments for breadcrumb navigation, e.g.
/// `["/", "Users", "vo", "Documents"]`.
#[derive(Debug, Clone, PartialEq)]
pub struct BreadcrumbPath {
    segments: Vec<String>,
}

impl View for BreadcrumbPath {
    type V = Seq<Seq<char>>;

    closed spec fn view(&self) -> Seq<Seq<char>> {
        texts(self.segments@)
    }
}

impl BreadcrumbPath {
    /// The segments of a path: its components.
    pub fn from_path(path: &str) -> (b: Self)
        ensures
            b@ == path_components_of(path@),
    {
        BreadcrumbPath { segments: components_of(path) }
    }

    pub fn segments(&self) -> (s: &[String])
        ensures
            texts(s@) == self@,
    {
        self.segments.as_slice()
    }

    /// The path cut after segment `index`; the whole path when `index` is past
    /// the last segment.
    pub fn navigate_to_index(&self, index: usize) -> (b: Self)
        ensures
            b@ == self@.take(if index + 1 < self@.len() { index + 1 } else { self@.len() as int }),
    {
        let len = self.segments.len();
        let end = if index < len { index + 1 } else { len };
        let mut segments: Vec<String> = Vec::new();
        let mut i: usize = 0;
        while i < end
            invariant
                end <= len,
                len == self.segments@.len(),
                i <= end,
                segments@.len() == i,
                forall|k: int| 0 <= k < i ==> (#[trigger] segments@[k])@ == self.segments@[k]@,
            decreases end - i,
        {
            let seg = self.segments[i].clone();
            segments.push(seg);
            i = i + 1;
        }
        proof {
            assert(texts(segments@) =~= texts(self.segments@).take(end as int));
        }
        BreadcrumbPath { segments }
    }

    /// Appends a segment (a directory name).
    pub fn push(&mut self, name: String)
        ensures
            final(self)@ == old(self)@.push(name@),
    {
        self.segments.push(name);
        proof {
            assert(texts(self.segments@) =~= texts(old(self).segments@).push(name@));
        }
    }

    /// Removes the last segment and returns it; at the root (one segment or
    /// none) nothing is removed and `None` is returned.
    pub fn pop(&mut self) -> (r: Option<String>)
        ensures
            old(self)@.len() > 1 ==> r.is_some() && r.unwrap()@ == old(self)@.last()
                && final(self)@ == old(self)@.drop_last(),
            old(self)@.len() <= 1 ==> r.is_none() && final(self)@ == old(self)@,
    {
        if self.segments.len() > 1 {
            let r = self.segments.pop();
            proof {
                assert(texts(self.segments@) =~= texts(old(self).segments@).drop_last());
            }
            r
        } else {
            None
        }
    }

    /// Number of segments.
    pub fn depth(&self) -> (n: usize)
        ensures
            n == self@.len(),
    {
        self.segments.len()
    }

    /// The path the segments make, as text.
    pub fn to_path_buf(&self) -> (p: String)
        ensures
            p@ == path_from_components(self@),
    {
        join_components(&self.segments)
    }
}

/// Pushing a segment and popping it again gives back the segment and the
/// path one started from, as long as that path has at least one segment
/// (the root, which `pop` never removes).
pub proof fn lemma_push_then_pop(path: Seq<Seq<char>>, name: Seq<char>)
    requires
        path.len() >= 1,
    ensures
        path.push(name).len() > 1,
        path.push(name).last() == name,
        path.push(name).drop_last() == path,
{
    assert(path.push(name).drop_last() =~= path);
}

/// Cutting a path at a segment keeps the segments before the cut unchanged
/// and never makes the path longer.
pub proof fn lemma_navigate_to_index_prefix(path: Seq<Seq<char>>, index: int)
    requires
        0 <= index,
    ensures
        ({
            let end = if index + 1 < path.len() { index + 1 } else { path.len() as int };
            &&& path.take(end).len() <= path.len()
            &&& forall|k: int| 0 <= k < path.take(end).len() ==> path.take(end)[k] == path[k]
            &&& index + 1 >= path.len() ==> path.take(end) == path
        }),
{
    let end = if index + 1 < path.len() { index + 1 } else { path.len() as int };
    if index + 1 >= path.len() {
        assert(path.take(end) =~= path);
    }
}

} // verus!
