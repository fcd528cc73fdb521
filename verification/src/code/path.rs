//! Places in documents.
use vstd::prelude::*;
use crate::code::copy;
use crate::code::model::{Path, Segment};
use crate::code::view::{self, PathView, SegmentView};
use crate::text::{decimal_text, same_text};

verus! {

impl Segment {
    pub fn key(value: String) -> (segment: Segment)
        ensures
            view::segment(segment) == SegmentView::Key(value@),
    {
        Segment::Key(value)
    }

    pub fn index(value: usize) -> (segment: Segment)
        ensures
            view::segment(segment) == SegmentView::Index(value),
    {
        Segment::Index(value)
    }

    pub fn same(&self, other: &Segment) -> (result: bool)
        ensures
            result == (view::segment(*self) == view::segment(*other)),
    {
        match (self, other) {
            (Segment::Key(left), Segment::Key(right)) => same_text(left.as_str(), right.as_str()),
            (Segment::Index(left), Segment::Index(right)) => *left == *right,
            _ => false,
        }
    }
}

/// The path without its last step.
pub open spec fn parent_of(path: PathView) -> Option<PathView> {
    if path.segments.len() == 0 {
        None
    } else {
        Some(PathView { segments: path.segments.drop_last() })
    }
}

pub open spec fn last_of(path: PathView) -> Option<SegmentView> {
    if path.segments.len() == 0 {
        None
    } else {
        Some(path.segments.last())
    }
}

pub open spec fn child_of(path: PathView, segment: SegmentView) -> PathView {
    PathView { segments: path.segments.push(segment) }
}

/// Whether a path leads to another or to something that holds it.
pub open spec fn leads_to(path: PathView, other: PathView) -> bool {
    path.segments.len() <= other.segments.len() && other.segments.take(path.segments.len() as int) == path.segments
}

/// The steps of a path as texts.
pub open spec fn compact(path: PathView) -> Seq<Seq<char>> {
    Seq::new(
        path.segments.len(),
        |i: int|
        match path.segments[i] {
            SegmentView::Key(key) => key,
            SegmentView::Index(index) => crate::text::decimal(index as nat),
        },
    )
}

pub open spec fn root_path() -> PathView {
    PathView { segments: Seq::empty() }
}

pub open spec fn path_option(path: Option<Path>) -> Option<PathView> {
    match path {
        Some(path) => Some(view::path(path)),
        None => None,
    }
}

impl Path {
    pub fn new(segments: Vec<Segment>) -> (path: Path)
        ensures
            view::path(path).segments == view::segments(segments@),
    {
        Path { segments }
    }

    pub fn root() -> (path: Path)
        ensures
            view::path(path) == root_path(),
    {
        let path = Path { segments: Vec::new() };
        assert(view::path(path).segments =~= Seq::<SegmentView>::empty());
        path
    }

    pub fn segments(&self) -> (segments: &Vec<Segment>)
        ensures
            view::segments(segments@) == view::path(*self).segments,
            segments@ == self.segments@,
    {
        &self.segments
    }

    pub fn copied(&self) -> (path: Path)
        ensures
            view::path(path) == view::path(*self),
    {
        copy::path(self)
    }

    pub fn parent(&self) -> (parent: Option<Path>)
        ensures
            path_option(parent) == parent_of(view::path(*self)),
    {
        let ghost given = view::path(*self);
        assert(given.segments.len() == self.segments@.len());
        if self.segments.len() == 0 {
            return None;
        }
        let mut segments = copy::segments(&self.segments);
        let ghost all = segments@;
        assert(view::segments(all).len() == all.len());
        segments.pop();
        assert(view::segments(segments@) =~= view::segments(all).drop_last());
        Some(Path { segments })
    }

    pub fn last(&self) -> (segment: Option<&Segment>)
        ensures
            last_of(view::path(*self)) == (match segment {
                    Some(segment) => Some(view::segment(*segment)),
                    None => None,
            }),
    {
        let count: usize = self.segments.len();
        assert(view::path(*self).segments.len() == count);
        if count == 0 {
            None
        } else {
            assert(view::path(*self).segments.last() == view::segment(self.segments@[count - 1]));
            Some(&self.segments[count - 1])
        }
    }

    pub fn push(&mut self, segment: Segment)
        ensures
            view::path(*final(self)) == child_of(view::path(*old(self)), view::segment(segment)),
    {
        let ghost before = self.segments@;
        self.segments.push(segment);
        proof {
            view::lemma_segments_push(before, segment);
        }
    }

    pub fn child(&self, segment: Segment) -> (path: Path)
        ensures
            view::path(path) == child_of(view::path(*self), view::segment(segment)),
    {
        let mut path = copy::path(self);
        path.push(segment);
        path
    }

    pub fn is_prefix_of(&self, other: &Path) -> (result: bool)
        ensures
            result == leads_to(view::path(*self), view::path(*other)),
    {
        let ghost mine = view::path(*self).segments;
        let ghost theirs = view::path(*other).segments;
        assert(mine.len() == self.segments@.len() && theirs.len() == other.segments@.len());
        if self.segments.len() > other.segments.len() {
            return false;
        }
        let mut i: usize = 0;
        while i < self.segments.len()
            invariant
                i <= self.segments.len() <= other.segments.len(),
                mine == view::path(*self).segments,
                theirs == view::path(*other).segments,
                mine.len() == self.segments@.len(),
                theirs.len() == other.segments@.len(),
                forall|j: int| 0 <= j < i ==> mine[j] == theirs[j],
            decreases self.segments.len() - i,
        {
            assert(mine[i as int] == view::segment(self.segments@[i as int]));
            assert(theirs[i as int] == view::segment(other.segments@[i as int]));
            if !self.segments[i].same(&other.segments[i]) {
                assert(theirs.take(mine.len() as int)[i as int] != mine[i as int]);
                return false;
            }
            i += 1;
        }
        assert(theirs.take(mine.len() as int) =~= mine);
        true
    }

    pub fn same(&self, other: &Path) -> (result: bool)
        ensures
            result == (view::path(*self) == view::path(*other)),
    {
        let ghost mine = view::path(*self).segments;
        let ghost theirs = view::path(*other).segments;
        assert(mine.len() == self.segments@.len() && theirs.len() == other.segments@.len());
        if self.segments.len() != other.segments.len() {
            return false;
        }
        let result = self.is_prefix_of(other);
        assert(theirs.take(theirs.len() as int) =~= theirs);
        result
    }

    pub fn to_compact_strings(&self) -> (texts: Vec<String>)
        ensures
            crate::lowered::view::texts(texts@) == compact(view::path(*self)),
    {
        let ghost all = view::path(*self);
        assert(all.segments.len() == self.segments@.len());
        let mut done: Vec<String> = Vec::new();
        let mut i: usize = 0;
        while i < self.segments.len()
            invariant
                i <= self.segments.len(),
                done.len() == i,
                all == view::path(*self),
                forall|j: int| 0 <= j < i ==> crate::lowered::view::texts(done@)[j] == compact(all)[j],
            decreases self.segments.len() - i,
        {
            assert(all.segments[i as int] == view::segment(self.segments@[i as int]));
            let text = match &self.segments[i] {
                Segment::Key(key) => key.clone(),
                Segment::Index(index) => decimal_text(*index as u64),
            };
            let ghost before = done@;
            done.push(text);
            proof {
                crate::lowered::view::lemma_texts_push(before, done@.last());
            }
            i += 1;
        }
        assert(crate::lowered::view::texts(done@) =~= compact(all));
        done
    }
}

// Laws.

/// A path leads to each of its children, and taking the last step back undoes
/// the step.
pub proof fn law_parent_undoes_child(path: PathView, segment: SegmentView)
    ensures
        parent_of(child_of(path, segment)) == Some(path),
        last_of(child_of(path, segment)) == Some(segment),
        leads_to(path, child_of(path, segment)),
        !leads_to(child_of(path, segment), path),
{
    assert(child_of(path, segment).segments.drop_last() =~= path.segments);
    assert(child_of(path, segment).segments.take(path.segments.len() as int) =~= path.segments);
}

/// Leading to is an order: a path leads to itself, along two stretches it leads
/// to the far end, and two paths that lead to each other are one.
pub proof fn law_leading_is_an_order(first: PathView, second: PathView, third: PathView)
    ensures
        leads_to(first, first),
        leads_to(root_path(), first),
        leads_to(first, second) && leads_to(second, third) ==> leads_to(first, third),
        leads_to(first, second) && leads_to(second, first) ==> first == second,
{
    assert(first.segments.take(first.segments.len() as int) =~= first.segments);
    assert(first.segments.take(0) =~= Seq::<SegmentView>::empty());
    if leads_to(first, second) && leads_to(second, third) {
        let count = first.segments.len() as int;
        assert(third.segments.take(count) =~= third.segments.take(second.segments.len() as int).take(count));
    }
    if leads_to(first, second) && leads_to(second, first) {
        assert(second.segments.take(second.segments.len() as int) =~= second.segments);
    }
}

} // verus!
