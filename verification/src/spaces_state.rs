//! What the space selector draws.

use crate::settings::{
    SpaceData, SpaceView, find_space, space_index, space_views,
};
use crate::text::{same, same_opt, texts};
use vstd::prelude::*;

verus! {

/// The spaces and which one is showing.
#[derive(Debug)]
pub struct SpacesState {
    spaces: Vec<SpaceData>,
    active: String,
}

/// What a [`SpacesState`] stands for.
pub struct SelectorView {
    pub spaces: Seq<SpaceView>,
    pub active: Seq<char>,
}

impl View for SpacesState {
    type V = SelectorView;

    closed spec fn view(&self) -> SelectorView {
        SelectorView { spaces: space_views(self.spaces@), active: self.active@ }
    }
}

impl SpacesState {
    /// Nothing to draw yet.
    pub fn new() -> (r: Self)
        ensures
            r@ == (SelectorView { spaces: Seq::empty(), active: Seq::empty() }),
    {
        let r = SpacesState { spaces: Vec::new(), active: String::new() };
        proof {
            assert(space_views(r.spaces@) =~= Seq::<SpaceView>::empty());
            assert(r.active@ =~= Seq::<char>::empty());
        }
        r
    }

    /// The spaces, in order.
    pub fn spaces(&self) -> (r: &Vec<SpaceData>)
        ensures
            space_views(r@) == self@.spaces,
    {
        &self.spaces
    }

    /// The space that is showing.
    pub fn active(&self) -> (r: &str)
        ensures
            r@ == self@.active,
    {
        self.active.as_str()
    }

    /// The position of the space that is showing, counting from 0.
    pub fn active_index(&self) -> (r: Option<usize>)
        ensures
            match r {
                Some(i) => space_index(self@.spaces, self@.active) == Some(i as int),
                None => space_index(self@.spaces, self@.active) is None,
            },
    {
        find_space(&self.spaces, self.active.as_str())
    }

    /// Replace what is drawn. Returns whether it changed, so that observers are
    /// to be told.
    pub fn set(&mut self, spaces: Vec<SpaceData>, active: String) -> (r: bool)
        ensures
            final(self)@ == (SelectorView { spaces: space_views(spaces@), active: active@ }),
            r == (old(self)@ != final(self)@),
    {
        let ghost before = self@;
        if same_spaces(&self.spaces, &spaces) && same(self.active.as_str(), active.as_str()) {
            return false;
        }
        self.spaces = spaces;
        self.active = active;
        true
    }
}

impl Default for SpacesState {
    fn default() -> (r: Self)
        ensures
            r@ == (SelectorView { spaces: Seq::empty(), active: Seq::empty() }),
    {
        SpacesState::new()
    }
}

/// Whether the two lists hold the same texts.
fn same_texts(a: &Vec<String>, b: &Vec<String>) -> (r: bool)
    ensures
        r == (texts(a@) == texts(b@)),
{
    proof {
        assert(texts(a@).len() == a@.len());
        assert(texts(b@).len() == b@.len());
    }
    if a.len() != b.len() {
        return false;
    }
    let mut i: usize = 0;
    while i < a.len()
        invariant
            i <= a@.len(),
            a@.len() == b@.len(),
            forall|j: int| 0 <= j < i ==> (#[trigger] a@[j])@ == b@[j]@,
        decreases a@.len() - i,
    {
        if !same(a[i].as_str(), b[i].as_str()) {
            proof {
                assert(texts(a@)[i as int] == a@[i as int]@);
                assert(texts(b@)[i as int] == b@[i as int]@);
            }
            return false;
        }
        i = i + 1;
    }
    proof {
        assert(texts(a@) =~= texts(b@));
    }
    true
}

/// Whether the two spaces are the same.
fn same_space(a: &SpaceData, b: &SpaceData) -> (r: bool)
    ensures
        r == (a@ == b@),
{
    same(a.id.as_str(), b.id.as_str()) && same(a.name.as_str(), b.name.as_str()) && same_opt(
        &a.connection,
        &b.connection,
    ) && same_texts(&a.tasks.groups, &b.tasks.groups) && same_texts(
        &a.tasks.statuses,
        &b.tasks.statuses,
    ) && same_texts(&a.specs.folders, &b.specs.folders)
}

/// Whether the two lists hold the same spaces.
fn same_spaces(a: &Vec<SpaceData>, b: &Vec<SpaceData>) -> (r: bool)
    ensures
        r == (space_views(a@) == space_views(b@)),
{
    proof {
        assert(space_views(a@).len() == a@.len());
        assert(space_views(b@).len() == b@.len());
    }
    if a.len() != b.len() {
        return false;
    }
    let mut i: usize = 0;
    while i < a.len()
        invariant
            i <= a@.len(),
            a@.len() == b@.len(),
            forall|j: int| 0 <= j < i ==> (#[trigger] a@[j])@ == b@[j]@,
        decreases a@.len() - i,
    {
        if !same_space(&a[i], &b[i]) {
            proof {
                assert(space_views(a@)[i as int] == a@[i as int]@);
                assert(space_views(b@)[i as int] == b@[i as int]@);
            }
            return false;
        }
        i = i + 1;
    }
    proof {
        assert(space_views(a@) =~= space_views(b@));
    }
    true
}

} // verus!
