//! Which projects a window shows, and in which order.

use crate::collections::{
    list_contains, list_extend, list_position, list_sift, position, position_is_first, sifted,
    texts_take,
};
use crate::state::{
    DataView, ProjectView, WindowId, WindowState, WindowView, WorkspaceData, find_folder,
    find_project, folder_in, has_project, project_ids, project_in, window_in,
};
use crate::rows::list_project_ids;
use crate::text::{copy_all, opt_text, same, texts};
use vstd::prelude::*;

verus! {

/// The window `id`, or the main one where it is gone.
pub open spec fn window_or_main(d: DataView, id: WindowId) -> WindowView {
    match window_in(d, id) {
        Some(w) => w,
        None => d.main_window,
    }
}

/// Whether the project is hidden in the window.
pub open spec fn hidden_in(d: DataView, window: WindowId, id: Seq<char>) -> bool {
    window_or_main(d, window).hidden_project_ids.contains(id)
}

/// The project `id`, if it is there, and its worktrees.
pub open spec fn family(ps: Seq<ProjectView>, id: Seq<char>) -> Seq<Seq<char>> {
    match project_in(ps, id) {
        Some(p) => seq![id] + sifted(p.worktree_ids, project_ids(ps), true),
        None => Seq::empty(),
    }
}

/// The projects `ids`, each followed by its worktrees.
pub open spec fn families(ps: Seq<ProjectView>, ids: Seq<Seq<char>>) -> Seq<Seq<char>>
    decreases ids.len(),
{
    if ids.len() == 0 {
        Seq::empty()
    } else {
        families(ps, ids.drop_last()) + family(ps, ids.last())
    }
}

/// What the entry `id` of the order stands for: the projects of a folder, or a
/// project. Under a filter only that folder's projects are there.
pub open spec fn entry_projects(d: DataView, filter: Option<Seq<char>>, id: Seq<char>) -> Seq<
    Seq<char>,
> {
    match folder_in(d.folders, id) {
        Some(f) => if filter is None || filter == Some(id) {
            families(d.projects, f.project_ids)
        } else {
            Seq::empty()
        },
        None => if filter is None {
            family(d.projects, id)
        } else {
            Seq::empty()
        },
    }
}

/// The projects that the order lists, with the folders opened.
pub open spec fn listed_projects(
    d: DataView,
    filter: Option<Seq<char>>,
    order: Seq<Seq<char>>,
) -> Seq<Seq<char>>
    decreases order.len(),
{
    if order.len() == 0 {
        Seq::empty()
    } else {
        listed_projects(d, filter, order.drop_last()) + entry_projects(d, filter, order.last())
    }
}

/// The ids of `ids` that are not in `hidden`.
pub open spec fn unhidden(ids: Seq<Seq<char>>, hidden: Set<Seq<char>>) -> Seq<Seq<char>>
    decreases ids.len(),
{
    if ids.len() == 0 {
        ids
    } else if hidden.contains(ids.last()) {
        unhidden(ids.drop_last(), hidden)
    } else {
        unhidden(ids.drop_last(), hidden).push(ids.last())
    }
}

/// The projects that a window shows: the one it is zoomed to, with its
/// worktrees unless the zoom leaves them out; or else what the order lists and
/// the window does not hide.
pub open spec fn shown_projects(
    d: DataView,
    window: WindowId,
    zoom: Option<Seq<char>>,
    individual: bool,
) -> Seq<Seq<char>> {
    match zoom {
        Some(id) => if individual {
            family(d.projects, id).take(
                if has_project(d.projects, id) {
                    1
                } else {
                    0
                },
            )
        } else {
            family(d.projects, id)
        },
        None => {
            let w = window_or_main(d, window);
            unhidden(
                listed_projects(d, w.folder_filter, d.project_order),
                w.hidden_project_ids,
            )
        },
    }
}

/// The first of `ids` that is in `left`.
pub open spec fn first_left(ids: Seq<Seq<char>>, left: Seq<Seq<char>>) -> Option<Seq<char>>
    decreases ids.len(),
{
    if ids.len() == 0 {
        None
    } else if left.contains(ids[0]) {
        Some(ids[0])
    } else {
        first_left(ids.skip(1), left)
    }
}

/// The last of `ids` that is in `left`.
pub open spec fn last_left(ids: Seq<Seq<char>>, left: Seq<Seq<char>>) -> Option<Seq<char>>
    decreases ids.len(),
{
    if ids.len() == 0 {
        None
    } else if left.contains(ids.last()) {
        Some(ids.last())
    } else {
        last_left(ids.drop_last(), left)
    }
}

/// The neighbour that takes over from `id`: the next one that still shows, or
/// else the previous one.
pub open spec fn replacement(
    before: Seq<Seq<char>>,
    after: Seq<Seq<char>>,
    id: Seq<char>,
) -> Option<Seq<char>> {
    match position(before, id) {
        Some(i) => match first_left(before.skip(i + 1), after) {
            Some(next) => Some(next),
            None => last_left(before.take(i), after),
        },
        None => None,
    }
}

/// Pick the neighbour that takes over from `hidden_id`: the next project that
/// still shows, or else the previous one.
pub fn pick_focus_replacement(
    visible_before: &Vec<String>,
    visible_after: &Vec<String>,
    hidden_id: &str,
) -> (r: Option<String>)
    ensures
        opt_text(r) == replacement(
            texts(visible_before@),
            texts(visible_after@),
            hidden_id@,
        ),
{
    let ghost all = texts(visible_before@);
    let ghost left = texts(visible_after@);
    let idx: usize = match list_position(visible_before, hidden_id) {
        Some(i) => i,
        None => {
            return None;
        },
    };
    let mut k: usize = idx + 1;
    while k < visible_before.len()
        invariant
            idx < k <= visible_before@.len(),
            all == texts(visible_before@),
            left == texts(visible_after@),
            position(all, hidden_id@) == Some(idx as int),
            first_left(all.skip(idx + 1), left) == first_left(all.skip(k as int), left),
        decreases visible_before@.len() - k,
    {
        proof {
            assert(all.skip(k as int)[0] == visible_before@[k as int]@);
            assert(all.skip(k as int).skip(1) =~= all.skip(k + 1));
        }
        if list_contains(visible_after, visible_before[k].as_str()) {
            return Some(visible_before[k].clone());
        }
        k = k + 1;
    }
    let mut n: usize = idx;
    while n > 0
        invariant
            n <= idx < visible_before@.len(),
            all == texts(visible_before@),
            left == texts(visible_after@),
            position(all, hidden_id@) == Some(idx as int),
            first_left(all.skip(idx + 1), left) is None,
            last_left(all.take(idx as int), left) == last_left(all.take(n as int), left),
        decreases n,
    {
        proof {
            assert(all.take(n as int).last() == visible_before@[n - 1]@);
            assert(all.take(n as int).drop_last() =~= all.take(n - 1));
        }
        if list_contains(visible_after, visible_before[n - 1].as_str()) {
            return Some(visible_before[n - 1].clone());
        }
        n = n - 1;
    }
    None
}

impl WorkspaceData {
    /// The window `id`, or the main one where it is gone.
    pub fn window_or_main(&self, id: WindowId) -> (r: &WindowState)
        ensures
            r@ == window_or_main(self@, id),
    {
        match self.window(id) {
            Some(w) => w,
            None => &self.main_window,
        }
    }

    /// Add the project `id`, if it is there, and its worktrees.
    pub(crate) fn add_family(&self, id: &str, out: &mut Vec<String>)
        ensures
            texts(final(out)@) == texts(old(out)@) + family(self@.projects, id@),
    {
        let ghost start = texts(out@);
        match find_project(&self.projects, id) {
            Some(i) => {
                let known = list_project_ids(&self.projects);
                let mut children = copy_all(&self.projects[i].worktree_ids);
                list_sift(&mut children, &known, true);
                let ghost held = out@;
                out.push(id.to_owned());
                proof {
                    assert(texts(out@) =~= texts(held).push(id@));
                }
                list_extend(out, &children);
                proof {
                    assert(texts(out@) =~= start + family(self@.projects, id@));
                }
            },
            None => {
                proof {
                    assert(start + Seq::<Seq<char>>::empty() =~= start);
                }
            },
        }
    }

    /// Add the projects `ids`, each followed by its worktrees.
    fn add_families(&self, ids: &Vec<String>, out: &mut Vec<String>)
        ensures
            texts(final(out)@) == texts(old(out)@) + families(self@.projects, texts(ids@)),
    {
        let ghost start = texts(out@);
        let ghost all = texts(ids@);
        let mut i: usize = 0;
        proof {
            assert(all.take(0) =~= Seq::<Seq<char>>::empty());
            assert(start + families(self@.projects, all.take(0)) =~= start);
        }
        while i < ids.len()
            invariant
                i <= ids@.len(),
                all == texts(ids@),
                texts(out@) == start + families(self@.projects, all.take(i as int)),
            decreases ids@.len() - i,
        {
            proof {
                texts_take(ids@, i as int);
            }
            self.add_family(ids[i].as_str(), out);
            proof {
                assert(texts(out@) =~= start + families(self@.projects, all.take(i + 1)));
            }
            i = i + 1;
        }
        proof {
            assert(all.take(i as int) =~= all);
        }
    }

    /// The projects that the order lists, with the folders opened.
    fn list_projects(&self, filter: &Option<String>) -> (r: Vec<String>)
        ensures
            texts(r@) == listed_projects(
                self@,
                opt_text(*filter),
                self@.project_order,
            ),
    {
        let mut out: Vec<String> = Vec::new();
        let ghost order = texts(self.project_order@);
        let ghost want = opt_text(*filter);
        let mut i: usize = 0;
        proof {
            assert(order.take(0) =~= Seq::<Seq<char>>::empty());
            assert(texts(out@) =~= Seq::<Seq<char>>::empty());
        }
        while i < self.project_order.len()
            invariant
                i <= self.project_order@.len(),
                order == texts(self.project_order@),
                want == opt_text(*filter),
                texts(out@) == listed_projects(self@, want, order.take(i as int)),
            decreases self.project_order@.len() - i,
        {
            proof {
                texts_take(self.project_order@, i as int);
            }
            let id = self.project_order[i].as_str();
            let ghost held = texts(out@);
            match find_folder(&self.folders, id) {
                Some(k) => {
                    proof {
                        assert(self@.folders[k as int] == self.folders@[k as int]@);
                    }
                    let open = match filter {
                        Some(f) => same(f.as_str(), id),
                        None => true,
                    };
                    if open {
                        self.add_families(&self.folders[k].project_ids, &mut out);
                    } else {
                        proof {
                            assert(held + Seq::<Seq<char>>::empty() =~= held);
                        }
                    }
                },
                None => {
                    if filter.is_none() {
                        self.add_family(id, &mut out);
                    } else {
                        proof {
                            assert(held + Seq::<Seq<char>>::empty() =~= held);
                        }
                    }
                },
            }
            i = i + 1;
        }
        proof {
            assert(order.take(i as int) =~= order);
        }
        out
    }

    /// The ids of the projects that a window shows, in order.
    pub fn visible_projects(&self, window: WindowId, zoom: Option<&String>, individual: bool) -> (r:
        Vec<String>)
        ensures
            texts(r@) == shown_projects(
                self@,
                window,
                match zoom {
                    Some(id) => Some(id@),
                    None => None,
                },
                individual,
            ),
    {
        match zoom {
            Some(id) => {
                let mut out: Vec<String> = Vec::new();
                proof {
                    assert(texts(out@) =~= Seq::<Seq<char>>::empty());
                    position_is_first(project_ids(self@.projects), id@);
                    assert(Seq::<Seq<char>>::empty() + family(self@.projects, id@) =~= family(
                        self@.projects,
                        id@,
                    ));
                }
                self.add_family(id.as_str(), &mut out);
                if individual {
                    let mut one: Vec<String> = Vec::new();
                    if out.len() > 0 {
                        one.push(out[0].clone());
                        proof {
                            assert(texts(out@)[0] == out@[0]@);
                            assert(texts(one@) =~= texts(out@).take(1));
                        }
                    } else {
                        proof {
                            assert(texts(one@) =~= texts(out@).take(0));
                        }
                    }
                    one
                } else {
                    out
                }
            },
            None => {
                let w = self.window_or_main(window);
                let all = self.list_projects(&w.folder_filter);
                let mut out: Vec<String> = Vec::new();
                let ghost ids = texts(all@);
                let mut i: usize = 0;
                proof {
                    assert(ids.take(0) =~= Seq::<Seq<char>>::empty());
                    assert(texts(out@) =~= Seq::<Seq<char>>::empty());
                }
                while i < all.len()
                    invariant
                        i <= all@.len(),
                        ids == texts(all@),
                        texts(out@) == unhidden(ids.take(i as int), w@.hidden_project_ids),
                    decreases all@.len() - i,
                {
                    proof {
                        texts_take(all@, i as int);
                    }
                    if !w.hidden_project_ids.contains(all[i].as_str()) {
                        let ghost held = out@;
                        out.push(all[i].clone());
                        proof {
                            assert(texts(out@) =~= texts(held).push(all@[i as int]@));
                        }
                    }
                    i = i + 1;
                }
                proof {
                    assert(ids.take(i as int) =~= ids);
                }
                out
            },
        }
    }
}

/// The neighbour that takes over shows, and is not the one it takes over from
/// where each project shows once.
pub proof fn replacements_show(before: Seq<Seq<char>>, after: Seq<Seq<char>>, id: Seq<char>)
    ensures
        match replacement(before, after, id) {
            Some(next) => after.contains(next) && before.contains(next) && (before.no_duplicates()
                ==> next != id),
            None => true,
        },
{
    position_is_first(before, id);
    if let Some(i) = position(before, id) {
        first_left_is_left(before.skip(i + 1), after);
        last_left_is_left(before.take(i), after);
        let later = before.skip(i + 1);
        if let Some(next) = first_left(later, after) {
            let k = choose|k: int| 0 <= k < later.len() && later[k] == next;
            assert(before[i + 1 + k] == next);
        } else if let Some(prev) = last_left(before.take(i), after) {
            let k = choose|k: int| 0 <= k < before.take(i).len() && before.take(i)[k] == prev;
            assert(before[k] == prev);
        }
    }
}

proof fn first_left_is_left(ids: Seq<Seq<char>>, left: Seq<Seq<char>>)
    ensures
        match first_left(ids, left) {
            Some(x) => ids.contains(x) && left.contains(x),
            None => true,
        },
    decreases ids.len(),
{
    if ids.len() > 0 && !left.contains(ids[0]) {
        first_left_is_left(ids.skip(1), left);
        if let Some(x) = first_left(ids.skip(1), left) {
            let k = choose|k: int| 0 <= k < ids.skip(1).len() && ids.skip(1)[k] == x;
            assert(ids[k + 1] == x);
        }
    }
}

proof fn last_left_is_left(ids: Seq<Seq<char>>, left: Seq<Seq<char>>)
    ensures
        match last_left(ids, left) {
            Some(x) => ids.contains(x) && left.contains(x),
            None => true,
        },
    decreases ids.len(),
{
    if ids.len() > 0 && !left.contains(ids.last()) {
        last_left_is_left(ids.drop_last(), left);
        if let Some(x) = last_left(ids.drop_last(), left) {
            let k = choose|k: int| 0 <= k < ids.drop_last().len() && ids.drop_last()[k] == x;
            assert(ids[k] == x);
        }
    }
}

} // verus!
