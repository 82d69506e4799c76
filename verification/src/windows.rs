//! What each window shows of the workspace, and the rules that keep the
//! windows in step with its projects and folders.

use crate::collections::{
    Duplicate, IdMap, IdSet, contains_last, list_contains, list_position, position_is_first,
    sifted_keys, stored, unkeyed,
};
use crate::layout_terminals::{local_daemon_id, prefix_local_daemon_id};
use crate::state::{
    DataView, WindowId, WindowState, WindowView, WorkspaceData, extra_at, find_extra, window_in,
    window_views, with_window,
};
use crate::text::{same, texts};
use vstd::prelude::*;

verus! {

/// A change made to what a window shows.
pub enum WindowEdit<'a> {
    /// Hide a project.
    Hide(&'a str),
    /// Hide a project that shows, show one that is hidden.
    Toggle(&'a str),
    /// Do so for each project of a list, once even if it is listed repeatedly.
    ToggleAll(&'a Vec<String>),
    /// Forget a project that is gone.
    ForgetProject(&'a str),
    /// Forget a folder that is gone.
    ForgetFolder(&'a str),
    /// Forget every project and folder that is not listed.
    KeepOnly(&'a Vec<String>, &'a Vec<String>),
    /// Show only what is in the given folder, or everything.
    Filter(Option<&'a str>),
    /// Give a project's column a width.
    Width(&'a str, u32),
    /// Set the scale that the widths are drawn with.
    WidthScale(u32),
    /// Name every project and folder as one of the local daemon.
    OfLocalDaemon,
}

/// What a [`WindowEdit`] stands for.
pub enum WindowEditView {
    Hide(Seq<char>),
    Toggle(Seq<char>),
    ToggleAll(Seq<Seq<char>>),
    ForgetProject(Seq<char>),
    ForgetFolder(Seq<char>),
    KeepOnly(Seq<Seq<char>>, Seq<Seq<char>>),
    Filter(Option<Seq<char>>),
    Width(Seq<char>, u32),
    WidthScale(u32),
    OfLocalDaemon,
}

impl<'a> View for WindowEdit<'a> {
    type V = WindowEditView;

    open spec fn view(&self) -> WindowEditView {
        match self {
            WindowEdit::Hide(id) => WindowEditView::Hide(id@),
            WindowEdit::Toggle(id) => WindowEditView::Toggle(id@),
            WindowEdit::ToggleAll(ids) => WindowEditView::ToggleAll(texts(ids@)),
            WindowEdit::ForgetProject(id) => WindowEditView::ForgetProject(id@),
            WindowEdit::ForgetFolder(id) => WindowEditView::ForgetFolder(id@),
            WindowEdit::KeepOnly(ps, fs) => WindowEditView::KeepOnly(texts(ps@), texts(fs@)),
            WindowEdit::Filter(f) => WindowEditView::Filter(
                match f {
                    Some(id) => Some(id@),
                    None => None,
                },
            ),
            WindowEdit::Width(id, w) => WindowEditView::Width(id@, *w),
            WindowEdit::WidthScale(s) => WindowEditView::WidthScale(*s),
            WindowEdit::OfLocalDaemon => WindowEditView::OfLocalDaemon,
        }
    }
}

/// The ids of `s` as the local daemon's.
pub open spec fn local_daemon_ids(s: Set<Seq<char>>) -> Set<Seq<char>> {
    Set::new(|x: Seq<char>| exists|id: Seq<char>| s.contains(id) && x == local_daemon_id(id))
}

/// The entries of `s` under the local daemon's names for their keys; of two
/// entries that then share a key the later one stays.
pub open spec fn local_daemon_keys<A>(s: Seq<(Seq<char>, A)>) -> Seq<(Seq<char>, A)>
    decreases s.len(),
{
    if s.len() == 0 {
        s
    } else {
        stored(local_daemon_keys(s.drop_last()), local_daemon_id(s.last().0), s.last().1)
    }
}

/// The hidden ids `s`, in which each of `ids` that was hidden is not, and each
/// that was not is.
pub open spec fn toggled_ids(s: Set<Seq<char>>, ids: Seq<Seq<char>>) -> Set<Seq<char>> {
    s.difference(ids.to_set()).union(ids.to_set().difference(s))
}

/// The window `w` after `edit`.
pub open spec fn edited_window(w: WindowView, edit: WindowEditView) -> WindowView {
    match edit {
        WindowEditView::Hide(id) => WindowView {
            hidden_project_ids: w.hidden_project_ids.insert(id),
            ..w
        },
        WindowEditView::Toggle(id) => WindowView {
            hidden_project_ids: if w.hidden_project_ids.contains(id) {
                w.hidden_project_ids.remove(id)
            } else {
                w.hidden_project_ids.insert(id)
            },
            ..w
        },
        WindowEditView::ToggleAll(ids) => WindowView {
            hidden_project_ids: toggled_ids(w.hidden_project_ids, ids),
            ..w
        },
        WindowEditView::ForgetProject(id) => WindowView {
            hidden_project_ids: w.hidden_project_ids.remove(id),
            project_widths: unkeyed(w.project_widths, id),
            ..w
        },
        WindowEditView::ForgetFolder(id) => WindowView {
            folder_collapsed: unkeyed(w.folder_collapsed, id),
            folder_filter: if w.folder_filter == Some(id) {
                None
            } else {
                w.folder_filter
            },
            ..w
        },
        WindowEditView::KeepOnly(ps, fs) => WindowView {
            hidden_project_ids: w.hidden_project_ids.intersect(ps.to_set()),
            project_widths: sifted_keys(w.project_widths, ps, true),
            folder_collapsed: sifted_keys(w.folder_collapsed, fs, true),
            folder_filter: if w.folder_filter is Some && fs.contains(w.folder_filter->0) {
                w.folder_filter
            } else {
                None
            },
            ..w
        },
        WindowEditView::Filter(f) => WindowView { folder_filter: f, ..w },
        WindowEditView::Width(id, x) => WindowView {
            project_widths: stored(w.project_widths, id, x),
            ..w
        },
        WindowEditView::WidthScale(s) => WindowView { project_width_scale: Some(s), ..w },
        WindowEditView::OfLocalDaemon => WindowView {
            hidden_project_ids: local_daemon_ids(w.hidden_project_ids),
            project_widths: local_daemon_keys(w.project_widths),
            folder_collapsed: local_daemon_keys(w.folder_collapsed),
            folder_filter: match w.folder_filter {
                Some(id) => Some(local_daemon_id(id)),
                None => None,
            },
            ..w
        },
    }
}

/// Every window of `d` after `edit`.
pub open spec fn edited_windows(d: DataView, edit: WindowEditView) -> DataView {
    DataView {
        main_window: edited_window(d.main_window, edit),
        extra_windows: edited_extras(d.extra_windows, edit),
        ..d
    }
}

/// The windows `ws` after `edit`.
pub open spec fn edited_extras(ws: Seq<WindowView>, edit: WindowEditView) -> Seq<WindowView> {
    Seq::new(ws.len(), |i: int| edited_window(ws[i], edit))
}

/// The window `id` of `d` after `edit`; nothing changes where it is not there.
pub open spec fn edited_one_window(d: DataView, id: WindowId, edit: WindowEditView) -> DataView {
    match window_in(d, id) {
        Some(w) => with_window(d, id, edited_window(w, edit)),
        None => d,
    }
}

/// The windows `ws`, of which all but `spawning` hide `id`.
pub open spec fn hidden_in_extras(ws: Seq<WindowView>, id: Seq<char>, spawning: WindowId) -> Seq<
    WindowView,
> {
    Seq::new(
        ws.len(),
        |i: int|
            if spawning == WindowId::Extra(ws[i].id) {
                ws[i]
            } else {
                edited_window(ws[i], WindowEditView::Hide(id))
            },
    )
}

/// `d` with `id` hidden in every window but `spawning`.
pub open spec fn hidden_elsewhere(d: DataView, id: Seq<char>, spawning: WindowId) -> DataView {
    DataView {
        main_window: if spawning == WindowId::Main {
            d.main_window
        } else {
            edited_window(d.main_window, WindowEditView::Hide(id))
        },
        extra_windows: hidden_in_extras(d.extra_windows, id, spawning),
        ..d
    }
}

/// `d` without how the project `id` was shown: in the windows, and how high its
/// panels were.
pub open spec fn forgotten(d: DataView, id: Seq<char>) -> DataView {
    DataView {
        service_panel_heights: unkeyed(d.service_panel_heights, id),
        hook_panel_heights: unkeyed(d.hook_panel_heights, id),
        ..edited_windows(d, WindowEditView::ForgetProject(id))
    }
}

/// `d` without how the first `n` of `ids` were shown.
pub open spec fn all_forgotten(d: DataView, ids: Seq<Seq<char>>, n: nat) -> DataView
    decreases n,
{
    if n == 0 || n > ids.len() {
        d
    } else {
        forgotten(all_forgotten(d, ids, (n - 1) as nat), ids[n - 1])
    }
}

/// `d`, in whose windows the first `n` of the folders `ids` are forgotten.
pub open spec fn folders_forgotten(d: DataView, ids: Seq<Seq<char>>, n: nat) -> DataView
    decreases n,
{
    if n == 0 || n > ids.len() {
        d
    } else {
        edited_windows(
            folders_forgotten(d, ids, (n - 1) as nat),
            WindowEditView::ForgetFolder(ids[n - 1]),
        )
    }
}

/// The entries of `m` under the local daemon's names for their keys.
pub fn prefix_local_daemon_keyed_values<V: Duplicate>(m: &mut IdMap<V>)
    ensures
        final(m)@ == local_daemon_keys(old(m)@),
{
    let mut out: IdMap<V> = IdMap::new();
    let mut i: usize = 0;
    let ghost whole = m@;
    proof {
        assert(whole.take(0) =~= Seq::<(Seq<char>, V::V)>::empty());
    }
    while i < m.len()
        invariant
            i <= m@.len(),
            whole == m@,
            out@ == local_daemon_keys(whole.take(i as int)),
        decreases m@.len() - i,
    {
        proof {
            assert(whole.take(i + 1).drop_last() =~= whole.take(i as int));
        }
        out.insert(prefix_local_daemon_id(m.key_at(i).as_str()), m.value_at(i).duplicate());
        i = i + 1;
    }
    proof {
        assert(whole.take(i as int) =~= whole);
    }
    *m = out;
}

fn prefix_ids(s: &IdSet) -> (r: IdSet)
    ensures
        r@ == local_daemon_ids(s@),
{
    let items = s.members();
    let mut out = IdSet::new();
    let mut i: usize = 0;
    while i < items.len()
        invariant
            i <= items@.len(),
            texts(items@).to_set() == s@,
            forall|x: Seq<char>| #[trigger]
                out@.contains(x) <==> exists|j: int|
                    0 <= j < i && x == local_daemon_id(#[trigger] texts(items@)[j]),
        decreases items@.len() - i,
    {
        let id = prefix_local_daemon_id(items[i].as_str());
        let ghost before = out@;
        out.insert(id.as_str());
        proof {
            assert forall|x: Seq<char>| #[trigger] out@.contains(x) implies exists|j: int|
                0 <= j < i + 1 && x == local_daemon_id(#[trigger] texts(items@)[j]) by {
                if before.contains(x) {
                    let j = choose|j: int|
                        0 <= j < i && x == local_daemon_id(#[trigger] texts(items@)[j]);
                    assert(0 <= j < i + 1 && x == local_daemon_id(texts(items@)[j]));
                } else {
                    assert(x == local_daemon_id(texts(items@)[i as int]));
                }
            }
            assert forall|x: Seq<char>|
                (exists|j: int| 0 <= j < i + 1 && x == local_daemon_id(#[trigger] texts(items@)[j]))
                implies #[trigger] out@.contains(x) by {
                let j = choose|j: int|
                    0 <= j < i + 1 && x == local_daemon_id(#[trigger] texts(items@)[j]);
                if j < i {
                    assert(before.contains(x));
                }
            }
        }
        i = i + 1;
    }
    proof {
        assert forall|x: Seq<char>| #[trigger]
            out@.contains(x) <==> local_daemon_ids(s@).contains(x) by {
            if out@.contains(x) {
                let j = choose|j: int|
                    0 <= j < i && x == local_daemon_id(#[trigger] texts(items@)[j]);
                assert(texts(items@).contains(texts(items@)[j]));
                assert(s@.contains(texts(items@)[j]));
            }
            if local_daemon_ids(s@).contains(x) {
                let id = choose|id: Seq<char>| s@.contains(id) && x == local_daemon_id(id);
                assert(texts(items@).to_set().contains(id));
                let j = choose|j: int| 0 <= j < texts(items@).len() && texts(items@)[j] == id;
                assert(x == local_daemon_id(texts(items@)[j]));
            }
        }
        assert(out@ =~= local_daemon_ids(s@));
    }
    out
}

/// Hide each of `ids` that is not hidden, and show each that is.
fn toggle_ids(s: &mut IdSet, ids: &Vec<String>)
    ensures
        final(s)@ == toggled_ids(old(s)@, texts(ids@)),
{
    let ghost start = s@;
    let ghost all = texts(ids@);
    let mut i: usize = 0;
    proof {
        assert(all.take(0) =~= Seq::<Seq<char>>::empty());
        assert(s@ =~= toggled_ids(start, all.take(0)));
    }
    while i < ids.len()
        invariant
            i <= ids@.len(),
            all == texts(ids@),
            s@ == toggled_ids(start, all.take(i as int)),
        decreases ids@.len() - i,
    {
        let id = ids[i].as_str();
        let first = list_position(ids, id);
        proof {
            position_is_first(all, id@);
            assert(all[i as int] == id@);
            contains_last(all.take(i + 1));
            assert(all.take(i + 1).drop_last() =~= all.take(i as int));
        }
        if first == Some(i) {
            proof {
                assert(!all.take(i as int).contains(id@)) by {
                    if all.take(i as int).contains(id@) {
                        let j = choose|j: int| 0 <= j < i && all.take(i as int)[j] == id@;
                        assert(all[j] == id@);
                    }
                }
            }
            if s.contains(id) {
                s.remove(id);
            } else {
                s.insert(id);
            }
        } else {
            proof {
                let j = first->0 as int;
                assert(all.take(i as int)[j] == id@);
            }
        }
        proof {
            assert(s@ =~= toggled_ids(start, all.take(i + 1)));
        }
        i = i + 1;
    }
    proof {
        assert(all.take(i as int) =~= all);
    }
}

impl WindowState {
    /// Make `edit`.
    pub fn apply(&mut self, edit: &WindowEdit)
        ensures
            final(self)@ == edited_window(old(self)@, edit@),
    {
        match edit {
            WindowEdit::Hide(id) => {
                self.hidden_project_ids.insert(id);
            },
            WindowEdit::Toggle(id) => {
                if self.hidden_project_ids.contains(id) {
                    self.hidden_project_ids.remove(id);
                } else {
                    self.hidden_project_ids.insert(id);
                }
            },
            WindowEdit::ToggleAll(ids) => {
                toggle_ids(&mut self.hidden_project_ids, ids);
            },
            WindowEdit::ForgetProject(id) => {
                self.hidden_project_ids.remove(id);
                self.project_widths.remove(id);
            },
            WindowEdit::ForgetFolder(id) => {
                self.folder_collapsed.remove(id);
                let hit = match &self.folder_filter {
                    Some(f) => same(f.as_str(), id),
                    None => false,
                };
                if hit {
                    self.folder_filter = None;
                }
            },
            WindowEdit::KeepOnly(ps, fs) => {
                self.hidden_project_ids.retain_in(ps);
                self.project_widths.sift(ps, true);
                self.folder_collapsed.sift(fs, true);
                let hit = match &self.folder_filter {
                    Some(f) => list_contains(fs, f.as_str()),
                    None => false,
                };
                if !hit {
                    self.folder_filter = None;
                }
            },
            WindowEdit::Filter(f) => {
                self.folder_filter = match f {
                    Some(id) => Some((*id).to_owned()),
                    None => None,
                };
            },
            WindowEdit::Width(id, w) => {
                self.project_widths.insert((*id).to_owned(), *w);
            },
            WindowEdit::WidthScale(s) => {
                self.project_width_scale = Some(*s);
            },
            WindowEdit::OfLocalDaemon => {
                self.hidden_project_ids = prefix_ids(&self.hidden_project_ids);
                prefix_local_daemon_keyed_values(&mut self.project_widths);
                prefix_local_daemon_keyed_values(&mut self.folder_collapsed);
                let f = self.folder_filter.take();
                self.folder_filter = match f {
                    Some(id) => Some(prefix_local_daemon_id(id.as_str())),
                    None => None,
                };
            },
        }
    }
}

/// Make `edit` to each of `windows`.
pub fn edit_extras(windows: &mut Vec<WindowState>, edit: &WindowEdit)
    ensures
        window_views(final(windows)@) == edited_extras(window_views(old(windows)@), edit@),
{
    let ghost start = windows@;
    let mut i: usize = 0;
    while i < windows.len()
        invariant
            i <= windows@.len(),
            windows@.len() == start.len(),
            forall|j: int| 0 <= j < i ==> (#[trigger] windows@[j])@ == edited_window(start[j]@, edit@),
            forall|j: int| i <= j < start.len() ==> windows@[j] == start[j],
        decreases windows@.len() - i,
    {
        windows[i].apply(edit);
        i = i + 1;
    }
    proof {
        assert(window_views(windows@) =~= edited_extras(window_views(start), edit@));
    }
}

impl WorkspaceData {
    /// Make `edit` to every window.
    pub fn edit_windows(&mut self, edit: &WindowEdit)
        ensures
            final(self)@ == edited_windows(old(self)@, edit@),
    {
        self.main_window.apply(edit);
        edit_extras(&mut self.extra_windows, edit);
    }

    /// Make `edit` to the window `id`, if it is there.
    pub fn edit_window(&mut self, id: WindowId, edit: &WindowEdit)
        ensures
            final(self)@ == edited_one_window(old(self)@, id, edit@),
    {
        match id {
            WindowId::Main => {
                self.main_window.apply(edit);
            },
            WindowId::Extra(x) => {
                match find_extra(&self.extra_windows, x) {
                    Some(i) => {
                        let ghost start = self.extra_windows@;
                        self.extra_windows[i].apply(edit);
                        proof {
                            assert(window_views(self.extra_windows@) =~= window_views(start).update(
                                i as int,
                                edited_window(start[i as int]@, edit@),
                            ));
                        }
                    },
                    None => {},
                }
            },
        }
    }

    /// Hide a new project in every window but the one it was made in.
    pub fn add_project_hide_in_other_windows(&mut self, project_id: &str, spawning: WindowId)
        ensures
            final(self)@ == hidden_elsewhere(old(self)@, project_id@, spawning),
    {
        let edit = WindowEdit::Hide(project_id);
        if spawning != WindowId::Main {
            self.main_window.apply(&edit);
        }
        let ghost start = self.extra_windows@;
        let mut i: usize = 0;
        while i < self.extra_windows.len()
            invariant
                i <= self.extra_windows@.len(),
                self.extra_windows@.len() == start.len(),
                edit@ == WindowEditView::Hide(project_id@),
                forall|j: int|
                    0 <= j < i ==> (#[trigger] self.extra_windows@[j])@ == if spawning
                        == WindowId::Extra(start[j].id) {
                        start[j]@
                    } else {
                        edited_window(start[j]@, edit@)
                    },
                forall|j: int| i <= j < start.len() ==> self.extra_windows@[j] == start[j],
                self.version == old(self).version,
                self.projects == old(self).projects,
                self.project_order == old(self).project_order,
                self.service_panel_heights == old(self).service_panel_heights,
                self.hook_panel_heights == old(self).hook_panel_heights,
                self.folders == old(self).folders,
                self.main_window@ == if spawning == WindowId::Main {
                    old(self).main_window@
                } else {
                    edited_window(old(self).main_window@, edit@)
                },
            decreases self.extra_windows@.len() - i,
        {
            if spawning != WindowId::Extra(self.extra_windows[i].id) {
                self.extra_windows[i].apply(&edit);
            }
            i = i + 1;
        }
        proof {
            assert(window_views(self.extra_windows@) =~= hidden_in_extras(
                window_views(start),
                project_id@,
                spawning,
            ));
        }
    }

    /// Forget how a project that is gone was shown.
    pub fn delete_project_scrub_all_windows(&mut self, project_id: &str)
        ensures
            final(self)@ == forgotten(old(self)@, project_id@),
    {
        self.edit_windows(&WindowEdit::ForgetProject(project_id));
        self.service_panel_heights.remove(project_id);
        self.hook_panel_heights.remove(project_id);
    }

    /// Forget how projects that are gone were shown.
    pub fn forget_projects(&mut self, ids: &Vec<String>)
        ensures
            final(self)@ == all_forgotten(old(self)@, texts(ids@), ids@.len()),
    {
        let ghost start = self@;
        let ghost all = texts(ids@);
        let mut i: usize = 0;
        while i < ids.len()
            invariant
                i <= ids@.len(),
                all == texts(ids@),
                self@ == all_forgotten(start, all, i as nat),
            decreases ids@.len() - i,
        {
            proof {
                assert(all[i as int] == ids@[i as int]@);
            }
            self.delete_project_scrub_all_windows(ids[i].as_str());
            i = i + 1;
        }
    }

    /// Make every window forget folders that are gone.
    pub fn forget_folders(&mut self, ids: &Vec<String>)
        ensures
            final(self)@ == folders_forgotten(old(self)@, texts(ids@), ids@.len()),
    {
        let ghost start = self@;
        let ghost all = texts(ids@);
        let mut i: usize = 0;
        while i < ids.len()
            invariant
                i <= ids@.len(),
                all == texts(ids@),
                self@ == folders_forgotten(start, all, i as nat),
            decreases ids@.len() - i,
        {
            proof {
                assert(all[i as int] == ids@[i as int]@);
            }
            self.delete_folder_scrub_all_windows(ids[i].as_str());
            i = i + 1;
        }
    }

    /// Make every window forget a folder that is gone.
    pub fn delete_folder_scrub_all_windows(&mut self, folder_id: &str)
        ensures
            final(self)@ == edited_windows(old(self)@, WindowEditView::ForgetFolder(folder_id@)),
    {
        self.edit_windows(&WindowEdit::ForgetFolder(folder_id));
    }
}

/// Toggling a project twice in a window brings the window back.
pub proof fn toggling_twice_restores(w: WindowView, id: Seq<char>)
    ensures
        edited_window(edited_window(w, WindowEditView::Toggle(id)), WindowEditView::Toggle(id))
            == w,
{
    let once = edited_window(w, WindowEditView::Toggle(id));
    if w.hidden_project_ids.contains(id) {
        assert(once.hidden_project_ids.insert(id) =~= w.hidden_project_ids);
    } else {
        assert(once.hidden_project_ids.remove(id) =~= w.hidden_project_ids);
    }
}

/// Toggling projects twice in a window brings the window back.
pub proof fn toggling_all_twice_restores(w: WindowView, ids: Seq<Seq<char>>)
    ensures
        edited_window(
            edited_window(w, WindowEditView::ToggleAll(ids)),
            WindowEditView::ToggleAll(ids),
        ) == w,
{
    assert(toggled_ids(toggled_ids(w.hidden_project_ids, ids), ids) =~= w.hidden_project_ids);
}

/// Editing one window leaves every other window as it was.
pub proof fn editing_one_window_leaves_the_others(
    d: DataView,
    id: WindowId,
    other: WindowId,
    edit: WindowEditView,
)
    requires
        id != other,
    ensures
        window_in(edited_one_window(d, id, edit), other) == window_in(d, other),
{
    match id {
        WindowId::Main => {},
        WindowId::Extra(x) => {
            match extra_at(d.extra_windows, x) {
                None => {},
                Some(i) => {
                    extra_at_is_first(d.extra_windows, x);
                    let w = edited_window(d.extra_windows[i], edit);
                    match other {
                        WindowId::Main => {},
                        WindowId::Extra(y) => {
                            extra_at_ignores_update(d.extra_windows, i, w, y);
                            extra_at_is_first(d.extra_windows, y);
                        },
                    }
                },
            }
        },
    }
}

/// What `extra_at` finds is the first window with the id.
pub proof fn extra_at_is_first(ws: Seq<WindowView>, id: u128)
    ensures
        match extra_at(ws, id) {
            Some(i) => 0 <= i < ws.len() && ws[i].id == id,
            None => forall|j: int| 0 <= j < ws.len() ==> (#[trigger] ws[j]).id != id,
        },
    decreases ws.len(),
{
    if ws.len() > 0 {
        extra_at_is_first(ws.drop_last(), id);
        assert forall|j: int| 0 <= j < ws.len() - 1 implies #[trigger] ws[j] == ws.drop_last()[j] by {
        }
    }
}

/// Replacing a window by one with the same id moves no window.
pub proof fn extra_at_ignores_update(ws: Seq<WindowView>, i: int, w: WindowView, id: u128)
    requires
        0 <= i < ws.len(),
        w.id == ws[i].id,
    ensures
        extra_at(ws.update(i, w), id) == extra_at(ws, id),
    decreases ws.len(),
{
    let u = ws.update(i, w);
    if i < ws.len() - 1 {
        extra_at_ignores_update(ws.drop_last(), i, w, id);
        assert(u.drop_last() =~= ws.drop_last().update(i, w));
    } else {
        assert(u.drop_last() =~= ws.drop_last());
    }
}

/// Naming ids as the local daemon's hides what was hidden under its new name,
/// and nothing else.
pub proof fn local_daemon_names_keep_visibility(w: WindowView, id: Seq<char>)
    ensures
        w.hidden_project_ids.contains(id) ==> edited_window(
            w,
            WindowEditView::OfLocalDaemon,
        ).hidden_project_ids.contains(local_daemon_id(id)),
        forall|x: Seq<char>| #[trigger]
            edited_window(w, WindowEditView::OfLocalDaemon).hidden_project_ids.contains(x)
                ==> exists|y: Seq<char>|
                w.hidden_project_ids.contains(y) && x == local_daemon_id(y),
{
}

} // verus!
