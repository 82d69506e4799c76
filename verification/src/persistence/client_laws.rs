//! What a client takes over of a workspace that kept its windows for it, what a
//! first workspace holds, and how figures and directories are found.

use crate::claims::PathFactsView;
use crate::claude_env::{AgentNames, config_dir, home_expanded, pty_env, usual_dir};
use crate::collections::{lookup, lookup_after_store};
use crate::layout::LayoutView;
use crate::layout_terminals::{TerminalEditView, edited, local_daemon, local_daemon_id};
use crate::numbers::decimal;
use crate::persistence::load::first_workspace;
use crate::persistence::window_layout::{
    ClientView, client_of_workspace, filled_layouts, layouts_of, local_daemon_layouts,
    with_presentation,
};
use crate::process_memory::{MemoryView, first_figure, memory_text, project_memory};
use crate::settings::{SettingsView, dir_setting};
use crate::state::{DataView, ProjectView, WindowView, project_ids, project_in};
use crate::text::has_prefix;
use crate::windows::{WindowEditView, edited_window, local_daemon_keys};
use vstd::prelude::*;

verus! {

/// Whether no key of `s` names a connection.
pub open spec fn plain_keys<A>(s: Seq<(Seq<char>, A)>) -> bool {
    forall|i: int| 0 <= i < s.len() ==> !has_prefix((#[trigger] s[i]).0, "remote:"@)
}

proof fn local_names_differ(a: Seq<char>, b: Seq<char>)
    requires
        !has_prefix(a, "remote:"@),
        !has_prefix(b, "remote:"@),
        local_daemon_id(a) == local_daemon_id(b),
    ensures
        a == b,
{
    let head = "remote:"@ + local_daemon() + ":"@;
    assert((head + a).skip(head.len() as int) =~= a);
    assert((head + b).skip(head.len() as int) =~= b);
}

proof fn local_keys_are_found<A>(s: Seq<(Seq<char>, A)>, k: Seq<char>)
    requires
        plain_keys(s),
        !has_prefix(k, "remote:"@),
    ensures
        lookup(local_daemon_keys(s), local_daemon_id(k)) == lookup(s, k),
    decreases s.len(),
{
    if s.len() > 0 {
        let front = s.drop_last();
        assert forall|i: int| 0 <= i < front.len() implies !has_prefix(
            (#[trigger] front[i]).0,
            "remote:"@,
        ) by {
            assert(front[i] == s[i]);
        }
        local_keys_are_found(front, k);
        assert(s[s.len() - 1] == s.last());
        lookup_after_store(
            local_daemon_keys(front),
            local_daemon_id(s.last().0),
            s.last().1,
            local_daemon_id(k),
        );
        if local_daemon_id(s.last().0) == local_daemon_id(k) {
            local_names_differ(s.last().0, k);
        }
    }
}

proof fn local_layouts_are_found(s: Seq<(Seq<char>, LayoutView)>, k: Seq<char>)
    requires
        plain_keys(s),
        !has_prefix(k, "remote:"@),
    ensures
        lookup(local_daemon_layouts(s), local_daemon_id(k)) == match lookup(s, k) {
            Some(l) => Some(edited(l, TerminalEditView::OfLocalDaemon)),
            None => None,
        },
    decreases s.len(),
{
    if s.len() > 0 {
        let front = s.drop_last();
        assert forall|i: int| 0 <= i < front.len() implies !has_prefix(
            (#[trigger] front[i]).0,
            "remote:"@,
        ) by {
            assert(front[i] == s[i]);
        }
        local_layouts_are_found(front, k);
        assert(s[s.len() - 1] == s.last());
        lookup_after_store(
            local_daemon_layouts(front),
            local_daemon_id(s.last().0),
            edited(s.last().1, TerminalEditView::OfLocalDaemon),
            local_daemon_id(k),
        );
        if local_daemon_id(s.last().0) == local_daemon_id(k) {
            local_names_differ(s.last().0, k);
        }
    }
}

proof fn unkeyed_stays_plain<A>(s: Seq<(Seq<char>, A)>, k: Seq<char>)
    requires
        plain_keys(s),
    ensures
        plain_keys(crate::collections::unkeyed(s, k)),
    decreases s.len(),
{
    if s.len() > 0 {
        let front = s.drop_last();
        assert forall|i: int| 0 <= i < front.len() implies !has_prefix(
            (#[trigger] front[i]).0,
            "remote:"@,
        ) by {
            assert(front[i] == s[i]);
        }
        assert(s[s.len() - 1] == s.last());
        unkeyed_stays_plain(front, k);
    }
}

proof fn layouts_are_found(ps: Seq<ProjectView>, n: nat, i: int)
    requires
        n <= ps.len(),
        0 <= i < ps.len(),
        project_ids(ps).no_duplicates(),
        forall|j: int| 0 <= j < ps.len() ==> !has_prefix((#[trigger] ps[j]).id, "remote:"@),
    ensures
        plain_keys(layouts_of(ps, n)),
        lookup(layouts_of(ps, n), ps[i].id) == if i < n {
            ps[i].layout
        } else {
            None
        },
    decreases n,
{
    if n > 0 {
        let m = (n - 1) as nat;
        layouts_are_found(ps, m, i);
        if i != m {
            assert(project_ids(ps)[i] != project_ids(ps)[m as int]);
        }
        if let Some(l) = ps[m as int].layout {
            lookup_after_store(layouts_of(ps, m), ps[m as int].id, l, ps[i].id);
            unkeyed_stays_plain(layouts_of(ps, m), ps[m as int].id);
        }
    }
}

/// A client that takes its windows from a workspace shows each project with the
/// panes that it had there, its panels as high, under the local daemon's name.
pub proof fn clients_take_over_the_panes(d: DataView, i: int)
    requires
        0 <= i < d.projects.len(),
        project_ids(d.projects).no_duplicates(),
        forall|j: int|
            0 <= j < d.projects.len() ==> !has_prefix((#[trigger] d.projects[j]).id, "remote:"@),
        plain_keys(d.service_panel_heights),
        plain_keys(d.hook_panel_heights),
    ensures
        ({
            let c = client_of_workspace(d);
            let p = d.projects[i];
            let local = "remote:"@ + "local-daemon"@ + ":"@ + p.id;
            &&& lookup(c.project_layouts, local) == match p.layout {
                Some(l) => Some(edited(l, TerminalEditView::OfLocalDaemon)),
                None => None,
            }
            &&& lookup(c.service_panel_heights, local) == lookup(d.service_panel_heights, p.id)
            &&& lookup(c.hook_panel_heights, local) == lookup(d.hook_panel_heights, p.id)
            &&& c.main_window.id == d.main_window.id
            &&& c.main_window.os_bounds == d.main_window.os_bounds
            &&& c.extra_windows.len() == d.extra_windows.len()
        }),
{
    let p = d.projects[i];
    let n = d.projects.len();
    layouts_are_found(d.projects, n, i);
    local_layouts_are_found(layouts_of(d.projects, n), p.id);
    local_keys_are_found(d.service_panel_heights, p.id);
    local_keys_are_found(d.hook_panel_heights, p.id);
}

/// A window that is taken over shows each project and folder as it did, under the
/// local daemon's name: as wide, as collapsed, and filtered to the same folder.
pub proof fn windows_are_taken_over(w: WindowView, id: Seq<char>)
    requires
        !has_prefix(id, "remote:"@),
        plain_keys(w.project_widths),
        plain_keys(w.folder_collapsed),
    ensures
        ({
            let v = edited_window(w, WindowEditView::OfLocalDaemon);
            let local = "remote:"@ + "local-daemon"@ + ":"@ + id;
            &&& lookup(v.project_widths, local) == lookup(w.project_widths, id)
            &&& lookup(v.folder_collapsed, local) == lookup(w.folder_collapsed, id)
            &&& w.folder_filter == Some(id) ==> v.folder_filter == Some(local)
            &&& w.folder_filter is None ==> v.folder_filter is None
            &&& w.hidden_project_ids.contains(id) ==> v.hidden_project_ids.contains(local)
            &&& v.id == w.id
            &&& v.os_bounds == w.os_bounds
            &&& v.project_width_scale == w.project_width_scale
        }),
{
    local_keys_are_found(w.project_widths, id);
    local_keys_are_found(w.folder_collapsed, id);
}

proof fn missing_layouts_are_filled(
    target: Seq<(Seq<char>, LayoutView)>,
    source: Seq<(Seq<char>, LayoutView)>,
    n: nat,
    k: Seq<char>,
)
    requires
        n <= source.len(),
    ensures
        lookup(target, k) is Some ==> lookup(filled_layouts(target, source, n), k) == lookup(
            target,
            k,
        ),
        lookup(target, k) is None ==> (lookup(filled_layouts(target, source, n), k) is Some
            <==> exists|i: int| 0 <= i < n && (#[trigger] source[i]).0 == k),
    decreases n,
{
    if n > 0 {
        let m = (n - 1) as nat;
        missing_layouts_are_filled(target, source, m, k);
        let front = filled_layouts(target, source, m);
        lookup_after_store(front, source[n - 1].0, source[n - 1].1, k);
        if exists|i: int| 0 <= i < n && (#[trigger] source[i]).0 == k {
            let i = choose|i: int| 0 <= i < n && (#[trigger] source[i]).0 == k;
            if i < m {
                assert(source[i].0 == k);
            }
        }
    }
}

/// Where a client does not know how projects are shown, it takes over what the
/// other knows: the layouts that it lacks, and the heights where it has none. What
/// it knows itself stays.
pub proof fn clients_take_over_what_they_lack(
    target: ClientView,
    source: ClientView,
    k: Seq<char>,
    i: int,
)
    requires
        0 <= i < source.project_layouts.len(),
        source.project_layouts[i].0 == k,
    ensures
        ({
            let c = with_presentation(target, source);
            &&& lookup(c.project_layouts, k) is Some
            &&& lookup(target.project_layouts, k) is Some ==> lookup(c.project_layouts, k)
                == lookup(target.project_layouts, k)
            &&& target.service_panel_heights.len() == 0 ==> c.service_panel_heights
                == source.service_panel_heights
            &&& target.service_panel_heights.len() > 0 ==> c.service_panel_heights
                == target.service_panel_heights
            &&& target.hook_panel_heights.len() == 0 ==> c.hook_panel_heights
                == source.hook_panel_heights
            &&& target.hook_panel_heights.len() > 0 ==> c.hook_panel_heights
                == target.hook_panel_heights
            &&& c.main_window == target.main_window
            &&& c.extra_windows == target.extra_windows
        }),
{
    missing_layouts_are_filled(
        target.project_layouts,
        source.project_layouts,
        source.project_layouts.len(),
        k,
    );
}

/// A first workspace has one project, in the order and hidden nowhere, at the
/// user's home, with an empty terminal.
pub proof fn first_workspaces_are_ready(id: Seq<char>, home: Seq<char>, window: u128)
    ensures
        ({
            let d = first_workspace(id, Some(home), window);
            let p = project_in(d.projects, id);
            &&& d.projects.len() == 1
            &&& p is Some
            &&& (p->0).path == home
            &&& (p->0).layout is Some
            &&& (p->0).layout->0 is Terminal
            &&& (p->0).layout->0->terminal_id is None
            &&& d.project_order == seq![id]
            &&& !d.main_window.hidden_project_ids.contains(id)
            &&& d.main_window.folder_filter is None
            &&& d.folders.len() == 0
        }),
{
    let d = first_workspace(id, Some(home), window);
    let ids = project_ids(d.projects);
    assert(ids =~= seq![id]);
    crate::collections::position_is_first(ids, id);
    assert(ids[0] == id);
}

/// What a project uses is what its own connection reports of it.
pub proof fn figures_are_of_the_connection(
    s: Seq<(Seq<char>, MemoryView)>,
    k: int,
    id: Seq<char>,
    bytes: u64,
)
    requires
        0 <= k < s.len(),
        lookup(s[k].1.projects, id) == Some(bytes),
        forall|i: int, c: int|
            0 <= i < s.len() && 0 <= c < s[i].0.len() ==> #[trigger] s[i].0[c] != ':',
        forall|i: int, j: int|
            0 <= i < j < s.len() ==> (#[trigger] s[i]).0 != (#[trigger] s[j]).0,
    ensures
        project_memory(s, "remote:"@ + s[k].0 + ":"@ + id) == Some(bytes),
        project_memory(s, id) is Some ==> has_prefix(id, "remote:"@),
{
    let conn = s[k].0;
    let whole = "remote:"@ + conn + ":"@ + id;
    let rest = conn + ":"@ + id;
    let n = "remote:"@.len() as int;
    assert(whole.take(n) =~= "remote:"@);
    assert(whole.skip(n) =~= rest);
    only_one_speaks(s, k, id, s.len());
    let head = conn + ":"@;
    assert(rest.take(head.len() as int) =~= head);
    assert(rest.skip(head.len() as int) =~= id);
}

proof fn only_one_speaks(s: Seq<(Seq<char>, MemoryView)>, k: int, id: Seq<char>, n: nat)
    requires
        0 <= k < s.len(),
        n <= s.len(),
        forall|i: int, c: int|
            0 <= i < s.len() && 0 <= c < s[i].0.len() ==> #[trigger] s[i].0[c] != ':',
        forall|i: int, j: int|
            0 <= i < j < s.len() ==> (#[trigger] s[i]).0 != (#[trigger] s[j]).0,
    ensures
        first_figure(s, s[k].0 + ":"@ + id, n) == if k < n {
            lookup(s[k].1.projects, id)
        } else {
            None
        },
    decreases n,
{
    let rest = s[k].0 + ":"@ + id;
    if n > 0 {
        let m = n - 1;
        only_one_speaks(s, k, id, m as nat);
        let head = s[m].0 + ":"@;
        if m == k {
            assert(rest.take(head.len() as int) =~= head);
            assert(rest.skip(head.len() as int) =~= id);
        } else if has_prefix(rest, head) {
            reveal_strlit(":");
            let conn = s[k].0;
            let a = s[m].0;
            assert(head[a.len() as int] == ':');
            assert forall|c: int| 0 <= c < head.len() implies #[trigger] rest[c] == head[c] by {
                assert(rest.take(head.len() as int)[c] == head[c]);
            }
            if a.len() < conn.len() {
                assert(rest[a.len() as int] == conn[a.len() as int]);
                assert(s[k].0[a.len() as int] != ':');
            } else if conn.len() < a.len() {
                assert(rest[conn.len() as int] == ':');
                assert(head[conn.len() as int] == a[conn.len() as int]);
                assert(s[m].0[conn.len() as int] != ':');
            } else {
                assert forall|c: int| 0 <= c < a.len() implies a[c] == conn[c] by {
                    assert(rest[c] == head[c]);
                }
                assert(a =~= conn);
            }
            assert(false);
        }
    }
}

/// Memory is shown in whole megabytes below a gigabyte, and in gigabytes above:
/// what is a whole number of them is shown as that number.
pub proof fn whole_figures_are_shown_whole(mb: u64, gb: u64)
    requires
        mb < 1024,
        1 <= gb <= 1024,
    ensures
        memory_text((mb * 1048576) as u64) == decimal(mb as nat) + " MB"@,
        memory_text((gb * 1073741824) as u64) == decimal(gb as nat) + "."@ + decimal(0) + " GB"@,
{
    let bytes = (gb * 1073741824) as u64;
    assert(bytes == gb * 1073741824);
    let tenths = crate::process_memory::rounded(10 * bytes as nat, 1024 * 1048576);
    assert((10 * bytes as nat) % 1073741824 == 0 && (10 * bytes as nat) / 1073741824 == 10 * gb)
        by (nonlinear_arith)
        requires
            bytes == gb * 1073741824,
    ;
    assert(tenths == 10 * gb);
    assert(tenths / 10 == gb as nat && tenths % 10 == 0);
}

/// The directory to read is the one that the settings name, where it is there;
/// else the one that the environment names, where it is there; else the usual
/// one.
pub proof fn named_directories_come_first(
    windows: bool,
    s: SettingsView,
    env: Seq<char>,
    home: Option<Seq<char>>,
    there: Seq<Seq<char>>,
    names: AgentNames,
    dir: Seq<char>,
)
    ensures
        dir_setting(s, names.extension@) == Some(dir) && dir.len() > 0 && there.contains(
            home_expanded(windows, home, dir),
        ) ==> config_dir(windows, s, Some(env), home, there, names) == home_expanded(
            windows,
            home,
            dir,
        ),
        dir_setting(s, names.extension@) is None && env.len() > 0 && there.contains(
            home_expanded(windows, home, env),
        ) ==> config_dir(windows, s, Some(env), home, there, names) == home_expanded(
            windows,
            home,
            env,
        ),
        dir_setting(s, names.extension@) is None ==> config_dir(windows, s, None, home, there, names)
            == usual_dir(windows, home, names),
{
}

/// Terminals are told of a directory only where it is not the usual one; with
/// several profiles they are always told of it.
pub proof fn terminals_are_told_of_the_directory(
    f: PathFactsView,
    home: Option<Seq<char>>,
    names: AgentNames,
    dir: Seq<char>,
    parent_has: bool,
)
    ensures
        ({
            let told = pty_env(f, home, names, dir, true, parent_has);
            &&& told.len() == 1
            &&& told[0].1 is Some ==> told[0].1 == Some(dir)
            &&& told[0].1 is None ==> home is Some
            &&& home is None ==> told[0].1 == Some(dir)
        }),
{
}

} // verus!
