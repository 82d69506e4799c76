//! What spaces, the settings and the focus promise.

use crate::collections::{contains_last, lookup};
use crate::extensions_state::{
    ConnectionView, ExtensionView, connection_at, connections_by, extension_at, shown_extensions,
};
use crate::focus::{FocusView, focus_on, fullscreen_off, fullscreen_on, modal_off, modal_on};
use crate::layout::ShellView;
use crate::settings::{
    ScopeView, SettingsView, SpaceView, setting_of, space_index, space_index_is_first, with_default,
};
use crate::spaces::{
    connection_refusal, hyphenated, ids_in, names_in, neighbour, new_space, reading, remove_refusal,
    rename_refusal, slug, space_removed, spaces_without,
};
use crate::state::{ProjectView, agent_session, default_space_id};
use crate::text::trimmed;
use crate::wsl::{ResolvedBackend, WslView, detected_shell, outlives};
use vstd::prelude::*;

verus! {

/// The projects of a space are those that are in it, and no others.
pub proof fn spaces_hold_their_projects(ps: Seq<ProjectView>, space: Seq<char>, x: Seq<char>)
    ensures
        ids_in(ps, space).contains(x) <==> exists|i: int|
            0 <= i < ps.len() && (#[trigger] ps[i]).id == x && ps[i].space_id == space,
    decreases ps.len(),
{
    if ps.len() > 0 {
        let front = ps.drop_last();
        spaces_hold_their_projects(front, space, x);
        let ids = ids_in(front, space);
        contains_last(ids.push(ps.last().id));
        assert(ids.push(ps.last().id).drop_last() =~= ids);
        if exists|i: int|
            0 <= i < front.len() && (#[trigger] front[i]).id == x && front[i].space_id == space {
            let i = choose|i: int|
                0 <= i < front.len() && (#[trigger] front[i]).id == x && front[i].space_id == space;
            assert(ps[i] == front[i]);
        }
        if exists|i: int| 0 <= i < ps.len() && (#[trigger] ps[i]).id == x && ps[i].space_id == space {
            let i = choose|i: int|
                0 <= i < ps.len() && (#[trigger] ps[i]).id == x && ps[i].space_id == space;
            if i < front.len() {
                assert(front[i] == ps[i]);
            }
        }
        if ps.last().id == x && ps.last().space_id == space {
            assert(ps[ps.len() - 1].id == x);
        }
    }
}

/// A space is made with the name it is given and the tasks it is to show; it
/// reads the connection that is named.
pub proof fn new_spaces_are_as_asked(
    s: SettingsView,
    name: Seq<char>,
    connection: Seq<char>,
    tasks: ScopeView,
)
    ensures
        new_space(s, name, Some(connection), tasks).name == trimmed(name),
        new_space(s, name, Some(connection), tasks).tasks == tasks,
        trimmed(connection).len() > 0 ==> new_space(s, name, Some(connection), tasks).connection
            == Some(trimmed(connection)),
        trimmed(connection).len() == 0 ==> new_space(s, name, Some(connection), tasks).connection
            is None,
        new_space(s, name, None, tasks).connection is None,
        new_space(s, name, None, tasks).folders.len() == 0,
{
}

/// The id of a space is made of small letters, digits and hyphens alone, and it
/// has at least one of them.
pub proof fn space_ids_are_plain(s: Seq<char>, i: int)
    ensures
        slug(s).len() > 0,
        0 <= i < slug(s).len() ==> {
            let c = slug(s)[i];
            ('a' <= c <= 'z') || ('0' <= c <= '9') || c == '-'
        },
{
    reveal_strlit("space");
    hyphenated_is_plain(s);
}

proof fn hyphenated_is_plain(s: Seq<char>)
    ensures
        forall|i: int|
            0 <= i < hyphenated(s).len() ==> {
                let c = #[trigger] hyphenated(s)[i];
                ('a' <= c <= 'z') || ('0' <= c <= '9') || c == '-'
            },
    decreases s.len(),
{
    if s.len() > 0 {
        hyphenated_is_plain(s.drop_last());
        let front = hyphenated(s.drop_last());
        assert forall|i: int| 0 <= i < hyphenated(s).len() implies {
            let c = #[trigger] hyphenated(s)[i];
            ('a' <= c <= 'z') || ('0' <= c <= '9') || c == '-'
        } by {
            if i < front.len() {
                assert(hyphenated(s)[i] == front[i]);
            }
        }
    }
}

/// A space may be renamed where it is there, is not the one that is always
/// there, and gets a name; it may be removed where it is there and is not that
/// one.
pub proof fn spaces_are_kept_for_cause(s: SettingsView, id: Seq<char>, name: Seq<char>)
    ensures
        rename_refusal(s, id, name) is None <==> {
            &&& trimmed(name).len() > 0
            &&& id != default_space_id()
            &&& exists|i: int| 0 <= i < s.spaces.len() && (#[trigger] s.spaces[i]).id == id
        },
        remove_refusal(s, id) is None <==> {
            &&& id != default_space_id()
            &&& exists|i: int| 0 <= i < s.spaces.len() && (#[trigger] s.spaces[i]).id == id
        },
{
    space_index_is_first(s.spaces, id, s.spaces.len());
}

/// A removed space is gone, and no other; where it was showing, the space that is
/// always there shows.
pub proof fn removing_takes_that_space(s: SettingsView, id: Seq<char>, x: SpaceView)
    ensures
        space_removed(s, id).spaces.contains(x) <==> s.spaces.contains(x) && x.id != id,
        s.active_space == id ==> space_removed(s, id).active_space == default_space_id(),
        s.active_space != id ==> space_removed(s, id).active_space == s.active_space,
        space_removed(s, id).extension_settings == s.extension_settings,
{
    only_that_space_goes(s.spaces, id, x);
}

proof fn only_that_space_goes(s: Seq<SpaceView>, id: Seq<char>, x: SpaceView)
    ensures
        spaces_without(s, id).contains(x) <==> s.contains(x) && x.id != id,
    decreases s.len(),
{
    if s.len() > 0 {
        let front = s.drop_last();
        let kept = spaces_without(front, id);
        only_that_space_goes(front, id, x);
        if s.contains(x) {
            let i = choose|i: int| 0 <= i < s.len() && s[i] == x;
            if i < front.len() {
                assert(front[i] == x);
            }
        }
        if front.contains(x) {
            let i = choose|i: int| 0 <= i < front.len() && front[i] == x;
            assert(s[i] == x);
        }
        if s.last() == x {
            assert(s[s.len() - 1] == x);
        }
        let whole = kept.push(s.last());
        if whole.contains(x) {
            let i = choose|i: int| 0 <= i < whole.len() && whole[i] == x;
            if i < kept.len() {
                assert(kept[i] == x);
            }
        }
        if kept.contains(x) {
            let i = choose|i: int| 0 <= i < kept.len() && kept[i] == x;
            assert(whole[i] == x);
        }
        assert(whole[whole.len() - 1] == s.last());
    }
}

/// A connection may be forgotten exactly where no space reads it.
pub proof fn connections_in_use_are_kept(s: Seq<SpaceView>, c: Seq<char>)
    ensures
        connection_refusal(s, c) is None <==> forall|i: int|
            0 <= i < s.len() ==> (#[trigger] s[i]).connection != Some(c),
{
    readers_are_found(s, c);
}

proof fn readers_are_found(s: Seq<SpaceView>, c: Seq<char>)
    ensures
        reading(s, c).len() == 0 <==> forall|i: int|
            0 <= i < s.len() ==> (#[trigger] s[i]).connection != Some(c),
    decreases s.len(),
{
    if s.len() > 0 {
        let front = s.drop_last();
        readers_are_found(front, c);
        assert(s[s.len() - 1] == s.last());
        if reading(front, c).len() == 0 {
            assert forall|i: int| 0 <= i < s.len() && i < front.len() implies (
            #[trigger] s[i]).connection != Some(c) by {
                assert(front[i].connection != Some(c));
            }
        } else {
            let i = choose|i: int| 0 <= i < front.len() && (#[trigger] front[i]).connection == Some(
                c,
            );
            assert(s[i].connection == Some(c));
        }
    }
}

/// A step goes to the next space, or to the one before, and round at the ends.
pub proof fn steps_go_round(s: SettingsView, i: int)
    requires
        0 <= i < s.spaces.len(),
        s.spaces[i].id == s.active_space,
        forall|j: int| 0 <= j < i ==> (#[trigger] s.spaces[j]).id != s.active_space,
    ensures
        neighbour(s, true) == Some(
            if i + 1 < s.spaces.len() {
                i + 1
            } else {
                0
            },
        ),
        neighbour(s, false) == Some(
            if i > 0 {
                i - 1
            } else {
                s.spaces.len() - 1
            },
        ),
{
    space_index_is_first(s.spaces, s.active_space, s.spaces.len());
    let k = space_index(s.spaces, s.active_space);
    if k is Some && k->0 > i {
        assert(s.spaces[i].id != s.active_space);
    }
}

/// A focused terminal has the keyboard; a terminal that fills the window has it
/// too, and its project is the one that shows.
pub proof fn the_focus_is_where_it_was_put(
    f: FocusView,
    project: Seq<char>,
    path: Seq<usize>,
    terminal: Seq<char>,
)
    ensures
        focus_on(f, project, path).focused == Some((project, path)),
        !focus_on(f, project, path).modal,
        focus_on(f, project, path).fullscreen == f.fullscreen,
        focus_on(f, project, path).focused_project_id == f.focused_project_id,
        fullscreen_on(f, project, path, terminal).focused == Some((project, path)),
        fullscreen_on(f, project, path, terminal).focused_project_id == Some(project),
        fullscreen_on(f, project, path, terminal).fullscreen is Some,
        (fullscreen_on(f, project, path, terminal).fullscreen->0).terminal_id == terminal,
        (fullscreen_on(f, project, path, terminal).fullscreen->0).project_id == project,
        fullscreen_off(fullscreen_on(f, project, path, terminal)).fullscreen is None,
        modal_on(f).modal,
        modal_on(f).focused == f.focused,
        modal_off(modal_on(f)).focused == f.focused,
{
}

/// A project keeps its own shell; one without gets that of the distribution that
/// it lies in. Sessions outlive the program only in a distribution that keeps
/// them alive.
pub proof fn shells_follow_the_path(
    w: WslView,
    own: ShellView,
    path: Seq<char>,
    distro: Seq<char>,
)
    ensures
        detected_shell(w, Some(own), path) == Some(own),
        w.windows && lookup(w.distros, path) == Some(distro) ==> detected_shell(w, None, path)
            == Some(ShellView::Wsl { distro: Some(distro) }),
        !w.windows || lookup(w.distros, path) is None ==> detected_shell(w, None, path) is None,
        outlives(w, Some(own)) ==> w.windows && own is Wsl,
        !outlives(w, None),
        w.windows && lookup(w.backends, distro) is Some ==> outlives(
            w,
            Some(ShellView::Wsl { distro: Some(distro) }),
        ) == (lookup(w.backends, distro) != Some(ResolvedBackend::NoBackend)),
        w.windows ==> outlives(w, Some(ShellView::Wsl { distro: None })) == (w.default_backend
            != ResolvedBackend::NoBackend),
{
}

/// What the settings say of an extension is the last that they say of it.
pub proof fn the_last_setting_counts(
    s: Seq<(Seq<char>, crate::outside::JsonView)>,
    name: Seq<char>,
    k: int,
    n: nat,
)
    requires
        n <= s.len(),
        0 <= k < n,
        s[k].0 == name,
        forall|j: int| k < j < n ==> (#[trigger] s[j]).0 != name,
    ensures
        setting_of(s, name, n) == Some(s[k].1),
    decreases n,
{
    if k < n - 1 {
        assert(s[n - 1].0 != name);
        the_last_setting_counts(s, name, k, (n - 1) as nat);
    }
}

/// An extension shows exactly where it is enabled and has a view.
pub proof fn enabled_extensions_show(s: Seq<ExtensionView>, x: ExtensionView)
    ensures
        shown_extensions(s).contains(x) <==> s.contains(x) && x.enabled && x.view_title is Some,
    decreases s.len(),
{
    if s.len() > 0 {
        let front = s.drop_last();
        let kept = shown_extensions(front);
        enabled_extensions_show(front, x);
        if s.contains(x) {
            let i = choose|i: int| 0 <= i < s.len() && s[i] == x;
            if i < front.len() {
                assert(front[i] == x);
            }
        }
        if front.contains(x) {
            let i = choose|i: int| 0 <= i < front.len() && front[i] == x;
            assert(s[i] == x);
        }
        if s.last() == x {
            assert(s[s.len() - 1] == x);
        }
        let whole = kept.push(s.last());
        if whole.contains(x) {
            let i = choose|i: int| 0 <= i < whole.len() && whole[i] == x;
            if i < kept.len() {
                assert(kept[i] == x);
            }
        }
        if kept.contains(x) {
            let i = choose|i: int| 0 <= i < kept.len() && kept[i] == x;
            assert(whole[i] == x);
        }
        assert(whole[whole.len() - 1] == s.last());
    }
}

/// An extension is found by its connection and its id, and the first one that has
/// them is taken.
pub proof fn extensions_are_found_by_key(s: Seq<ExtensionView>, key: Seq<char>, n: nat)
    requires
        n <= s.len(),
    ensures
        match extension_at(s, key, n) {
            Some(i) => 0 <= i < n && s[i].connection_id + "/"@ + s[i].id == key && forall|j: int|
                0 <= j < i ==> (#[trigger] s[j]).connection_id + "/"@ + s[j].id != key,
            None => forall|j: int|
                0 <= j < n ==> (#[trigger] s[j]).connection_id + "/"@ + s[j].id != key,
        },
    decreases n,
{
    if n > 0 {
        extensions_are_found_by_key(s, key, (n - 1) as nat);
    }
}

/// A connection is found by its id, and the first one that has it is taken.
pub proof fn connections_are_found_by_id(s: Seq<ConnectionView>, id: Seq<char>, n: nat)
    requires
        n <= s.len(),
    ensures
        match connection_at(s, id, n) {
            Some(i) => 0 <= i < n && s[i].id == id && forall|j: int|
                0 <= j < i ==> (#[trigger] s[j]).id != id,
            None => forall|j: int| 0 <= j < n ==> (#[trigger] s[j]).id != id,
        },
    decreases n,
{
    if n > 0 {
        connections_are_found_by_id(s, id, (n - 1) as nat);
    }
}

/// The local connections, or the others, are all those that are, or are not, of
/// this machine.
pub proof fn connections_are_told_apart(s: Seq<ConnectionView>, local: bool, x: ConnectionView)
    ensures
        connections_by(s, local).contains(x) <==> s.contains(x) && x.local == local,
    decreases s.len(),
{
    if s.len() > 0 {
        let front = s.drop_last();
        let kept = connections_by(front, local);
        connections_are_told_apart(front, local, x);
        if s.contains(x) {
            let i = choose|i: int| 0 <= i < s.len() && s[i] == x;
            if i < front.len() {
                assert(front[i] == x);
            }
        }
        if front.contains(x) {
            let i = choose|i: int| 0 <= i < front.len() && front[i] == x;
            assert(s[i] == x);
        }
        if s.last() == x {
            assert(s[s.len() - 1] == x);
        }
        let whole = kept.push(s.last());
        if whole.contains(x) {
            let i = choose|i: int| 0 <= i < whole.len() && whole[i] == x;
            if i < kept.len() {
                assert(kept[i] == x);
            }
        }
        if kept.contains(x) {
            let i = choose|i: int| 0 <= i < kept.len() && kept[i] == x;
            assert(whole[i] == x);
        }
        assert(whole[whole.len() - 1] == s.last());
    }
}

/// The names in a space are those of its projects that are agent sessions, or of
/// those that are none.
pub proof fn names_are_of_the_space(
    ps: Seq<ProjectView>,
    space: Seq<char>,
    agents: bool,
    x: Seq<char>,
)
    ensures
        names_in(ps, space, agents).contains(x) <==> exists|i: int|
            0 <= i < ps.len() && (#[trigger] ps[i]).name == x && ps[i].space_id == space
                && agent_session(ps[i].session) == agents,
    decreases ps.len(),
{
    if ps.len() > 0 {
        let front = ps.drop_last();
        names_are_of_the_space(front, space, agents, x);
        let names = names_in(front, space, agents);
        contains_last(names.push(ps.last().name));
        assert(names.push(ps.last().name).drop_last() =~= names);
        if exists|i: int|
            0 <= i < front.len() && (#[trigger] front[i]).name == x && front[i].space_id == space
                && agent_session(front[i].session) == agents {
            let i = choose|i: int|
                0 <= i < front.len() && (#[trigger] front[i]).name == x && front[i].space_id
                    == space && agent_session(front[i].session) == agents;
            assert(ps[i] == front[i]);
        }
        if exists|i: int|
            0 <= i < ps.len() && (#[trigger] ps[i]).name == x && ps[i].space_id == space
                && agent_session(ps[i].session) == agents {
            let i = choose|i: int|
                0 <= i < ps.len() && (#[trigger] ps[i]).name == x && ps[i].space_id == space
                    && agent_session(ps[i].session) == agents;
            if i < front.len() {
                assert(front[i] == ps[i]);
            }
        }
        if ps.last().name == x && ps.last().space_id == space && agent_session(ps.last().session)
            == agents {
            assert(ps[ps.len() - 1].name == x);
        }
    }
}

/// The space that is always there comes first where it was missing; all other
/// spaces stay, in their order, and so does the one that shows.
pub proof fn the_default_space_joins_the_others(s: SettingsView)
    ensures
        ({
            let t = with_default(s);
            let had = exists|i: int|
                0 <= i < s.spaces.len() && (#[trigger] s.spaces[i]).id == default_space_id();
            &&& had ==> t == s
            &&& !had ==> {
                &&& t.spaces.len() == s.spaces.len() + 1
                &&& t.spaces[0].id == default_space_id()
                &&& t.spaces[0].name == "Default"@
                &&& t.spaces.skip(1) == s.spaces
                &&& t.active_space == s.active_space
                &&& t.extension_settings == s.extension_settings
            }
        }),
{
    space_index_is_first(s.spaces, default_space_id(), s.spaces.len());
    let t = with_default(s);
    if space_index(s.spaces, default_space_id()) is None {
        assert(t.spaces.skip(1) =~= s.spaces);
    }
}

} // verus!
