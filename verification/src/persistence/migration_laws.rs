//! What an older workspace keeps when it is brought up to date.

use crate::collections::contains_last;
use crate::outside::{JsonView, json_read, json_written};
use crate::persistence::legacy::{
    at, collapsed_id, collapsed_ids, elements, flag, gathered_window, hidden_id, hidden_ids,
    main_window_of, migrated_file, migrated_object, version_of, window_collapsing, window_hiding,
    window_with_widths, with_marks, with_texts,
};
use crate::persistence::load::present_content;
use vstd::prelude::*;

verus! {

/// Whether `j` is a project called `id` that an older version did not show.
pub open spec fn was_hidden(j: JsonView, id: Seq<char>) -> bool {
    match j {
        JsonView::Object(m) => at(m, "id"@) == Some(JsonView::Text(id)) && match flag(
            at(m, "show_in_overview"@),
        ) {
            Some(shown) => !shown,
            None => flag(at(m, "is_visible"@)) == Some(false),
        },
        _ => false,
    }
}

/// Whether `j` is a folder called `id` that an older version had collapsed.
pub open spec fn was_collapsed(j: JsonView, id: Seq<char>) -> bool {
    match j {
        JsonView::Object(m) => at(m, "id"@) == Some(JsonView::Text(id)) && at(m, "collapsed"@)
            == Some(JsonView::Bool(true)),
        _ => false,
    }
}

/// The main window that an older workspace has once it is brought up to date.
pub open spec fn new_window(m: Map<Seq<char>, JsonView>) -> Map<Seq<char>, JsonView> {
    match at(migrated_object(m), "main_window"@) {
        Some(JsonView::Object(w)) => w,
        _ => Map::empty(),
    }
}

proof fn names_of_members()
    ensures
        "id"@ != "show_in_overview"@,
        "id"@ != "is_visible"@,
        "id"@ != "collapsed"@,
        "show_in_overview"@ != "is_visible"@,
        "hidden_project_ids"@ != "project_widths"@,
        "hidden_project_ids"@ != "folder_collapsed"@,
        "folder_collapsed"@ != "project_widths"@,
        "main_window"@ != "project_widths"@,
        "main_window"@ != "projects"@,
        "main_window"@ != "folders"@,
        "project_widths"@ != "projects"@,
        "project_widths"@ != "folders"@,
        "projects"@ != "folders"@,
{
    reveal_strlit("id");
    reveal_strlit("show_in_overview");
    reveal_strlit("is_visible");
    reveal_strlit("collapsed");
    reveal_strlit("hidden_project_ids");
    reveal_strlit("folder_collapsed");
    reveal_strlit("project_widths");
    reveal_strlit("main_window");
    reveal_strlit("projects");
    reveal_strlit("folders");
    assert("id"@.len() == 2);
    assert("show_in_overview"@.len() == 16);
    assert("is_visible"@.len() == 10);
    assert("collapsed"@.len() == 9);
    assert("hidden_project_ids"@.len() == 18);
    assert("folder_collapsed"@.len() == 16);
    assert("project_widths"@.len() == 14);
    assert("main_window"@.len() == 11);
    assert("projects"@.len() == 8);
    assert("folders"@.len() == 7);
}

proof fn hidden_ids_hold(a: Seq<JsonView>, n: nat, id: Seq<char>)
    requires
        n <= a.len(),
    ensures
        hidden_ids(a, n).contains(id) <==> exists|i: int|
            0 <= i < n && was_hidden(#[trigger] a[i], id),
    decreases n,
{
    names_of_members();
    if n > 0 {
        let m = (n - 1) as nat;
        hidden_ids_hold(a, m, id);
        let front = hidden_ids(a, m);
        assert(hidden_id(a[n - 1]) == Some(id) <==> was_hidden(a[n - 1], id));
        if let Some(x) = hidden_id(a[n - 1]) {
            contains_last(front.push(x));
            assert(front.push(x).drop_last() =~= front);
        }
        if exists|i: int| 0 <= i < n && was_hidden(#[trigger] a[i], id) {
            let i = choose|i: int| 0 <= i < n && was_hidden(#[trigger] a[i], id);
            if i < m {
                assert(was_hidden(a[i], id));
            }
        }
    }
}

proof fn collapsed_ids_hold(a: Seq<JsonView>, n: nat, id: Seq<char>)
    requires
        n <= a.len(),
    ensures
        collapsed_ids(a, n).contains(id) <==> exists|i: int|
            0 <= i < n && was_collapsed(#[trigger] a[i], id),
    decreases n,
{
    names_of_members();
    if n > 0 {
        let m = (n - 1) as nat;
        collapsed_ids_hold(a, m, id);
        let front = collapsed_ids(a, m);
        assert(collapsed_id(a[n - 1]) == Some(id) <==> was_collapsed(a[n - 1], id));
        if let Some(x) = collapsed_id(a[n - 1]) {
            contains_last(front.push(x));
            assert(front.push(x).drop_last() =~= front);
        }
        if exists|i: int| 0 <= i < n && was_collapsed(#[trigger] a[i], id) {
            let i = choose|i: int| 0 <= i < n && was_collapsed(#[trigger] a[i], id);
            if i < m {
                assert(was_collapsed(a[i], id));
            }
        }
    }
}

proof fn texts_are_behind(a: Seq<JsonView>, ids: Seq<Seq<char>>, n: nat, id: Seq<char>)
    requires
        n <= ids.len(),
    ensures
        with_texts(a, ids, n).contains(JsonView::Text(id)) <==> a.contains(JsonView::Text(id))
            || ids.take(n as int).contains(id),
    decreases n,
{
    if n == 0 {
        assert(ids.take(0) =~= Seq::<Seq<char>>::empty());
    } else {
        let m = (n - 1) as nat;
        texts_are_behind(a, ids, m, id);
        let front = with_texts(a, ids, m);
        let last = JsonView::Text(ids[n - 1]);
        contains_last(ids.take(n as int));
        assert(ids.take(n as int).drop_last() =~= ids.take(n - 1));
        assert(ids.take(n as int).last() == ids[n - 1]);
        let whole = front.push(last);
        if whole.contains(JsonView::Text(id)) {
            let i = choose|i: int| 0 <= i < whole.len() && whole[i] == JsonView::Text(id);
            if i < front.len() {
                assert(front[i] == JsonView::Text(id));
            }
        }
        if front.contains(JsonView::Text(id)) {
            let i = choose|i: int| 0 <= i < front.len() && front[i] == JsonView::Text(id);
            assert(whole[i] == JsonView::Text(id));
        }
        if ids[n - 1] == id {
            assert(whole[whole.len() - 1] == JsonView::Text(id));
        }
    }
}

proof fn marks_are_set(m: Map<Seq<char>, JsonView>, ids: Seq<Seq<char>>, n: nat, id: Seq<char>)
    requires
        n <= ids.len(),
    ensures
        at(with_marks(m, ids, n), id) == if ids.take(n as int).contains(id) {
            Some(JsonView::Bool(true))
        } else {
            at(m, id)
        },
    decreases n,
{
    if n == 0 {
        assert(ids.take(0) =~= Seq::<Seq<char>>::empty());
    } else {
        marks_are_set(m, ids, (n - 1) as nat, id);
        contains_last(ids.take(n as int));
        assert(ids.take(n as int).drop_last() =~= ids.take(n - 1));
        assert(ids.take(n as int).last() == ids[n - 1]);
    }
}

/// A project that an older version did not show is hidden in the main window,
/// beside those that were hidden there already; no other project gets hidden.
pub proof fn hidden_projects_stay_hidden(
    m: Map<Seq<char>, JsonView>,
    ps: Seq<JsonView>,
    had: Seq<JsonView>,
    id: Seq<char>,
)
    requires
        version_of(m) < 2,
        at(m, "projects"@) == Some(JsonView::Array(ps)),
        at(main_window_of(m), "hidden_project_ids"@) == Some(JsonView::Array(had)) || (at(
            main_window_of(m),
            "hidden_project_ids"@,
        ) is None && had.len() == 0),
    ensures
        ({
            let hidden = match elements(at(new_window(m), "hidden_project_ids"@)) {
                Some(a) => a,
                None => Seq::empty(),
            };
            hidden.contains(JsonView::Text(id)) <==> had.contains(JsonView::Text(id)) || exists|
                i: int,
            |
                0 <= i < ps.len() && was_hidden(#[trigger] ps[i], id)
        }),
{
    names_of_members();
    let ids = hidden_ids(ps, ps.len());
    hidden_ids_hold(ps, ps.len(), id);
    texts_are_behind(had, ids, ids.len(), id);
    assert(ids.take(ids.len() as int) =~= ids);
    let w = window_with_widths(main_window_of(m), m.remove("main_window"@));
    assert(at(w, "hidden_project_ids"@) == at(main_window_of(m), "hidden_project_ids"@));
    assert(new_window(m) == gathered_window(m));
    assert(at(gathered_window(m), "hidden_project_ids"@) == at(
        window_hiding(w, ids),
        "hidden_project_ids"@,
    ));
    if at(main_window_of(m), "hidden_project_ids"@) is None {
        assert(had =~= Seq::<JsonView>::empty());
    }
}

/// A folder that an older version had collapsed is collapsed in the main window,
/// beside those that were there already; no other folder is.
pub proof fn collapsed_folders_stay_collapsed(
    m: Map<Seq<char>, JsonView>,
    fs: Seq<JsonView>,
    had: Map<Seq<char>, JsonView>,
    id: Seq<char>,
)
    requires
        version_of(m) < 2,
        at(m, "folders"@) == Some(JsonView::Array(fs)),
        at(main_window_of(m), "folder_collapsed"@) == Some(JsonView::Object(had)) || (at(
            main_window_of(m),
            "folder_collapsed"@,
        ) is None && had == Map::<Seq<char>, JsonView>::empty()),
    ensures
        ({
            let collapsed = match at(new_window(m), "folder_collapsed"@) {
                Some(JsonView::Object(c)) => c,
                _ => Map::empty(),
            };
            at(collapsed, id) == if exists|i: int|
                0 <= i < fs.len() && was_collapsed(#[trigger] fs[i], id) {
                Some(JsonView::Bool(true))
            } else {
                at(had, id)
            }
        }),
{
    names_of_members();
    let ids = collapsed_ids(fs, fs.len());
    collapsed_ids_hold(fs, fs.len(), id);
    marks_are_set(had, ids, ids.len(), id);
    assert(ids.take(ids.len() as int) =~= ids);
    let w = window_with_widths(main_window_of(m), m.remove("main_window"@));
    assert(new_window(m) == gathered_window(m));
    let hiding = match elements(at(m, "projects"@)) {
        Some(ps) => window_hiding(w, hidden_ids(ps, ps.len())),
        None => w,
    };
    assert(at(hiding, "folder_collapsed"@) == at(main_window_of(m), "folder_collapsed"@));
    assert(gathered_window(m) == window_collapsing(hiding, ids));
}

/// The widths of an older workspace are in its main window afterwards, unless
/// the window had its own.
pub proof fn widths_move_to_the_window(m: Map<Seq<char>, JsonView>)
    requires
        version_of(m) < 2,
    ensures
        at(new_window(m), "project_widths"@) == match at(main_window_of(m), "project_widths"@) {
            Some(x) => Some(x),
            None => at(m, "project_widths"@),
        },
        at(migrated_object(m), "project_widths"@) is None,
{
    names_of_members();
    assert(new_window(m) == gathered_window(m));
}

/// Nothing else of an older workspace changes: neither its other members, nor a
/// project's other members, nor a folder's.
pub proof fn migrating_keeps_the_rest(
    m: Map<Seq<char>, JsonView>,
    key: Seq<char>,
    i: int,
    member: Seq<char>,
)
    ensures
        key != "main_window"@ && key != "project_widths"@ && key != "projects"@ && key
            != "folders"@ ==> at(migrated_object(m), key) == at(m, key),
        match at(m, "projects"@) {
            Some(JsonView::Array(ps)) => match at(migrated_object(m), "projects"@) {
                Some(JsonView::Array(qs)) => {
                    &&& qs.len() == ps.len()
                    &&& 0 <= i < ps.len() && ps[i] is Object ==> qs[i] is Object && (member
                        != "show_in_overview"@ && member != "is_visible"@ ==> at(
                        qs[i]->Object_0,
                        member,
                    ) == at(ps[i]->Object_0, member))
                    &&& 0 <= i < ps.len() && !(ps[i] is Object) ==> qs[i] == ps[i]
                },
                _ => false,
            },
            o => at(migrated_object(m), "projects"@) == o,
        },
        match at(m, "folders"@) {
            Some(JsonView::Array(fs)) => match at(migrated_object(m), "folders"@) {
                Some(JsonView::Array(gs)) => {
                    &&& gs.len() == fs.len()
                    &&& 0 <= i < fs.len() && fs[i] is Object ==> gs[i] is Object && (member
                        != "collapsed"@ ==> at(gs[i]->Object_0, member) == at(
                        fs[i]->Object_0,
                        member,
                    ))
                    &&& 0 <= i < fs.len() && !(fs[i] is Object) ==> gs[i] == fs[i]
                },
                _ => false,
            },
            o => at(migrated_object(m), "folders"@) == o,
        },
        version_of(m) >= 2 ==> migrated_object(m) == m,
{
    names_of_members();
    if version_of(m) < 2 {
        let a = m.remove("main_window"@).remove("project_widths"@);
        assert(at(a, "projects"@) == at(m, "projects"@));
        assert(at(a, "folders"@) == at(m, "folders"@));
    }
}

/// A file that wraps a workspace has that workspace brought up to date, and
/// nothing else of it changes; any other file is brought up to date itself.
pub proof fn wrapped_workspaces_are_migrated(m: Map<Seq<char>, JsonView>, key: Seq<char>)
    ensures
        match at(m, "workspace"@) {
            Some(JsonView::Object(w)) => match migrated_file(JsonView::Object(m)) {
                JsonView::Object(n) => {
                    &&& at(n, "workspace"@) == Some(JsonView::Object(migrated_object(w)))
                    &&& key != "workspace"@ ==> at(n, key) == at(m, key)
                },
                _ => false,
            },
            _ => migrated_file(JsonView::Object(m)) == JsonView::Object(migrated_object(m)),
        },
{
}

/// What is parsed is the file brought up to date; where that cannot be had, it is
/// the file as it is.
pub proof fn files_are_parsed_up_to_date(content: Seq<char>, j: JsonView, text: Seq<char>)
    ensures
        json_read(content) == Some(j) && json_written(migrated_file(j)) == Some(text)
            ==> present_content(content) == text,
        json_read(content) is None ==> present_content(content) == content,
{
}

} // verus!
