//! Older files: what they keep in places that have since moved.
//!
//! A file from before windows were kept has a visibility flag on each project,
//! a collapsed flag on each folder, and one map of column widths. All three move
//! into the main window before the file is read as a workspace, which would
//! drop them.

use crate::outside::{
    JsonView, array_value, as_bool, as_str, as_u64, bool_value, empty_object, insert_member,
    into_array, is_object, json_read, json_view, json_views, json_written, member, number_as_u64,
    read_json, remove_member, text_value, write_json,
};
use crate::state::{DataView, WorkspaceData};
use crate::text::texts;
use vstd::prelude::*;

verus! {

/// The present version of a workspace.
pub const WORKSPACE_VERSION: u32 = 2;

/// Why an older file could not be brought up to date.
#[derive(Clone, Copy, Debug, PartialEq, Eq, Structural)]
pub enum LegacyJsonError {
    /// The text is no JSON.
    Unreadable,
    /// The result cannot be written down.
    Unwritable,
}

/// The member `key` of `m`.
pub open spec fn at(m: Map<Seq<char>, JsonView>, key: Seq<char>) -> Option<JsonView> {
    if m.contains_key(key) {
        Some(m[key])
    } else {
        None
    }
}

/// The truth value that `o` is.
pub open spec fn flag(o: Option<JsonView>) -> Option<bool> {
    match o {
        Some(JsonView::Bool(b)) => Some(b),
        _ => None,
    }
}

/// Whether the project `m` was shown: its first visibility flag that is there,
/// or else it was.
pub open spec fn was_visible(m: Map<Seq<char>, JsonView>) -> bool {
    match flag(at(m, "show_in_overview"@)) {
        Some(b) => b,
        None => match flag(at(m.remove("show_in_overview"@), "is_visible"@)) {
            Some(b) => b,
            None => true,
        },
    }
}

/// The project `j` without its visibility flags.
pub open spec fn without_visibility(j: JsonView) -> JsonView {
    match j {
        JsonView::Object(m) => JsonView::Object(
            m.remove("show_in_overview"@).remove("is_visible"@),
        ),
        _ => j,
    }
}

/// The folder `j` without its collapsed flag.
pub open spec fn without_collapsed(j: JsonView) -> JsonView {
    match j {
        JsonView::Object(m) => JsonView::Object(m.remove("collapsed"@)),
        _ => j,
    }
}

/// The id of the project `j` where it was hidden.
pub open spec fn hidden_id(j: JsonView) -> Option<Seq<char>> {
    match j {
        JsonView::Object(m) => if was_visible(m) {
            None
        } else {
            match at(m.remove("show_in_overview"@).remove("is_visible"@), "id"@) {
                Some(JsonView::Text(id)) => Some(id),
                _ => None,
            }
        },
        _ => None,
    }
}

/// The id of the folder `j` where it was collapsed.
pub open spec fn collapsed_id(j: JsonView) -> Option<Seq<char>> {
    match j {
        JsonView::Object(m) => if flag(at(m, "collapsed"@)) == Some(true) {
            match at(m.remove("collapsed"@), "id"@) {
                Some(JsonView::Text(id)) => Some(id),
                _ => None,
            }
        } else {
            None
        },
        _ => None,
    }
}

/// The hidden ones of the first `n` of `a`.
pub open spec fn hidden_ids(a: Seq<JsonView>, n: nat) -> Seq<Seq<char>>
    decreases n,
{
    if n == 0 || n > a.len() {
        Seq::empty()
    } else {
        match hidden_id(a[n - 1]) {
            Some(id) => hidden_ids(a, (n - 1) as nat).push(id),
            None => hidden_ids(a, (n - 1) as nat),
        }
    }
}

/// The collapsed ones of the first `n` of `a`.
pub open spec fn collapsed_ids(a: Seq<JsonView>, n: nat) -> Seq<Seq<char>>
    decreases n,
{
    if n == 0 || n > a.len() {
        Seq::empty()
    } else {
        match collapsed_id(a[n - 1]) {
            Some(id) => collapsed_ids(a, (n - 1) as nat).push(id),
            None => collapsed_ids(a, (n - 1) as nat),
        }
    }
}

/// The elements of `a`, each without its visibility flags.
pub open spec fn all_without_visibility(a: Seq<JsonView>) -> Seq<JsonView> {
    Seq::new(a.len(), |i: int| without_visibility(a[i]))
}

/// The elements of `a`, each without its collapsed flag.
pub open spec fn all_without_collapsed(a: Seq<JsonView>) -> Seq<JsonView> {
    Seq::new(a.len(), |i: int| without_collapsed(a[i]))
}

/// The first `n` of `ids` as JSON texts behind `a`.
pub open spec fn with_texts(a: Seq<JsonView>, ids: Seq<Seq<char>>, n: nat) -> Seq<JsonView>
    decreases n,
{
    if n == 0 || n > ids.len() {
        a
    } else {
        with_texts(a, ids, (n - 1) as nat).push(JsonView::Text(ids[n - 1]))
    }
}

/// `m` with the first `n` of `ids` marked.
pub open spec fn with_marks(m: Map<Seq<char>, JsonView>, ids: Seq<Seq<char>>, n: nat) -> Map<
    Seq<char>,
    JsonView,
>
    decreases n,
{
    if n == 0 || n > ids.len() {
        m
    } else {
        with_marks(m, ids, (n - 1) as nat).insert(ids[n - 1], JsonView::Bool(true))
    }
}

/// The main window `w` with the projects `ids` hidden.
pub open spec fn window_hiding(w: Map<Seq<char>, JsonView>, ids: Seq<Seq<char>>) -> Map<
    Seq<char>,
    JsonView,
> {
    if ids.len() == 0 {
        w
    } else {
        match at(w, "hidden_project_ids"@) {
            Some(JsonView::Array(a)) => w.insert(
                "hidden_project_ids"@,
                JsonView::Array(with_texts(a, ids, ids.len())),
            ),
            Some(_) => w,
            None => w.insert(
                "hidden_project_ids"@,
                JsonView::Array(with_texts(Seq::empty(), ids, ids.len())),
            ),
        }
    }
}

/// The main window `w` with the folders `ids` collapsed.
pub open spec fn window_collapsing(w: Map<Seq<char>, JsonView>, ids: Seq<Seq<char>>) -> Map<
    Seq<char>,
    JsonView,
> {
    if ids.len() == 0 {
        w
    } else {
        match at(w, "folder_collapsed"@) {
            Some(JsonView::Object(m)) => w.insert(
                "folder_collapsed"@,
                JsonView::Object(with_marks(m, ids, ids.len())),
            ),
            Some(_) => w,
            None => w.insert(
                "folder_collapsed"@,
                JsonView::Object(with_marks(Map::empty(), ids, ids.len())),
            ),
        }
    }
}

/// The version that `m` names, or zero.
pub open spec fn version_of(m: Map<Seq<char>, JsonView>) -> u64 {
    match at(m, "version"@) {
        Some(JsonView::Number(n)) => match number_as_u64(n) {
            Some(v) => v,
            None => 0,
        },
        _ => 0,
    }
}

/// The main window that `m` names, or an empty one.
pub open spec fn main_window_of(m: Map<Seq<char>, JsonView>) -> Map<Seq<char>, JsonView> {
    match at(m, "main_window"@) {
        Some(JsonView::Object(w)) => w,
        _ => Map::empty(),
    }
}

/// The main window `w` with the widths of `m`, unless it has widths itself.
pub open spec fn window_with_widths(
    w: Map<Seq<char>, JsonView>,
    m: Map<Seq<char>, JsonView>,
) -> Map<Seq<char>, JsonView> {
    match at(m, "project_widths"@) {
        Some(x) => if w.contains_key("project_widths"@) {
            w
        } else {
            w.insert("project_widths"@, x)
        },
        None => w,
    }
}

/// The array that `o` is; none where it is no array.
pub open spec fn elements(o: Option<JsonView>) -> Option<Seq<JsonView>> {
    match o {
        Some(JsonView::Array(a)) => Some(a),
        _ => None,
    }
}

/// What is left of an older workspace once its flags and widths have moved.
pub open spec fn stripped(m: Map<Seq<char>, JsonView>) -> Map<Seq<char>, JsonView> {
    let a = m.remove("main_window"@).remove("project_widths"@);
    let b = match elements(at(a, "projects"@)) {
        Some(ps) => a.insert("projects"@, JsonView::Array(all_without_visibility(ps))),
        None => a,
    };
    match elements(at(b, "folders"@)) {
        Some(fs) => b.insert("folders"@, JsonView::Array(all_without_collapsed(fs))),
        None => b,
    }
}

/// The main window that an older workspace gets.
pub open spec fn gathered_window(m: Map<Seq<char>, JsonView>) -> Map<Seq<char>, JsonView> {
    let w = window_with_widths(main_window_of(m), m.remove("main_window"@));
    let hiding = match elements(at(m, "projects"@)) {
        Some(ps) => window_hiding(w, hidden_ids(ps, ps.len())),
        None => w,
    };
    match elements(at(m, "folders"@)) {
        Some(fs) => window_collapsing(hiding, collapsed_ids(fs, fs.len())),
        None => hiding,
    }
}

/// The workspace `m` with everything that older versions kept elsewhere in its
/// main window. One of the present version is left alone.
pub open spec fn migrated_object(m: Map<Seq<char>, JsonView>) -> Map<Seq<char>, JsonView> {
    if version_of(m) >= 2 {
        m
    } else {
        stripped(m).insert("main_window"@, JsonView::Object(gathered_window(m)))
    }
}

/// The value `j` with everything that older versions kept elsewhere in its main
/// window.
pub open spec fn migrated_value(j: JsonView) -> JsonView {
    match j {
        JsonView::Object(m) => JsonView::Object(migrated_object(m)),
        _ => j,
    }
}

/// The file `j` brought up to date: the workspace that it wraps, or else the
/// workspace that it is.
pub open spec fn migrated_file(j: JsonView) -> JsonView {
    match j {
        JsonView::Object(m) => match at(m, "workspace"@) {
            Some(JsonView::Object(w)) => JsonView::Object(
                m.insert("workspace"@, JsonView::Object(migrated_object(w))),
            ),
            _ => migrated_value(j),
        },
        _ => j,
    }
}

/// The names of the places that are read and written all differ.
proof fn names_differ()
    ensures
        "main_window"@ != "project_widths"@,
        "main_window"@ != "projects"@,
        "main_window"@ != "folders"@,
        "main_window"@ != "version"@,
        "project_widths"@ != "projects"@,
        "project_widths"@ != "folders"@,
        "project_widths"@ != "version"@,
        "projects"@ != "folders"@,
        "projects"@ != "version"@,
        "folders"@ != "version"@,
        "hidden_project_ids"@ != "project_widths"@,
        "folder_collapsed"@ != "project_widths"@,
        "show_in_overview"@ != "is_visible"@,
{
    reveal_strlit("main_window");
    reveal_strlit("project_widths");
    reveal_strlit("projects");
    reveal_strlit("folders");
    reveal_strlit("version");
    reveal_strlit("hidden_project_ids");
    reveal_strlit("folder_collapsed");
    reveal_strlit("show_in_overview");
    reveal_strlit("is_visible");
    assert("main_window"@.len() == 11);
    assert("project_widths"@.len() == 14);
    assert("projects"@.len() == 8);
    assert("folders"@.len() == 7);
    assert("version"@.len() == 7);
    assert("folders"@[0] == 'f');
    assert("version"@[0] == 'v');
    assert("hidden_project_ids"@.len() == 18);
    assert("folder_collapsed"@.len() == 16);
    assert("show_in_overview"@.len() == 16);
    assert("is_visible"@.len() == 10);
}

/// Take the visibility flags off a project, and say which project it is where
/// it was hidden.
fn strip_project(p: &mut serde_json::Value) -> (r: Option<String>)
    ensures
        json_view(*final(p)) == without_visibility(json_view(*old(p))),
        crate::text::opt_text(r) == hidden_id(json_view(*old(p))),
{
    if !is_object(p) {
        return None;
    }
    let shown = match remove_member(p, "show_in_overview") {
        Some(v) => as_bool(&v),
        None => None,
    };
    let visible = match remove_member(p, "is_visible") {
        Some(v) => as_bool(&v),
        None => None,
    };
    let was = match shown {
        Some(b) => b,
        None => match visible {
            Some(b) => b,
            None => true,
        },
    };
    if was {
        return None;
    }
    match member(p, "id") {
        Some(v) => match as_str(v) {
            Some(s) => Some(s.to_owned()),
            None => None,
        },
        None => None,
    }
}

/// Take the collapsed flag off a folder, and say which folder it is where it
/// was collapsed.
fn strip_folder(f: &mut serde_json::Value) -> (r: Option<String>)
    ensures
        json_view(*final(f)) == without_collapsed(json_view(*old(f))),
        crate::text::opt_text(r) == collapsed_id(json_view(*old(f))),
{
    if !is_object(f) {
        return None;
    }
    let collapsed = match remove_member(f, "collapsed") {
        Some(v) => match as_bool(&v) {
            Some(b) => b,
            None => false,
        },
        None => false,
    };
    if !collapsed {
        return None;
    }
    match member(f, "id") {
        Some(v) => match as_str(v) {
            Some(s) => Some(s.to_owned()),
            None => None,
        },
        None => None,
    }
}

/// Take the visibility flags off all projects, and say which were hidden.
fn strip_projects(a: &mut Vec<serde_json::Value>) -> (r: Vec<String>)
    ensures
        json_views(final(a)@) == all_without_visibility(json_views(old(a)@)),
        texts(r@) == hidden_ids(json_views(old(a)@), old(a)@.len()),
{
    let ghost start = a@;
    let ghost js = json_views(start);
    let mut ids: Vec<String> = Vec::new();
    let mut i: usize = 0;
    proof {
        assert(texts(ids@) =~= Seq::<Seq<char>>::empty());
    }
    while i < a.len()
        invariant
            i <= a@.len(),
            a@.len() == start.len(),
            js == json_views(start),
            forall|k: int|
                0 <= k < i ==> json_view(#[trigger] a@[k]) == without_visibility(
                    json_view(start[k]),
                ),
            forall|k: int| i <= k < start.len() ==> a@[k] == start[k],
            texts(ids@) == hidden_ids(js, i as nat),
        decreases a@.len() - i,
    {
        let hidden = strip_project(&mut a[i]);
        if let Some(id) = hidden {
            let ghost before = ids@;
            ids.push(id);
            proof {
                assert(texts(ids@) =~= texts(before).push(id@));
            }
        }
        i = i + 1;
    }
    proof {
        assert(json_views(a@) =~= all_without_visibility(js));
    }
    ids
}

/// Take the collapsed flag off all folders, and say which were collapsed.
fn strip_folders(a: &mut Vec<serde_json::Value>) -> (r: Vec<String>)
    ensures
        json_views(final(a)@) == all_without_collapsed(json_views(old(a)@)),
        texts(r@) == collapsed_ids(json_views(old(a)@), old(a)@.len()),
{
    let ghost start = a@;
    let ghost js = json_views(start);
    let mut ids: Vec<String> = Vec::new();
    let mut i: usize = 0;
    proof {
        assert(texts(ids@) =~= Seq::<Seq<char>>::empty());
    }
    while i < a.len()
        invariant
            i <= a@.len(),
            a@.len() == start.len(),
            js == json_views(start),
            forall|k: int|
                0 <= k < i ==> json_view(#[trigger] a@[k]) == without_collapsed(
                    json_view(start[k]),
                ),
            forall|k: int| i <= k < start.len() ==> a@[k] == start[k],
            texts(ids@) == collapsed_ids(js, i as nat),
        decreases a@.len() - i,
    {
        let collapsed = strip_folder(&mut a[i]);
        if let Some(id) = collapsed {
            let ghost before = ids@;
            ids.push(id);
            proof {
                assert(texts(ids@) =~= texts(before).push(id@));
            }
        }
        i = i + 1;
    }
    proof {
        assert(json_views(a@) =~= all_without_collapsed(js));
    }
    ids
}

/// Take the flags off the projects of `value`, and say which were hidden.
fn take_hidden(value: &mut serde_json::Value) -> (r: Vec<String>)
    requires
        json_view(*old(value)) is Object,
    ensures
        json_view(*final(value)) is Object,
        ({
            let m = json_view(*old(value))->Object_0;
            match elements(at(m, "projects"@)) {
                Some(ps) => json_view(*final(value)) == JsonView::Object(
                    m.insert("projects"@, JsonView::Array(all_without_visibility(ps))),
                ) && texts(r@) == hidden_ids(ps, ps.len()),
                None => json_view(*final(value)) == json_view(*old(value)) && texts(r@).len() == 0,
            }
        }),
{
    let ghost m = json_view(*value)->Object_0;
    match remove_member(value, "projects") {
        Some(v) => match into_array(v) {
            Ok(a) => {
                let mut a = a;
                let ghost ps = json_views(a@);
                proof {
                    assert(ps.len() == a@.len());
                }
                let ids = strip_projects(&mut a);
                insert_member(value, "projects".to_owned(), array_value(a));
                proof {
                    assert(m.remove("projects"@).insert(
                        "projects"@,
                        JsonView::Array(all_without_visibility(ps)),
                    ) =~= m.insert("projects"@, JsonView::Array(all_without_visibility(ps))));
                }
                ids
            },
            Err(v) => {
                insert_member(value, "projects".to_owned(), v);
                proof {
                    assert(m.remove("projects"@).insert("projects"@, m["projects"@]) =~= m);
                }
                Vec::new()
            },
        },
        None => {
            proof {
                assert(m.remove("projects"@) =~= m);
            }
            Vec::new()
        },
    }
}

/// Take the flags off the folders of `value`, and say which were collapsed.
fn take_collapsed(value: &mut serde_json::Value) -> (r: Vec<String>)
    requires
        json_view(*old(value)) is Object,
    ensures
        json_view(*final(value)) is Object,
        ({
            let m = json_view(*old(value))->Object_0;
            match elements(at(m, "folders"@)) {
                Some(fs) => json_view(*final(value)) == JsonView::Object(
                    m.insert("folders"@, JsonView::Array(all_without_collapsed(fs))),
                ) && texts(r@) == collapsed_ids(fs, fs.len()),
                None => json_view(*final(value)) == json_view(*old(value)) && texts(r@).len() == 0,
            }
        }),
{
    let ghost m = json_view(*value)->Object_0;
    match remove_member(value, "folders") {
        Some(v) => match into_array(v) {
            Ok(a) => {
                let mut a = a;
                let ghost fs = json_views(a@);
                proof {
                    assert(fs.len() == a@.len());
                }
                let ids = strip_folders(&mut a);
                insert_member(value, "folders".to_owned(), array_value(a));
                proof {
                    assert(m.remove("folders"@).insert(
                        "folders"@,
                        JsonView::Array(all_without_collapsed(fs)),
                    ) =~= m.insert("folders"@, JsonView::Array(all_without_collapsed(fs))));
                }
                ids
            },
            Err(v) => {
                insert_member(value, "folders".to_owned(), v);
                proof {
                    assert(m.remove("folders"@).insert("folders"@, m["folders"@]) =~= m);
                }
                Vec::new()
            },
        },
        None => {
            proof {
                assert(m.remove("folders"@) =~= m);
            }
            Vec::new()
        },
    }
}

/// Hide the projects `ids` in the main window `w`.
fn hide_in_window(w: &mut serde_json::Value, ids: Vec<String>)
    requires
        json_view(*old(w)) is Object,
    ensures
        json_view(*final(w)) == JsonView::Object(
            window_hiding(json_view(*old(w))->Object_0, texts(ids@)),
        ),
{
    let ghost m = json_view(*w)->Object_0;
    proof {
        assert(texts(ids@).len() == ids@.len());
    }
    if ids.len() == 0 {
        return ;
    }
    let array: Vec<serde_json::Value> = match remove_member(w, "hidden_project_ids") {
        Some(v) => match into_array(v) {
            Ok(a) => a,
            Err(v) => {
                insert_member(w, "hidden_project_ids".to_owned(), v);
                proof {
                    assert(m.remove("hidden_project_ids"@).insert(
                        "hidden_project_ids"@,
                        m["hidden_project_ids"@],
                    ) =~= m);
                }
                return ;
            },
        },
        None => Vec::new(),
    };
    let mut array = array;
    let ghost a0 = json_views(array@);
    proof {
        if !m.contains_key("hidden_project_ids"@) {
            assert(a0 =~= Seq::<JsonView>::empty());
        }
    }
    let mut i: usize = 0;
    while i < ids.len()
        invariant
            i <= ids@.len(),
            json_views(array@) == with_texts(a0, texts(ids@), i as nat),
        decreases ids@.len() - i,
    {
        let ghost before = array@;
        let t = text_value(ids[i].clone());
        array.push(t);
        proof {
            assert(texts(ids@)[i as int] == ids@[i as int]@);
            assert(json_views(array@) =~= json_views(before).push(json_view(t)));
        }
        i = i + 1;
    }
    insert_member(w, "hidden_project_ids".to_owned(), array_value(array));
    proof {
        let v = JsonView::Array(with_texts(a0, texts(ids@), ids@.len()));
        assert(m.remove("hidden_project_ids"@).insert("hidden_project_ids"@, v) =~= m.insert(
            "hidden_project_ids"@,
            v,
        ));
    }
}

/// Collapse the folders `ids` in the main window `w`.
fn collapse_in_window(w: &mut serde_json::Value, ids: Vec<String>)
    requires
        json_view(*old(w)) is Object,
    ensures
        json_view(*final(w)) == JsonView::Object(
            window_collapsing(json_view(*old(w))->Object_0, texts(ids@)),
        ),
{
    let ghost m = json_view(*w)->Object_0;
    proof {
        assert(texts(ids@).len() == ids@.len());
    }
    if ids.len() == 0 {
        return ;
    }
    let mut marks: serde_json::Value = match remove_member(w, "folder_collapsed") {
        Some(v) => if is_object(&v) {
            v
        } else {
            insert_member(w, "folder_collapsed".to_owned(), v);
            proof {
                assert(m.remove("folder_collapsed"@).insert(
                    "folder_collapsed"@,
                    m["folder_collapsed"@],
                ) =~= m);
            }
            return ;
        },
        None => empty_object(),
    };
    let ghost m0 = json_view(marks)->Object_0;
    let mut i: usize = 0;
    while i < ids.len()
        invariant
            i <= ids@.len(),
            json_view(marks) == JsonView::Object(with_marks(m0, texts(ids@), i as nat)),
        decreases ids@.len() - i,
    {
        insert_member(&mut marks, ids[i].clone(), bool_value(true));
        proof {
            assert(texts(ids@)[i as int] == ids@[i as int]@);
        }
        i = i + 1;
    }
    insert_member(w, "folder_collapsed".to_owned(), marks);
    proof {
        let v = JsonView::Object(with_marks(m0, texts(ids@), ids@.len()));
        assert(m.remove("folder_collapsed"@).insert("folder_collapsed"@, v) =~= m.insert(
            "folder_collapsed"@,
            v,
        ));
    }
}

/// Move everything that older versions kept elsewhere into the main window of
/// `value`. A value of the present version, and one that is no object, is left
/// alone.
pub fn migrate_legacy_workspace_value(value: &mut serde_json::Value)
    ensures
        json_view(*final(value)) == migrated_value(json_view(*old(value))),
{
    proof {
        names_differ();
    }
    if !is_object(value) {
        return ;
    }
    let ghost m = json_view(*value)->Object_0;
    let version: u64 = match member(value, "version") {
        Some(v) => match as_u64(v) {
            Some(n) => n,
            None => 0,
        },
        None => 0,
    };
    if version >= 2 {
        return ;
    }
    let found = remove_member(value, "main_window");
    let mut window: serde_json::Value = match found {
        Some(w) => if is_object(&w) {
            w
        } else {
            empty_object()
        },
        None => empty_object(),
    };
    let ghost w0 = main_window_of(m);
    let ghost m1 = m.remove("main_window"@);
    proof {
        assert(json_view(window) == JsonView::Object(w0));
    }
    if let Some(widths) = remove_member(value, "project_widths") {
        if member(&window, "project_widths").is_none() {
            insert_member(&mut window, "project_widths".to_owned(), widths);
        }
    }
    let ghost w1 = window_with_widths(w0, m1);
    let ghost m2 = m1.remove("project_widths"@);
    proof {
        assert(json_view(window) == JsonView::Object(w1));
        assert(at(m2, "projects"@) == at(m, "projects"@));
        assert(at(m2, "folders"@) == at(m, "folders"@));
    }
    let hidden = take_hidden(value);
    let ghost m3 = json_view(*value)->Object_0;
    proof {
        assert(at(m3, "folders"@) == at(m, "folders"@));
    }
    hide_in_window(&mut window, hidden);
    let ghost w2 = json_view(window)->Object_0;
    let collapsed = take_collapsed(value);
    collapse_in_window(&mut window, collapsed);
    insert_member(value, "main_window".to_owned(), window);
}

/// Move everything that older versions kept elsewhere into the main window of
/// the workspace that `content` writes down, by itself or wrapped.
pub fn migrate_legacy_json(content: &str) -> (r: Result<String, LegacyJsonError>)
    ensures
        match json_read(content@) {
            None => r == Err::<String, LegacyJsonError>(LegacyJsonError::Unreadable),
            Some(j) => match json_written(migrated_file(j)) {
                None => r == Err::<String, LegacyJsonError>(LegacyJsonError::Unwritable),
                Some(s) => r is Ok && (r->Ok_0)@ == s,
            },
        },
{
    let mut value = match read_json(content) {
        Ok(v) => v,
        Err(_) => {
            return Err(LegacyJsonError::Unreadable);
        },
    };
    migrate_legacy_file(&mut value);
    match write_json(&value) {
        Ok(s) => Ok(s),
        Err(_) => Err(LegacyJsonError::Unwritable),
    }
}

/// Bring a file that has been read up to date: the workspace that it wraps, or
/// else the workspace that it is.
pub fn migrate_legacy_file(value: &mut serde_json::Value)
    ensures
        json_view(*final(value)) == migrated_file(json_view(*old(value))),
{
    let ghost j = json_view(*value);
    let wrapped = remove_member(value, "workspace");
    match wrapped {
        Some(w) => {
            let mut w = w;
            let nested = is_object(&w);
            if nested {
                migrate_legacy_workspace_value(&mut w);
            }
            insert_member(value, "workspace".to_owned(), w);
            proof {
                let m = j->Object_0;
                let x = json_view(w);
                assert(m.remove("workspace"@).insert("workspace"@, x) =~= m.insert(
                    "workspace"@,
                    x,
                ));
                if !nested {
                    assert(m.insert("workspace"@, m["workspace"@]) =~= m);
                }
            }
            if !nested {
                migrate_legacy_workspace_value(value);
            }
        },
        None => {
            proof {
                if j is Object {
                    let m = j->Object_0;
                    assert(m.remove("workspace"@) =~= m);
                }
            }
            migrate_legacy_workspace_value(value);
        },
    }
}

/// The version after bringing data up to date.
pub open spec fn migrated_version(v: u32) -> u32 {
    if v < WORKSPACE_VERSION {
        WORKSPACE_VERSION
    } else {
        v
    }
}

/// Bring data to the present version. What older versions kept elsewhere has
/// moved before, so only the version is left to change.
pub fn migrate_workspace(data: WorkspaceData) -> (r: WorkspaceData)
    ensures
        r@ == (DataView { version: migrated_version(data@.version), ..data@ }),
{
    let mut data = data;
    if data.version == 0 {
        data.version = 1;
    }
    if data.version == 1 {
        data.version = 2;
    }
    data
}

proof fn stripping_again(a: Seq<JsonView>, n: nat)
    requires
        n <= a.len(),
    ensures
        all_without_visibility(all_without_visibility(a)) == all_without_visibility(a),
        hidden_ids(all_without_visibility(a), n).len() == 0,
    decreases n,
{
    names_differ();
    let once = all_without_visibility(a);
    assert forall|i: int| 0 <= i < a.len() implies without_visibility(#[trigger] once[i])
        == once[i] by {
        if a[i] is Object {
            let m = a[i]->Object_0.remove("show_in_overview"@).remove("is_visible"@);
            assert(m.remove("show_in_overview"@).remove("is_visible"@) =~= m);
        }
    }
    assert(all_without_visibility(once) =~= once);
    if n > 0 {
        stripping_again(a, (n - 1) as nat);
        assert(hidden_id(once[n - 1]) is None);
    }
}

proof fn collapsing_again(a: Seq<JsonView>, n: nat)
    requires
        n <= a.len(),
    ensures
        all_without_collapsed(all_without_collapsed(a)) == all_without_collapsed(a),
        collapsed_ids(all_without_collapsed(a), n).len() == 0,
    decreases n,
{
    let once = all_without_collapsed(a);
    assert forall|i: int| 0 <= i < a.len() implies without_collapsed(#[trigger] once[i])
        == once[i] by {
        if a[i] is Object {
            let m = a[i]->Object_0.remove("collapsed"@);
            assert(m.remove("collapsed"@) =~= m);
        }
    }
    assert(all_without_collapsed(once) =~= once);
    if n > 0 {
        collapsing_again(a, (n - 1) as nat);
        assert(collapsed_id(once[n - 1]) is None);
    }
}

/// Bringing an older workspace up to date a second time changes nothing.
pub proof fn migrating_a_workspace_again_changes_nothing(m: Map<Seq<char>, JsonView>)
    ensures
        migrated_object(migrated_object(m)) == migrated_object(m),
{
    names_differ();
    if version_of(m) < 2 {
        let once = migrated_object(m);
        assert(at(once, "version"@) == at(m, "version"@));
        let w = gathered_window(m);
        assert(main_window_of(once) == w);
        assert(at(once.remove("main_window"@), "project_widths"@) is None);
        let a = once.remove("main_window"@);
        assert(a.remove("project_widths"@) =~= a);
        assert(a =~= stripped(m));
        match elements(at(m, "projects"@)) {
            Some(ps) => {
                stripping_again(ps, ps.len());
                assert(at(once, "projects"@) == Some(
                    JsonView::Array(all_without_visibility(ps)),
                ));
                assert(a.insert("projects"@, JsonView::Array(all_without_visibility(ps))) =~= a);
            },
            None => {
                assert(at(once, "projects"@) == at(m, "projects"@));
            },
        }
        match elements(at(m, "folders"@)) {
            Some(fs) => {
                collapsing_again(fs, fs.len());
                assert(at(once, "folders"@) == Some(JsonView::Array(all_without_collapsed(fs))));
                assert(a.insert("folders"@, JsonView::Array(all_without_collapsed(fs))) =~= a);
            },
            None => {
                assert(at(once, "folders"@) == at(m, "folders"@));
            },
        }
        assert(stripped(once) =~= a);
        assert(gathered_window(once) == w);
        assert(a.insert("main_window"@, JsonView::Object(w)) =~= once);
    }
}

/// Bringing an older file up to date a second time changes nothing.
pub proof fn migrating_a_file_again_changes_nothing(j: JsonView)
    ensures
        migrated_file(migrated_file(j)) == migrated_file(j),
{
    match j {
        JsonView::Object(m) => match at(m, "workspace"@) {
            Some(JsonView::Object(w)) => {
                migrating_a_workspace_again_changes_nothing(w);
                let once = m.insert("workspace"@, JsonView::Object(migrated_object(w)));
                assert(once.insert("workspace"@, JsonView::Object(migrated_object(w))) =~= once);
            },
            _ => {
                migrating_a_workspace_again_changes_nothing(m);
                other_members_stay(m);
            },
        },
        _ => {},
    }
}

proof fn other_members_stay(m: Map<Seq<char>, JsonView>)
    ensures
        at(migrated_object(m), "workspace"@) == at(m, "workspace"@),
{
    reveal_strlit("workspace");
    reveal_strlit("main_window");
    reveal_strlit("project_widths");
    reveal_strlit("projects");
    reveal_strlit("folders");
    assert("workspace"@.len() == 9);
    assert("main_window"@.len() == 11);
    assert("project_widths"@.len() == 14);
    assert("projects"@.len() == 8);
    assert("folders"@.len() == 7);
}

} // verus!
