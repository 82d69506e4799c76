//! Creating, renaming, deleting and switching spaces.
//!
//! What a space is lives in the settings; what belongs to it, in the workspace.
//! The rules that span the two live here. One space is always there: it can be
//! neither renamed nor deleted.

use crate::numbers::{decimal, decimal_text, decimals_read_back};
use crate::settings::{
    AppSettings, ScopeView, SettingsView, SpaceData, SpaceView, TaskScope, blank_space, find_space,
    space_index, space_index_is_first, space_views, with_default,
};
use crate::state::{ProjectView, WorkspaceData, agent_session, default_space_id, project_views};
use crate::text::{
    join, join3, opt_text, refusal_of, same, texts, trim, trimmed,
};
use crate::collections::list_contains;
use vstd::prelude::*;

verus! {

/// What a space holds.
#[derive(Debug)]
pub struct SpaceContents {
    /// The names of its plain projects.
    pub projects: Vec<String>,
    /// The names of its agent sessions, closed ones too.
    pub agents: Vec<String>,
    /// The ids of all of these.
    pub project_ids: Vec<String>,
}

/// The ids of the projects in `space`.
pub open spec fn ids_in(ps: Seq<ProjectView>, space: Seq<char>) -> Seq<Seq<char>>
    decreases ps.len(),
{
    if ps.len() == 0 {
        Seq::empty()
    } else if ps.last().space_id == space {
        ids_in(ps.drop_last(), space).push(ps.last().id)
    } else {
        ids_in(ps.drop_last(), space)
    }
}

/// The names of the projects in `space` that are, or for `false` are not, agent
/// sessions.
pub open spec fn names_in(ps: Seq<ProjectView>, space: Seq<char>, agents: bool) -> Seq<Seq<char>>
    decreases ps.len(),
{
    if ps.len() == 0 {
        Seq::empty()
    } else if ps.last().space_id == space && agent_session(ps.last().session) == agents {
        names_in(ps.drop_last(), space, agents).push(ps.last().name)
    } else {
        names_in(ps.drop_last(), space, agents)
    }
}

impl SpaceContents {
    /// Whether it holds nothing.
    pub fn is_empty(&self) -> (r: bool)
        ensures
            r == (self.project_ids@.len() == 0),
    {
        self.project_ids.len() == 0
    }
}

/// What the space holds.
pub fn contents(data: &WorkspaceData, space_id: &str) -> (r: SpaceContents)
    ensures
        texts(r.project_ids@) == ids_in(data@.projects, space_id@),
        texts(r.projects@) == names_in(data@.projects, space_id@, false),
        texts(r.agents@) == names_in(data@.projects, space_id@, true),
{
    let mut project_ids: Vec<String> = Vec::new();
    let mut projects: Vec<String> = Vec::new();
    let mut agents: Vec<String> = Vec::new();
    let ghost ps = data@.projects;
    let mut i: usize = 0;
    proof {
        assert(ps.take(0) =~= Seq::<ProjectView>::empty());
        assert(texts(project_ids@) =~= Seq::<Seq<char>>::empty());
        assert(texts(projects@) =~= Seq::<Seq<char>>::empty());
        assert(texts(agents@) =~= Seq::<Seq<char>>::empty());
    }
    while i < data.projects.len()
        invariant
            i <= data.projects@.len(),
            ps == project_views(data.projects@),
            texts(project_ids@) == ids_in(ps.take(i as int), space_id@),
            texts(projects@) == names_in(ps.take(i as int), space_id@, false),
            texts(agents@) == names_in(ps.take(i as int), space_id@, true),
        decreases data.projects@.len() - i,
    {
        let p = &data.projects[i];
        let ghost (ids0, plain0, agents0) = (project_ids@, projects@, agents@);
        proof {
            assert(ps[i as int] == p@);
            assert(ps.take(i + 1).drop_last() =~= ps.take(i as int));
        }
        if same(p.space_id.as_str(), space_id) {
            project_ids.push(p.id.clone());
            if p.is_any_agent_session() {
                agents.push(p.name.clone());
            } else {
                projects.push(p.name.clone());
            }
        }
        proof {
            assert(texts(ids0.push(p.id)) =~= texts(ids0).push(p.id@));
            assert(texts(plain0.push(p.name)) =~= texts(plain0).push(p.name@));
            assert(texts(agents0.push(p.name)) =~= texts(agents0).push(p.name@));
        }
        i = i + 1;
    }
    proof {
        assert(ps.take(i as int) =~= ps);
    }
    SpaceContents { projects, agents, project_ids }
}

/// The letter or digit that stands for `c` in an id.
pub open spec fn id_char(c: char) -> Option<char> {
    if ('a' <= c <= 'z') || ('0' <= c <= '9') {
        Some(c)
    } else if 'A' <= c <= 'Z' {
        Some((c as nat + 32) as char)
    } else {
        None
    }
}

/// The letters and digits of `s`, with a hyphen for what comes between them.
pub open spec fn hyphenated(s: Seq<char>) -> Seq<char>
    decreases s.len(),
{
    if s.len() == 0 {
        Seq::empty()
    } else {
        let front = hyphenated(s.drop_last());
        match id_char(s.last()) {
            Some(c) => front.push(c),
            None => if front.len() == 0 || front.last() == '-' {
                front
            } else {
                front.push('-')
            },
        }
    }
}

/// The id that the name `s` stands for.
pub open spec fn slug(s: Seq<char>) -> Seq<char> {
    let h = hyphenated(s);
    let t = if h.len() > 0 && h.last() == '-' {
        h.drop_last()
    } else {
        h
    };
    if t.len() == 0 {
        "space"@
    } else {
        t
    }
}

/// The id `base` with a number.
pub open spec fn numbered(base: Seq<char>, n: nat) -> Seq<char> {
    base + "-"@ + decimal(n)
}

/// The first of the `left` + 1 numbers from `n` on with which `base` is not
/// taken.
pub open spec fn first_free(base: Seq<char>, taken: Seq<Seq<char>>, n: nat, left: nat) -> Seq<char>
    decreases left,
{
    if left == 0 || !taken.contains(numbered(base, n)) {
        numbered(base, n)
    } else {
        first_free(base, taken, n + 1, (left - 1) as nat)
    }
}

/// A new id for the name `s`.
pub open spec fn minted(s: Seq<char>, taken: Seq<Seq<char>>) -> Seq<char> {
    let base = slug(s);
    if taken.contains(base) {
        first_free(base, taken, 2, taken.len())
    } else {
        base
    }
}

/// The ids of the spaces.
pub open spec fn space_ids(s: Seq<SpaceView>) -> Seq<Seq<char>> {
    s.map_values(|x: SpaceView| x.id)
}

/// The connection that `c` names, if it names one.
pub open spec fn named_connection(c: Option<Seq<char>>) -> Option<Seq<char>> {
    match c {
        Some(c) => if trimmed(c).len() == 0 {
            None
        } else {
            Some(trimmed(c))
        },
        None => None,
    }
}

/// What is said of a space that is not there.
pub open spec fn no_space(id: Seq<char>) -> Seq<char> {
    "No space called "@ + id + "."@
}

/// The space that is made for `name`.
pub open spec fn new_space(
    s: SettingsView,
    name: Seq<char>,
    connection: Option<Seq<char>>,
    tasks: ScopeView,
) -> SpaceView {
    SpaceView {
        connection: named_connection(connection),
        tasks,
        ..blank_space(minted(trimmed(name), space_ids(s.spaces)), trimmed(name))
    }
}

/// `s` with the space at `i` changed to `x`.
pub open spec fn with_space(s: SettingsView, i: int, x: SpaceView) -> SettingsView {
    SettingsView { spaces: s.spaces.update(i, x), ..s }
}

/// Why the space `id` may not be called `name`.
pub open spec fn rename_refusal(s: SettingsView, id: Seq<char>, name: Seq<char>) -> Option<
    Seq<char>,
> {
    if trimmed(name).len() == 0 {
        Some("A space needs a name."@)
    } else if id == default_space_id() {
        Some("The Default space cannot be renamed."@)
    } else {
        absent(s, id)
    }
}

/// What is said where the space `id` is not there.
pub open spec fn absent(s: SettingsView, id: Seq<char>) -> Option<Seq<char>> {
    if space_index(s.spaces, id) is None {
        Some(no_space(id))
    } else {
        None
    }
}

/// Why the space `id` may not be deleted.
pub open spec fn remove_refusal(s: SettingsView, id: Seq<char>) -> Option<Seq<char>> {
    if id == default_space_id() {
        Some("The Default space cannot be deleted."@)
    } else {
        absent(s, id)
    }
}

/// The spaces that are not called `id`.
pub open spec fn spaces_without(s: Seq<SpaceView>, id: Seq<char>) -> Seq<SpaceView>
    decreases s.len(),
{
    if s.len() == 0 {
        Seq::empty()
    } else if s.last().id == id {
        spaces_without(s.drop_last(), id)
    } else {
        spaces_without(s.drop_last(), id).push(s.last())
    }
}

/// `s` without the space `id`.
pub open spec fn space_removed(s: SettingsView, id: Seq<char>) -> SettingsView {
    SettingsView {
        spaces: spaces_without(s.spaces, id),
        active_space: if s.active_space == id {
            default_space_id()
        } else {
            s.active_space
        },
        ..s
    }
}

/// The names of the spaces that read the connection `c`.
pub open spec fn reading(s: Seq<SpaceView>, c: Seq<char>) -> Seq<Seq<char>>
    decreases s.len(),
{
    if s.len() == 0 {
        Seq::empty()
    } else if s.last().connection == Some(c) {
        reading(s.drop_last(), c).push(s.last().name)
    } else {
        reading(s.drop_last(), c)
    }
}

/// The texts of `s`, with a comma between them.
pub open spec fn listed(s: Seq<Seq<char>>) -> Seq<char>
    decreases s.len(),
{
    if s.len() == 0 {
        Seq::empty()
    } else if s.len() == 1 {
        s[0]
    } else {
        listed(s.drop_last()) + ", "@ + s.last()
    }
}

/// Why the connection `c` may not be forgotten.
pub open spec fn connection_refusal(s: Seq<SpaceView>, c: Seq<char>) -> Option<Seq<char>> {
    let using = reading(s, c);
    if using.len() == 0 {
        None
    } else {
        Some(
            c + " is still used by "@ + listed(using) + ". Point "@ + (if using.len() == 1 {
                "it"@
            } else {
                "them"@
            }) + " at another connection first."@,
        )
    }
}

/// `s` showing the space `id`.
pub open spec fn showing(s: SettingsView, id: Seq<char>) -> SettingsView {
    SettingsView { active_space: id, ..s }
}

/// The position after the space that is showing, or before it, going round.
pub open spec fn neighbour(s: SettingsView, forward: bool) -> Option<int> {
    match space_index(s.spaces, s.active_space) {
        Some(i) => Some(
            if forward {
                if i + 1 == s.spaces.len() {
                    0
                } else {
                    i + 1
                }
            } else {
                if i == 0 {
                    s.spaces.len() - 1
                } else {
                    i - 1
                }
            },
        ),
        None => None,
    }
}

/// The letter or digit that stands for `c` in an id.
fn id_char_of(c: char) -> (r: Option<char>)
    ensures
        r == id_char(c),
{
    if ('a' <= c && c <= 'z') || ('0' <= c && c <= '9') {
        Some(c)
    } else if 'A' <= c && c <= 'Z' {
        let letters = "abcdefghijklmnopqrstuvwxyz";
        proof {
            reveal_strlit("abcdefghijklmnopqrstuvwxyz");
        }
        let i: usize = (c as u32 - 'A' as u32) as usize;
        Some(letters.get_char(i))
    } else {
        None
    }
}

/// The id that a name stands for.
fn slug_of(name: &str) -> (r: String)
    ensures
        r@ == slug(name@),
{
    let n: usize = name.unicode_len();
    let mut out = String::new();
    let mut ends_in_hyphen: bool = false;
    let mut i: usize = 0;
    proof {
        assert(out@ =~= Seq::<char>::empty());
        assert(name@.take(0) =~= Seq::<char>::empty());
    }
    while i < n
        invariant
            i <= n,
            n == name@.len(),
            out@ == hyphenated(name@.take(i as int)),
            ends_in_hyphen == (out@.len() > 0 && out@.last() == '-'),
        decreases n - i,
    {
        let c = name.get_char(i);
        proof {
            assert(name@.take(i + 1).drop_last() =~= name@.take(i as int));
            assert(name@.take(i + 1).last() == c);
        }
        match id_char_of(c) {
            Some(x) => {
                out.push(x);
                ends_in_hyphen = false;
            },
            None => {
                if out.as_str().unicode_len() > 0 && !ends_in_hyphen {
                    out.push('-');
                    ends_in_hyphen = true;
                }
            },
        }
        i = i + 1;
    }
    proof {
        assert(name@.take(i as int) =~= name@);
    }
    let len: usize = out.as_str().unicode_len();
    if ends_in_hyphen {
        let t = out.as_str().substring_char(0, len - 1);
        proof {
            assert(t@ =~= out@.drop_last());
        }
        if t.is_empty() {
            "space".to_owned()
        } else {
            t.to_owned()
        }
    } else if len == 0 {
        "space".to_owned()
    } else {
        out
    }
}

/// A new id for a space called `name`: one that is not taken.
pub fn mint_space_id(name: &str, taken: &Vec<String>) -> (r: String)
    ensures
        r@ == minted(name@, texts(taken@)),
{
    let base = slug_of(name);
    if !list_contains(taken, base.as_str()) {
        return base;
    }
    let mut n: u128 = 2;
    let mut left: usize = taken.len();
    proof {
        assert(texts(taken@).len() == taken@.len());
    }
    loop
        invariant
            base@ == slug(name@),
            n + left <= usize::MAX + 2,
            first_free(base@, texts(taken@), 2, texts(taken@).len()) == first_free(
                base@,
                texts(taken@),
                n as nat,
                left as nat,
            ),
            texts(taken@).contains(base@),
        decreases left,
    {
        let id = join3(base.as_str(), "-", decimal_text(n).as_str());
        if left == 0 || !list_contains(taken, id.as_str()) {
            return id;
        }
        n = n + 1;
        left = left - 1;
    }
}

/// The ids of the spaces.
fn collect_ids(spaces: &Vec<SpaceData>) -> (r: Vec<String>)
    ensures
        texts(r@) == space_ids(space_views(spaces@)),
{
    let mut out: Vec<String> = Vec::new();
    let mut i: usize = 0;
    while i < spaces.len()
        invariant
            i <= spaces@.len(),
            out@.len() == i,
            forall|j: int| 0 <= j < i ==> (#[trigger] out@[j])@ == spaces@[j].id@,
        decreases spaces@.len() - i,
    {
        out.push(spaces[i].id.clone());
        i = i + 1;
    }
    proof {
        assert(texts(out@) =~= space_ids(space_views(spaces@)));
    }
    out
}

/// The connection that `c` names, if it names one.
fn connection_named(c: &Option<String>) -> (r: Option<String>)
    ensures
        opt_text(r) == named_connection(opt_text(*c)),
{
    match c {
        Some(c) => {
            let t = trim(c.as_str());
            if t.is_empty() {
                None
            } else {
                Some(t.to_owned())
            }
        },
        None => None,
    }
}

/// What is said of a space that is not there.
fn no_such_space(id: &str) -> (r: String)
    ensures
        r@ == no_space(id@),
{
    join3("No space called ", id, ".")
}

/// Add a space, behind the others: those keep their numbers.
pub fn create(
    settings: &mut AppSettings,
    name: &str,
    connection: Option<String>,
    tasks: TaskScope,
) -> (r: Result<SpaceData, String>)
    ensures
        match r {
            Ok(space) => {
                let s = with_default(old(settings)@);
                &&& trimmed(name@).len() > 0
                &&& space@ == new_space(s, name@, opt_text(connection), tasks@)
                &&& final(settings)@ == (SettingsView { spaces: s.spaces.push(space@), ..s })
            },
            Err(e) => {
                &&& trimmed(name@).len() == 0
                &&& e@ == "A space needs a name."@
                &&& final(settings)@ == with_default(old(settings)@)
            },
        },
{
    settings.ensure_spaces();
    let name = trim(name);
    if name.is_empty() {
        return Err("A space needs a name.".to_owned());
    }
    let taken = collect_ids(&settings.spaces);
    let id = mint_space_id(name, &taken);
    let mut space = SpaceData::new(id.as_str(), name);
    space.connection = connection_named(&connection);
    space.tasks = tasks;
    let ghost before = settings.spaces@;
    let copy = space.clone();
    settings.spaces.push(copy);
    proof {
        assert(space_views(settings.spaces@) =~= space_views(before).push(space@));
    }
    Ok(space)
}

/// Rename a space. Its id stays: projects point at it.
pub fn rename(settings: &mut AppSettings, id: &str, name: &str) -> (r: Result<(), String>)
    ensures
        refusal_of(r) == rename_refusal(with_default(old(settings)@), id@, name@),
        final(settings)@ == ({
            let s = with_default(old(settings)@);
            if r is Ok {
                let i = space_index(s.spaces, id@)->0;
                with_space(s, i, SpaceView { name: trimmed(name@), ..s.spaces[i] })
            } else {
                s
            }
        }),
{
    settings.ensure_spaces();
    let name = trim(name);
    if name.is_empty() {
        return Err("A space needs a name.".to_owned());
    }
    if same(id, "default") {
        return Err("The Default space cannot be renamed.".to_owned());
    }
    match find_space(&settings.spaces, id) {
        Some(i) => {
            let ghost before = settings.spaces@;
            settings.spaces[i].name = name.to_owned();
            proof {
                space_views_update(before, settings.spaces@, i as int);
            }
            Ok(())
        },
        None => Err(no_such_space(id)),
    }
}

/// Changing one space changes one entry.
proof fn space_views_update(before: Seq<SpaceData>, after: Seq<SpaceData>, i: int)
    requires
        0 <= i < before.len(),
        after == before.update(i, after[i]),
    ensures
        space_views(after) == space_views(before).update(i, after[i]@),
        space_views(before)[i] == before[i]@,
{
    assert(space_views(after) =~= space_views(before).update(i, after[i]@));
}

/// Point a space at another connection, or at none.
pub fn set_connection(settings: &mut AppSettings, id: &str, connection: Option<String>) -> (r:
    Result<(), String>)
    ensures
        refusal_of(r) == absent(with_default(old(settings)@), id@),
        final(settings)@ == ({
            let s = with_default(old(settings)@);
            match space_index(s.spaces, id@) {
                Some(i) => with_space(
                    s,
                    i,
                    SpaceView {
                        connection: named_connection(opt_text(connection)),
                        ..s.spaces[i]
                    },
                ),
                None => s,
            }
        }),
{
    settings.ensure_spaces();
    match find_space(&settings.spaces, id) {
        Some(i) => {
            let ghost before = settings.spaces@;
            settings.spaces[i].connection = connection_named(&connection);
            proof {
                space_views_update(before, settings.spaces@, i as int);
            }
            Ok(())
        },
        None => Err(no_such_space(id)),
    }
}

/// Change which tasks a space shows.
pub fn set_task_scope(settings: &mut AppSettings, id: &str, tasks: TaskScope) -> (r: Result<
    (),
    String,
>)
    ensures
        refusal_of(r) == absent(with_default(old(settings)@), id@),
        final(settings)@ == ({
            let s = with_default(old(settings)@);
            match space_index(s.spaces, id@) {
                Some(i) => with_space(s, i, SpaceView { tasks: tasks@, ..s.spaces[i] }),
                None => s,
            }
        }),
{
    settings.ensure_spaces();
    match find_space(&settings.spaces, id) {
        Some(i) => {
            let ghost before = settings.spaces@;
            settings.spaces[i].tasks = tasks;
            proof {
                space_views_update(before, settings.spaces@, i as int);
            }
            Ok(())
        },
        None => Err(no_such_space(id)),
    }
}

/// Delete a space, and say which one is showing then. What it holds and the
/// connection that it reads are left alone.
pub fn remove(settings: &mut AppSettings, id: &str) -> (r: Result<String, String>)
    ensures
        match r {
            Ok(active) => {
                &&& remove_refusal(with_default(old(settings)@), id@) is None
                &&& final(settings)@ == space_removed(with_default(old(settings)@), id@)
                &&& active@ == final(settings)@.active_space
            },
            Err(e) => {
                &&& remove_refusal(with_default(old(settings)@), id@) == Some(e@)
                &&& final(settings)@ == with_default(old(settings)@)
            },
        },
{
    settings.ensure_spaces();
    if same(id, "default") {
        return Err("The Default space cannot be deleted.".to_owned());
    }
    if find_space(&settings.spaces, id).is_none() {
        return Err(no_such_space(id));
    }
    drop_spaces(&mut settings.spaces, id);
    if same(settings.active_space.as_str(), id) {
        settings.active_space = "default".to_owned();
    }
    Ok(settings.active_space.clone())
}

/// Drop the spaces that are called `id`.
fn drop_spaces(v: &mut Vec<SpaceData>, id: &str)
    ensures
        space_views(final(v)@) == spaces_without(space_views(old(v)@), id@),
{
    let ghost s = space_views(v@);
    let mut kept: Vec<SpaceData> = Vec::new();
    let mut i: usize = 0;
    proof {
        assert(s.take(0) =~= Seq::<SpaceView>::empty());
        assert(space_views(kept@) =~= Seq::<SpaceView>::empty());
    }
    while i < v.len()
        invariant
            i <= v@.len(),
            s == space_views(v@),
            space_views(kept@) == spaces_without(s.take(i as int), id@),
        decreases v@.len() - i,
    {
        proof {
            assert(s.take(i + 1).drop_last() =~= s.take(i as int));
            assert(s[i as int] == v@[i as int]@);
        }
        if !same(v[i].id.as_str(), id) {
            let ghost before = kept@;
            kept.push(v[i].clone());
            proof {
                assert(space_views(kept@) =~= space_views(before).push(v@[i as int]@));
            }
        }
        i = i + 1;
    }
    proof {
        assert(s.take(i as int) =~= s);
    }
    *v = kept;
}

/// The names of the spaces that read the connection, in their order.
pub fn spaces_using_connection(settings: &AppSettings, connection_id: &str) -> (r: Vec<String>)
    ensures
        texts(r@) == reading(settings@.spaces, connection_id@),
{
    let ghost s = settings@.spaces;
    let mut out: Vec<String> = Vec::new();
    let mut i: usize = 0;
    proof {
        assert(s.take(0) =~= Seq::<SpaceView>::empty());
        assert(texts(out@) =~= Seq::<Seq<char>>::empty());
    }
    while i < settings.spaces.len()
        invariant
            i <= settings.spaces@.len(),
            s == space_views(settings.spaces@),
            texts(out@) == reading(s.take(i as int), connection_id@),
        decreases settings.spaces@.len() - i,
    {
        let x = &settings.spaces[i];
        proof {
            assert(s.take(i + 1).drop_last() =~= s.take(i as int));
            assert(s[i as int] == x@);
        }
        let reads: bool = match &x.connection {
            Some(c) => same(c.as_str(), connection_id),
            None => false,
        };
        if reads {
            let ghost before = out@;
            out.push(x.name.clone());
            proof {
                assert(texts(out@) =~= texts(before).push(x.name@));
            }
        }
        i = i + 1;
    }
    proof {
        assert(s.take(i as int) =~= s);
    }
    out
}

/// The texts, with a comma between them.
fn join_listed(v: &Vec<String>) -> (r: String)
    ensures
        r@ == listed(texts(v@)),
{
    let ghost s = texts(v@);
    let mut out = String::new();
    let mut i: usize = 0;
    proof {
        assert(out@ =~= Seq::<char>::empty());
        assert(s.take(0) =~= Seq::<Seq<char>>::empty());
    }
    while i < v.len()
        invariant
            i <= v@.len(),
            s == texts(v@),
            out@ == listed(s.take(i as int)),
        decreases v@.len() - i,
    {
        proof {
            assert(s.take(i + 1).drop_last() =~= s.take(i as int));
            assert(s.take(i + 1).last() == v@[i as int]@);
        }
        if i > 0 {
            out.append(", ");
            out.append(v[i].as_str());
        } else {
            out = v[i].clone();
        }
        i = i + 1;
    }
    proof {
        assert(s.take(i as int) =~= s);
    }
    out
}

/// Whether a connection may be forgotten: not while a space reads it.
pub fn refuse_removing_connection(settings: &AppSettings, connection_id: &str) -> (r: Result<
    (),
    String,
>)
    ensures
        refusal_of(r) == connection_refusal(settings@.spaces, connection_id@),
{
    let using = spaces_using_connection(settings, connection_id);
    proof {
        assert(texts(using@).len() == using@.len());
    }
    if using.len() == 0 {
        return Ok(());
    }
    let mut s = join(connection_id, " is still used by ");
    s.append(join_listed(&using).as_str());
    s.append(". Point ");
    s.append(
        if using.len() == 1 {
            "it"
        } else {
            "them"
        },
    );
    s.append(" at another connection first.");
    Err(s)
}

/// Switch to a space. Returns whether another one was showing.
pub fn activate(settings: &mut AppSettings, id: &str) -> (r: Result<bool, String>)
    ensures
        match r {
            Ok(moved) => {
                let s = with_default(old(settings)@);
                &&& absent(s, id@) is None
                &&& moved == (s.active_space != id@)
                &&& final(settings)@ == showing(s, id@)
            },
            Err(e) => {
                &&& absent(with_default(old(settings)@), id@) == Some(e@)
                &&& final(settings)@ == with_default(old(settings)@)
            },
        },
{
    settings.ensure_spaces();
    if find_space(&settings.spaces, id).is_none() {
        return Err(no_such_space(id));
    }
    if same(settings.active_space.as_str(), id) {
        return Ok(false);
    }
    settings.active_space = id.to_owned();
    Ok(true)
}

/// The settings have the space that is always there once and for all.
proof fn default_is_there(s: SettingsView)
    ensures
        with_default(with_default(s)) == with_default(s),
        space_index(with_default(s).spaces, default_space_id()) is Some,
{
    let t = with_default(s);
    if space_index(s.spaces, default_space_id()) is None {
        assert(t.spaces[0].id == default_space_id());
        space_index_is_first(t.spaces, default_space_id(), t.spaces.len());
    }
}

/// A space that is in the list is found, at its position or before it.
proof fn member_is_found(s: Seq<SpaceView>, i: int)
    requires
        0 <= i < s.len(),
    ensures
        space_index(s, s[i].id) is Some,
{
    space_index_is_first(s, s[i].id, s.len());
}

/// Switch to the next space, or for a negative step to the one before, going
/// round.
pub fn step(settings: &mut AppSettings, by: isize) -> (r: Result<bool, String>)
    ensures
        match neighbour(with_default(old(settings)@), by >= 0) {
            Some(i) => {
                let s = with_default(old(settings)@);
                let id = s.spaces[i].id;
                &&& r == Ok::<bool, String>(s.active_space != id)
                &&& final(settings)@ == showing(s, id)
            },
            None => {
                &&& r == Ok::<bool, String>(false)
                &&& final(settings)@ == with_default(old(settings)@)
            },
        },
{
    settings.ensure_spaces();
    let ghost s = settings@;
    proof {
        default_is_there(old(settings)@);
        assert(s.spaces.len() == settings.spaces@.len());
    }
    let n: usize = settings.spaces.len();
    let i: usize = match find_space(&settings.spaces, settings.active_space.as_str()) {
        Some(i) => if by >= 0 {
            if i + 1 == n {
                0
            } else {
                i + 1
            }
        } else {
            if i == 0 {
                n - 1
            } else {
                i - 1
            }
        },
        None => {
            return Ok(false);
        },
    };
    let id = settings.spaces[i].id.clone();
    proof {
        assert(s.spaces[i as int] == settings.spaces@[i as int]@);
        member_is_found(s.spaces, i as int);
    }
    activate(settings, id.as_str())
}

/// Switch to the space at a number, counting from 1. Past the end nothing
/// happens.
pub fn activate_nth(settings: &mut AppSettings, n: usize) -> (r: Result<bool, String>)
    ensures
        ({
            let s = with_default(old(settings)@);
            if 1 <= n <= s.spaces.len() {
                let id = s.spaces[n - 1].id;
                &&& r == Ok::<bool, String>(s.active_space != id)
                &&& final(settings)@ == showing(s, id)
            } else {
                &&& r == Ok::<bool, String>(false)
                &&& final(settings)@ == s
            }
        }),
{
    settings.ensure_spaces();
    let ghost s = settings@;
    proof {
        default_is_there(old(settings)@);
        assert(s.spaces.len() == settings.spaces@.len());
    }
    if n == 0 || n > settings.spaces.len() {
        return Ok(false);
    }
    let id = settings.spaces[n - 1].id.clone();
    proof {
        assert(s.spaces[n - 1] == settings.spaces@[n - 1]@);
        member_is_found(s.spaces, n - 1);
    }
    activate(settings, id.as_str())
}

/// A new id is not taken.
pub proof fn new_ids_are_free(name: Seq<char>, taken: Seq<Seq<char>>)
    ensures
        !taken.contains(minted(name, taken)),
{
    let base = slug(name);
    if taken.contains(base) {
        if taken.contains(minted(name, taken)) {
            all_numbers_taken(base, taken, 2, taken.len());
            let k = taken.len() + 1;
            let ids = Seq::new(k, |i: int| numbered(base, (2 + i) as nat));
            assert forall|i: int, j: int| 0 <= i < j < k implies ids[i] != ids[j] by {
                numbers_differ(base, (2 + i) as nat, (2 + j) as nat);
            }
            assert(ids.no_duplicates());
            ids.unique_seq_to_set();
            assert forall|x: Seq<char>| ids.to_set().contains(x) implies taken.to_set().contains(
                x,
            ) by {
                let i = choose|i: int| 0 <= i < ids.len() && ids[i] == x;
                assert(taken.contains(numbered(base, (2 + i) as nat)));
            }
            vstd::seq_lib::seq_to_set_is_finite(taken);
            vstd::set_lib::lemma_len_subset(ids.to_set(), taken.to_set());
            taken.lemma_cardinality_of_set();
        }
    }
}

/// Where the search ends with a taken id, all that it tried are taken.
proof fn all_numbers_taken(base: Seq<char>, taken: Seq<Seq<char>>, n: nat, left: nat)
    requires
        taken.contains(first_free(base, taken, n, left)),
    ensures
        forall|m: nat| n <= m <= n + left ==> taken.contains(#[trigger] numbered(base, m)),
    decreases left,
{
    if left > 0 {
        if taken.contains(numbered(base, n)) {
            all_numbers_taken(base, taken, n + 1, (left - 1) as nat);
            assert forall|m: nat| n <= m <= n + left implies taken.contains(
                #[trigger] numbered(base, m),
            ) by {
                if m > n {
                    assert(n + 1 <= m <= n + 1 + (left - 1));
                }
            }
        }
    }
}

/// Different numbers make different ids.
proof fn numbers_differ(base: Seq<char>, m: nat, n: nat)
    requires
        m != n,
    ensures
        numbered(base, m) != numbered(base, n),
{
    let front = base + "-"@;
    decimals_read_back(m);
    decimals_read_back(n);
    if numbered(base, m) == numbered(base, n) {
        assert(numbered(base, m).skip(front.len() as int) =~= decimal(m));
        assert(numbered(base, n).skip(front.len() as int) =~= decimal(n));
    }
}

/// Whether the space that is always there comes first, under its name.
pub open spec fn default_first(s: SettingsView) -> bool {
    s.spaces.len() > 0 && s.spaces[0].id == default_space_id() && s.spaces[0].name == "Default"@
}

/// Whether no two spaces share an id.
pub open spec fn ids_are_unique(s: Seq<SpaceView>) -> bool {
    space_ids(s).no_duplicates()
}

/// The space that is always there is there from the first look on.
pub proof fn default_comes_first(s: SettingsView)
    requires
        s.spaces.len() == 0,
    ensures
        default_first(with_default(s)),
{
}

/// Adding, renaming, repointing and deleting keep the space that is always
/// there at its place and under its name.
pub proof fn default_stays(
    s: SettingsView,
    x: SpaceView,
    id: Seq<char>,
    name: Seq<char>,
    connection: Option<Seq<char>>,
    tasks: ScopeView,
)
    requires
        default_first(s),
    ensures
        with_default(s) == s,
        default_first(SettingsView { spaces: s.spaces.push(x), ..s }),
        rename_refusal(s, id, name) is None ==> {
            let i = space_index(s.spaces, id)->0;
            default_first(with_space(s, i, SpaceView { name, ..s.spaces[i] }))
        },
        space_index(s.spaces, id) is Some ==> {
            let i = space_index(s.spaces, id)->0;
            &&& default_first(with_space(s, i, SpaceView { connection, ..s.spaces[i] }))
            &&& default_first(with_space(s, i, SpaceView { tasks, ..s.spaces[i] }))
        },
        remove_refusal(s, id) is None ==> default_first(space_removed(s, id)),
{
    space_index_is_first(s.spaces, default_space_id(), s.spaces.len());
    space_index_is_first(s.spaces, id, s.spaces.len());
    if remove_refusal(s, id) is None {
        first_space_stays(s.spaces, id);
    }
}

/// A first space under another id stays first.
proof fn first_space_stays(s: Seq<SpaceView>, id: Seq<char>)
    requires
        s.len() > 0,
        s[0].id != id,
    ensures
        spaces_without(s, id).len() > 0,
        spaces_without(s, id)[0] == s[0],
    decreases s.len(),
{
    if s.len() == 1 {
        assert(s.drop_last().len() == 0);
        assert(spaces_without(s.drop_last(), id) =~= Seq::<SpaceView>::empty());
    } else {
        assert(s.drop_last()[0] == s[0]);
        first_space_stays(s.drop_last(), id);
    }
}

/// Adding a space keeps ids unique.
pub proof fn ids_stay_unique(
    s: SettingsView,
    name: Seq<char>,
    connection: Option<Seq<char>>,
    tasks: ScopeView,
)
    requires
        ids_are_unique(s.spaces),
    ensures
        ids_are_unique(s.spaces.push(new_space(s, name, connection, tasks))),
{
    let x = new_space(s, name, connection, tasks);
    new_ids_are_free(trimmed(name), space_ids(s.spaces));
    let ids = space_ids(s.spaces);
    let after = space_ids(s.spaces.push(x));
    assert(after =~= ids.push(x.id));
    assert forall|i: int, j: int| 0 <= i < after.len() && 0 <= j < after.len() && i != j implies
        after[i] != after[j] by {
        if i == ids.len() {
            assert(ids.contains(ids[j]));
        } else if j == ids.len() {
            assert(ids.contains(ids[i]));
        }
    }
}

/// A step forward and a step back lead to the space that was showing.
pub proof fn steps_undo_each_other(s: SettingsView, forward: bool)
    requires
        ids_are_unique(s.spaces),
        space_index(s.spaces, s.active_space) is Some,
    ensures
        ({
            let there = showing(s, s.spaces[neighbour(s, forward)->0].id);
            &&& neighbour(there, !forward) is Some
            &&& showing(there, there.spaces[neighbour(there, !forward)->0].id) == s
        }),
{
    let n = s.spaces.len();
    space_index_is_first(s.spaces, s.active_space, n);
    let i = space_index(s.spaces, s.active_space)->0;
    let k = neighbour(s, forward)->0;
    let id = s.spaces[k].id;
    space_index_is_first(s.spaces, id, n);
    let j = space_index(s.spaces, id)->0;
    let ids = space_ids(s.spaces);
    assert(ids[j] == s.spaces[j].id && ids[k] == s.spaces[k].id);
    assert(j == k);
}

} // verus!
