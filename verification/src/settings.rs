//! The settings that spaces and agents read.

use crate::outside::{JsonView, as_str, json_view, member};
use crate::state::default_space_id;
use crate::text::{copy_all, copy_opt, opt_text, same, texts};
use vstd::prelude::*;

verus! {

/// Which tasks a space shows.
#[derive(Debug)]
pub struct TaskScope {
    pub groups: Vec<String>,
    pub statuses: Vec<String>,
}

/// What a [`TaskScope`] stands for.
pub struct ScopeView {
    pub groups: Seq<Seq<char>>,
    pub statuses: Seq<Seq<char>>,
}

impl View for TaskScope {
    type V = ScopeView;

    open spec fn view(&self) -> ScopeView {
        ScopeView { groups: texts(self.groups@), statuses: texts(self.statuses@) }
    }
}

/// A scope that leaves nothing out.
pub open spec fn every_task() -> ScopeView {
    ScopeView { groups: Seq::empty(), statuses: Seq::empty() }
}

impl Default for TaskScope {
    fn default() -> (r: Self)
        ensures
            r@ == every_task(),
    {
        let r = TaskScope { groups: Vec::new(), statuses: Vec::new() };
        proof {
            assert(texts(r.groups@) =~= Seq::<Seq<char>>::empty());
            assert(texts(r.statuses@) =~= Seq::<Seq<char>>::empty());
        }
        r
    }
}

impl Clone for TaskScope {
    fn clone(&self) -> (r: Self)
        ensures
            r@ == self@,
    {
        TaskScope { groups: copy_all(&self.groups), statuses: copy_all(&self.statuses) }
    }
}

/// Where a space finds its specs.
#[derive(Debug)]
pub struct SpaceSpecs {
    pub folders: Vec<String>,
}

/// A space.
#[derive(Debug)]
pub struct SpaceData {
    pub id: String,
    pub name: String,
    /// The task backend that it reads.
    pub connection: Option<String>,
    pub tasks: TaskScope,
    pub specs: SpaceSpecs,
}

/// What a [`SpaceData`] stands for.
pub struct SpaceView {
    pub id: Seq<char>,
    pub name: Seq<char>,
    pub connection: Option<Seq<char>>,
    pub tasks: ScopeView,
    pub folders: Seq<Seq<char>>,
}

impl View for SpaceData {
    type V = SpaceView;

    open spec fn view(&self) -> SpaceView {
        SpaceView {
            id: self.id@,
            name: self.name@,
            connection: opt_text(self.connection),
            tasks: self.tasks@,
            folders: texts(self.specs.folders@),
        }
    }
}

/// What each space of `s` stands for.
pub open spec fn space_views(s: Seq<SpaceData>) -> Seq<SpaceView> {
    s.map_values(|x: SpaceData| x@)
}

/// A space that has nothing but an id and a name.
pub open spec fn blank_space(id: Seq<char>, name: Seq<char>) -> SpaceView {
    SpaceView { id, name, connection: None, tasks: every_task(), folders: Seq::empty() }
}

impl SpaceData {
    /// A space that has nothing but an id and a name.
    pub fn new(id: &str, name: &str) -> (r: Self)
        ensures
            r@ == blank_space(id@, name@),
    {
        let folders: Vec<String> = Vec::new();
        proof {
            assert(texts(folders@) =~= Seq::<Seq<char>>::empty());
        }
        SpaceData {
            id: id.to_owned(),
            name: name.to_owned(),
            connection: None,
            tasks: TaskScope::default(),
            specs: SpaceSpecs { folders },
        }
    }
}

impl Clone for SpaceData {
    fn clone(&self) -> (r: Self)
        ensures
            r@ == self@,
    {
        SpaceData {
            id: self.id.clone(),
            name: self.name.clone(),
            connection: copy_opt(&self.connection),
            tasks: self.tasks.clone(),
            specs: SpaceSpecs { folders: copy_all(&self.specs.folders) },
        }
    }
}

/// What an extension keeps in the settings.
#[derive(Debug)]
pub struct ExtensionSettings {
    pub extension: String,
    pub value: serde_json::Value,
}

/// The settings that spaces and agents read.
#[derive(Debug)]
pub struct AppSettings {
    pub spaces: Vec<SpaceData>,
    pub active_space: String,
    pub extension_settings: Vec<ExtensionSettings>,
}

/// What [`AppSettings`] stand for.
pub struct SettingsView {
    pub spaces: Seq<SpaceView>,
    pub active_space: Seq<char>,
    pub extension_settings: Seq<(Seq<char>, JsonView)>,
}

/// What each entry of `s` stands for.
pub open spec fn extension_views(s: Seq<ExtensionSettings>) -> Seq<(Seq<char>, JsonView)> {
    s.map_values(|e: ExtensionSettings| (e.extension@, json_view(e.value)))
}

impl View for AppSettings {
    type V = SettingsView;

    open spec fn view(&self) -> SettingsView {
        SettingsView {
            spaces: space_views(self.spaces@),
            active_space: self.active_space@,
            extension_settings: extension_views(self.extension_settings@),
        }
    }
}

/// The space that is always there, as it starts out.
pub open spec fn default_space() -> SpaceView {
    SpaceView { connection: Some("linear"@), ..blank_space(default_space_id(), "Default"@) }
}

/// The position of the first of the first `n` spaces that is called `id`.
pub open spec fn space_at(s: Seq<SpaceView>, id: Seq<char>, n: nat) -> Option<int>
    decreases n,
{
    if n == 0 || n > s.len() {
        None
    } else {
        match space_at(s, id, (n - 1) as nat) {
            Some(i) => Some(i),
            None => if s[n - 1].id == id {
                Some(n - 1)
            } else {
                None
            },
        }
    }
}

/// The position of the space `id`.
pub open spec fn space_index(s: Seq<SpaceView>, id: Seq<char>) -> Option<int> {
    space_at(s, id, s.len())
}

/// `s` with the space that is always there.
pub open spec fn with_default(s: SettingsView) -> SettingsView {
    if space_index(s.spaces, default_space_id()) is Some {
        s
    } else {
        SettingsView { spaces: seq![default_space()] + s.spaces, ..s }
    }
}

/// The position that is found holds the space, and none before it does.
pub proof fn space_index_is_first(s: Seq<SpaceView>, id: Seq<char>, n: nat)
    requires
        n <= s.len(),
    ensures
        match space_at(s, id, n) {
            Some(i) => 0 <= i < n && s[i].id == id && (forall|j: int|
                0 <= j < i ==> (#[trigger] s[j]).id != id),
            None => forall|j: int| 0 <= j < n ==> (#[trigger] s[j]).id != id,
        },
    decreases n,
{
    if n > 0 {
        space_index_is_first(s, id, (n - 1) as nat);
    }
}

/// The position of the first space of `v` that is called `id`.
pub fn find_space(v: &Vec<SpaceData>, id: &str) -> (r: Option<usize>)
    ensures
        match r {
            Some(i) => i < v@.len() && space_index(space_views(v@), id@) == Some(i as int),
            None => space_index(space_views(v@), id@) is None,
        },
{
    let ghost s = space_views(v@);
    let mut i: usize = 0;
    while i < v.len()
        invariant
            i <= v@.len(),
            s == space_views(v@),
            space_at(s, id@, i as nat) is None,
        decreases v@.len() - i,
    {
        proof {
            assert(s[i as int] == v@[i as int]@);
        }
        if same(v[i].id.as_str(), id) {
            proof {
                found_stays(s, id@, i as int, (i + 1) as nat);
            }
            return Some(i);
        }
        i = i + 1;
    }
    None
}

proof fn found_stays(s: Seq<SpaceView>, id: Seq<char>, i: int, n: nat)
    requires
        space_at(s, id, n) == Some(i),
        n <= s.len(),
    ensures
        space_index(s, id) == Some(i),
    decreases s.len() - n,
{
    if n < s.len() {
        found_stays(s, id, i, n + 1);
    }
}

impl AppSettings {
    /// Settings that nobody has changed.
    pub fn new() -> (r: Self)
        ensures
            r@ == (SettingsView {
                spaces: Seq::empty(),
                active_space: default_space_id(),
                extension_settings: Seq::empty(),
            }),
    {
        let r = AppSettings {
            spaces: Vec::new(),
            active_space: "default".to_owned(),
            extension_settings: Vec::new(),
        };
        proof {
            assert(space_views(r.spaces@) =~= Seq::<SpaceView>::empty());
            assert(extension_views(r.extension_settings@) =~= Seq::<(Seq<char>, JsonView)>::empty());
        }
        r
    }

    /// See that the space that is always there is there.
    pub fn ensure_spaces(&mut self)
        ensures
            final(self)@ == with_default(old(self)@),
    {
        if find_space(&self.spaces, "default").is_none() {
            let ghost before = self.spaces@;
            let mut space = SpaceData::new("default", "Default");
            space.connection = Some("linear".to_owned());
            self.spaces.insert(0, space);
            proof {
                assert(space@ == default_space());
                assert(space_views(self.spaces@) =~= seq![default_space()] + space_views(before));
            }
        }
    }

    /// The space `id`.
    pub fn space(&self, id: &str) -> (r: Option<&SpaceData>)
        ensures
            match r {
                Some(x) => space_index(self@.spaces, id@) is Some && x@ == self@.spaces[space_index(
                    self@.spaces,
                    id@,
                )->0],
                None => space_index(self@.spaces, id@) is None,
            },
    {
        match find_space(&self.spaces, id) {
            Some(i) => Some(&self.spaces[i]),
            None => None,
        }
    }

    /// The position of the space `id`, counting from 1.
    pub fn space_position(&self, id: &str) -> (r: Option<usize>)
        ensures
            match r {
                Some(n) => space_index(self@.spaces, id@) == Some(n - 1),
                None => space_index(self@.spaces, id@) is None,
            },
    {
        proof {
            assert(self.spaces.len() == self.spaces@.len());
        }
        match find_space(&self.spaces, id) {
            Some(i) => Some(i + 1),
            None => None,
        }
    }

    /// What the extension keeps in the settings.
    pub fn extension(&self, name: &str) -> (r: Option<&serde_json::Value>)
        ensures
            match r {
                Some(v) => setting_of(self@.extension_settings, name@, self@.extension_settings.len())
                    == Some(json_view(*v)),
                None => setting_of(
                    self@.extension_settings,
                    name@,
                    self@.extension_settings.len(),
                ) is None,
            },
    {
        let ghost s = self@.extension_settings;
        let mut i: usize = self.extension_settings.len();
        while i > 0
            invariant
                i <= self.extension_settings@.len(),
                s == extension_views(self.extension_settings@),
                setting_of(s, name@, s.len()) == setting_of(s, name@, i as nat),
            decreases i,
        {
            i = i - 1;
            proof {
                assert(s[i as int] == (
                    self.extension_settings@[i as int].extension@,
                    json_view(self.extension_settings@[i as int].value),
                ));
            }
            if same(self.extension_settings[i].extension.as_str(), name) {
                return Some(&self.extension_settings[i].value);
            }
        }
        None
    }

    /// The configuration directory that the settings name for an extension.
    pub fn config_dir(&self, extension: &str) -> (r: Option<&str>)
        ensures
            match r {
                Some(s) => dir_setting(self@, extension@) == Some(s@),
                None => dir_setting(self@, extension@) is None,
            },
    {
        match self.extension(extension) {
            Some(blob) => match member(blob, "config_dir") {
                Some(v) => as_str(v),
                None => None,
            },
            None => None,
        }
    }
}

impl Default for AppSettings {
    fn default() -> (r: Self)
        ensures
            r@ == (SettingsView {
                spaces: Seq::empty(),
                active_space: default_space_id(),
                extension_settings: Seq::empty(),
            }),
    {
        AppSettings::new()
    }
}

/// What the first `n` entries of `s` say for `name`, the last word counting.
pub open spec fn setting_of(s: Seq<(Seq<char>, JsonView)>, name: Seq<char>, n: nat) -> Option<
    JsonView,
>
    decreases n,
{
    if n == 0 || n > s.len() {
        None
    } else if s[n - 1].0 == name {
        Some(s[n - 1].1)
    } else {
        setting_of(s, name, (n - 1) as nat)
    }
}

/// The configuration directory that the settings name for an extension.
pub open spec fn dir_setting(s: SettingsView, extension: Seq<char>) -> Option<Seq<char>> {
    match setting_of(s.extension_settings, extension, s.extension_settings.len()) {
        Some(JsonView::Object(m)) => if m.dom().contains("config_dir"@) {
            match m["config_dir"@] {
                JsonView::Text(t) => Some(t),
                _ => None,
            }
        } else {
            None
        },
        _ => None,
    }
}

} // verus!
