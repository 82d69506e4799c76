//! The extensions that each connected daemon runs, as clients see them.

use crate::text::{copy_opt, join3, opt_text, same, same_opt};
use vstd::prelude::*;

verus! {

/// An extension, as its daemon tells of it.
#[derive(Debug)]
pub struct ApiExtension {
    pub id: String,
    pub enabled: bool,
    /// The title of its view, if it has one.
    pub view_title: Option<String>,
    /// What else the daemon tells of it, kept as it came.
    pub rest: String,
}

/// An extension, and the daemon that runs it.
#[derive(Debug)]
pub struct ClientExtension {
    pub connection_id: String,
    pub connection_name: String,
    /// Whether this machine's own daemon runs it.
    pub local: bool,
    pub ext: ApiExtension,
}

/// What a [`ClientExtension`] stands for.
pub struct ExtensionView {
    pub connection_id: Seq<char>,
    pub connection_name: Seq<char>,
    pub local: bool,
    pub id: Seq<char>,
    pub enabled: bool,
    pub view_title: Option<Seq<char>>,
    pub rest: Seq<char>,
}

impl View for ClientExtension {
    type V = ExtensionView;

    open spec fn view(&self) -> ExtensionView {
        ExtensionView {
            connection_id: self.connection_id@,
            connection_name: self.connection_name@,
            local: self.local,
            id: self.ext.id@,
            enabled: self.ext.enabled,
            view_title: opt_text(self.ext.view_title),
            rest: self.ext.rest@,
        }
    }
}

/// What each extension of `s` stands for.
pub open spec fn extension_views(s: Seq<ClientExtension>) -> Seq<ExtensionView> {
    s.map_values(|e: ClientExtension| e@)
}

/// A daemon that the client is connected to.
#[derive(Debug)]
pub struct ExtensionConnection {
    pub id: String,
    pub name: String,
    pub local: bool,
    /// The token that its actions carry; none yet while it pairs.
    pub client: Option<String>,
}

/// What an [`ExtensionConnection`] stands for.
pub struct ConnectionView {
    pub id: Seq<char>,
    pub name: Seq<char>,
    pub local: bool,
    pub client: Option<Seq<char>>,
}

impl View for ExtensionConnection {
    type V = ConnectionView;

    open spec fn view(&self) -> ConnectionView {
        ConnectionView {
            id: self.id@,
            name: self.name@,
            local: self.local,
            client: opt_text(self.client),
        }
    }
}

/// What each connection of `s` stands for.
pub open spec fn connection_views(s: Seq<ExtensionConnection>) -> Seq<ConnectionView> {
    s.map_values(|c: ExtensionConnection| c@)
}

/// The key of an extension: its connection and its id.
pub open spec fn key_of(connection: Seq<char>, extension: Seq<char>) -> Seq<char> {
    connection + "/"@ + extension
}

/// The position of the last `c` among the first `n` characters of `s`.
pub open spec fn last_at(s: Seq<char>, c: char, n: nat) -> Option<int>
    decreases n,
{
    if n == 0 || n > s.len() {
        None
    } else if s[n - 1] == c {
        Some(n - 1)
    } else {
        last_at(s, c, (n - 1) as nat)
    }
}

/// The connection and the extension that `key` names.
pub open spec fn key_parts(key: Seq<char>) -> Option<(Seq<char>, Seq<char>)> {
    match last_at(key, '/', key.len()) {
        Some(i) => Some((key.take(i), key.skip(i + 1))),
        None => None,
    }
}

/// The key of an extension.
pub fn extension_key(connection_id: &str, extension_id: &str) -> (r: String)
    ensures
        r@ == key_of(connection_id@, extension_id@),
{
    join3(connection_id, "/", extension_id)
}

/// The connection and the extension that a key names.
pub fn split_key(key: &str) -> (r: Option<(&str, &str)>)
    ensures
        match r {
            Some(p) => key_parts(key@) == Some((p.0@, p.1@)),
            None => key_parts(key@) is None,
        },
{
    let n: usize = key.unicode_len();
    let mut i: usize = n;
    while i > 0
        invariant
            i <= n,
            n == key@.len(),
            last_at(key@, '/', key@.len()) == last_at(key@, '/', i as nat),
        decreases i,
    {
        i = i - 1;
        if key.get_char(i) == '/' {
            let a = key.substring_char(0, i);
            let b = key.substring_char(i + 1, n);
            proof {
                assert(a@ =~= key@.take(i as int));
                assert(b@ =~= key@.skip(i + 1));
            }
            return Some((a, b));
        }
    }
    None
}

/// The keys split back into what they were made of; the extension's id has no
/// slash.
pub proof fn keys_split_back(connection: Seq<char>, extension: Seq<char>)
    requires
        !extension.contains('/'),
    ensures
        key_parts(key_of(connection, extension)) == Some((connection, extension)),
{
    reveal_strlit("/");
    let key = key_of(connection, extension);
    let k = connection.len();
    assert(key[k as int] == '/');
    assert forall|i: int| k < i < key.len() implies key[i] != '/' by {
        assert(key[i] == extension[i - k - 1]);
    }
    last_is_found(key, k as int, key.len());
    assert(key.take(k as int) =~= connection);
    assert(key.skip(k as int + 1) =~= extension);
}

proof fn last_is_found(s: Seq<char>, k: int, n: nat)
    requires
        0 <= k < n <= s.len(),
        s[k] == '/',
        forall|i: int| k < i < n ==> s[i] != '/',
    ensures
        last_at(s, '/', n) == Some(k),
    decreases n,
{
    if k < n - 1 {
        last_is_found(s, k, (n - 1) as nat);
    }
}

/// The local connections of `s`, or for `false` the others, in their order.
pub open spec fn connections_by(s: Seq<ConnectionView>, local: bool) -> Seq<ConnectionView>
    decreases s.len(),
{
    if s.len() == 0 {
        Seq::empty()
    } else if s.last().local == local {
        connections_by(s.drop_last(), local).push(s.last())
    } else {
        connections_by(s.drop_last(), local)
    }
}

/// The position of the first of the first `n` connections that is called `id`.
pub open spec fn connection_at(s: Seq<ConnectionView>, id: Seq<char>, n: nat) -> Option<int>
    decreases n,
{
    if n == 0 || n > s.len() {
        None
    } else {
        match connection_at(s, id, (n - 1) as nat) {
            Some(i) => Some(i),
            None => if s[n - 1].id == id {
                Some(n - 1)
            } else {
                None
            },
        }
    }
}

/// The position of the first of the first `n` extensions that has this key.
pub open spec fn extension_at(s: Seq<ExtensionView>, key: Seq<char>, n: nat) -> Option<int>
    decreases n,
{
    if n == 0 || n > s.len() {
        None
    } else {
        match extension_at(s, key, (n - 1) as nat) {
            Some(i) => Some(i),
            None => if key_of(s[n - 1].connection_id, s[n - 1].id) == key {
                Some(n - 1)
            } else {
                None
            },
        }
    }
}

/// The extensions of `s` that are enabled and have a view.
pub open spec fn shown_extensions(s: Seq<ExtensionView>) -> Seq<ExtensionView>
    decreases s.len(),
{
    if s.len() == 0 {
        Seq::empty()
    } else if s.last().enabled && s.last().view_title is Some {
        shown_extensions(s.drop_last()).push(s.last())
    } else {
        shown_extensions(s.drop_last())
    }
}

impl ClientExtension {
    /// The extension's key: no other connection has it.
    pub fn key(&self) -> (r: String)
        ensures
            r@ == key_of(self@.connection_id, self@.id),
    {
        extension_key(self.connection_id.as_str(), self.ext.id.as_str())
    }

    /// Whether the two are the same.
    fn is_same(&self, other: &ClientExtension) -> (r: bool)
        ensures
            r == (self@ == other@),
    {
        same(self.connection_id.as_str(), other.connection_id.as_str()) && same(
            self.connection_name.as_str(),
            other.connection_name.as_str(),
        ) && self.local == other.local && same(self.ext.id.as_str(), other.ext.id.as_str())
            && self.ext.enabled == other.ext.enabled && same_opt(
            &self.ext.view_title,
            &other.ext.view_title,
        ) && same(self.ext.rest.as_str(), other.ext.rest.as_str())
    }
}

impl Clone for ClientExtension {
    fn clone(&self) -> (r: Self)
        ensures
            r@ == self@,
    {
        ClientExtension {
            connection_id: self.connection_id.clone(),
            connection_name: self.connection_name.clone(),
            local: self.local,
            ext: ApiExtension {
                id: self.ext.id.clone(),
                enabled: self.ext.enabled,
                view_title: copy_opt(&self.ext.view_title),
                rest: self.ext.rest.clone(),
            },
        }
    }
}

impl Clone for ExtensionConnection {
    fn clone(&self) -> (r: Self)
        ensures
            r@ == self@,
    {
        ExtensionConnection {
            id: self.id.clone(),
            name: self.name.clone(),
            local: self.local,
            client: copy_opt(&self.client),
        }
    }
}

/// The extensions that each connected daemon runs.
#[derive(Debug)]
pub struct ExtensionsState {
    list: Vec<ClientExtension>,
    connections: Vec<ExtensionConnection>,
}

/// What an [`ExtensionsState`] stands for.
pub struct ExtensionsView {
    pub list: Seq<ExtensionView>,
    pub connections: Seq<ConnectionView>,
}

impl View for ExtensionsState {
    type V = ExtensionsView;

    closed spec fn view(&self) -> ExtensionsView {
        ExtensionsView {
            list: extension_views(self.list@),
            connections: connection_views(self.connections@),
        }
    }
}

impl ExtensionsState {
    /// No extensions and no connections.
    pub fn new() -> (r: Self)
        ensures
            r@ == (ExtensionsView { list: Seq::empty(), connections: Seq::empty() }),
    {
        let r = ExtensionsState { list: Vec::new(), connections: Vec::new() };
        proof {
            assert(extension_views(r.list@) =~= Seq::<ExtensionView>::empty());
            assert(connection_views(r.connections@) =~= Seq::<ConnectionView>::empty());
        }
        r
    }

    /// The extensions.
    pub fn list(&self) -> (r: &Vec<ClientExtension>)
        ensures
            extension_views(r@) == self@.list,
    {
        &self.list
    }

    /// The connected daemons, this machine's first.
    pub fn connections(&self) -> (r: &Vec<ExtensionConnection>)
        ensures
            connection_views(r@) == self@.connections,
    {
        &self.connections
    }

    /// What actions on a connection carry.
    pub fn client(&self, connection_id: &str) -> (r: Option<String>)
        ensures
            opt_text(r) == match connection_at(
                self@.connections,
                connection_id@,
                self@.connections.len(),
            ) {
                Some(i) => self@.connections[i].client,
                None => None,
            },
    {
        let ghost s = self@.connections;
        let mut i: usize = 0;
        while i < self.connections.len()
            invariant
                i <= self.connections@.len(),
                s == connection_views(self.connections@),
                s == self@.connections,
                connection_at(s, connection_id@, i as nat) is None,
            decreases self.connections@.len() - i,
        {
            proof {
                assert(s[i as int] == self.connections@[i as int]@);
            }
            if same(self.connections[i].id.as_str(), connection_id) {
                proof {
                    connection_stays(s, connection_id@, i as int, (i + 1) as nat);
                }
                return copy_opt(&self.connections[i].client);
            }
            i = i + 1;
        }
        None
    }

    /// Replace the connections; this machine's come first. Observers are told
    /// nothing: there is nothing to draw anew.
    pub fn set_connections(&mut self, connections: Vec<ExtensionConnection>)
        ensures
            final(self)@ == (ExtensionsView {
                connections: connections_by(connection_views(connections@), true) + connections_by(
                    connection_views(connections@),
                    false,
                ),
                ..old(self)@
            }),
    {
        let mut first = pick_connections(&connections, true);
        let mut rest = pick_connections(&connections, false);
        let ghost a = first@;
        let ghost b = rest@;
        first.append(&mut rest);
        proof {
            assert(first@ =~= a + b);
            assert(connection_views(first@) =~= connection_views(a) + connection_views(b));
        }
        self.connections = first;
    }

    /// The extension that has this key.
    pub fn get(&self, key: &str) -> (r: Option<&ClientExtension>)
        ensures
            match r {
                Some(e) => match extension_at(self@.list, key@, self@.list.len()) {
                    Some(i) => e@ == self@.list[i],
                    None => false,
                },
                None => extension_at(self@.list, key@, self@.list.len()) is None,
            },
    {
        let ghost s = self@.list;
        let mut i: usize = 0;
        while i < self.list.len()
            invariant
                i <= self.list@.len(),
                s == extension_views(self.list@),
                s == self@.list,
                extension_at(s, key@, i as nat) is None,
            decreases self.list@.len() - i,
        {
            proof {
                assert(s[i as int] == self.list@[i as int]@);
            }
            let k = self.list[i].key();
            if same(k.as_str(), key) {
                proof {
                    extension_stays(s, key@, i as int, (i + 1) as nat);
                }
                return Some(&self.list[i]);
            }
            i = i + 1;
        }
        None
    }

    /// The enabled extensions that have a view, in the order they arrived.
    pub fn with_views(&self) -> (r: Vec<ClientExtension>)
        ensures
            extension_views(r@) == shown_extensions(self@.list),
    {
        let ghost s = self@.list;
        let mut out: Vec<ClientExtension> = Vec::new();
        let mut i: usize = 0;
        proof {
            assert(s.take(0) =~= Seq::<ExtensionView>::empty());
            assert(extension_views(out@) =~= Seq::<ExtensionView>::empty());
        }
        while i < self.list.len()
            invariant
                i <= self.list@.len(),
                s == extension_views(self.list@),
                extension_views(out@) == shown_extensions(s.take(i as int)),
            decreases self.list@.len() - i,
        {
            let e = &self.list[i];
            proof {
                assert(s.take(i + 1).drop_last() =~= s.take(i as int));
                assert(s[i as int] == e@);
            }
            if e.ext.enabled && e.ext.view_title.is_some() {
                let ghost before = out@;
                out.push(e.clone());
                proof {
                    assert(extension_views(out@) =~= extension_views(before).push(e@));
                }
            }
            i = i + 1;
        }
        proof {
            assert(s.take(i as int) =~= s);
        }
        out
    }

    /// Replace the list. Returns whether it changed, so that observers are to
    /// be told.
    pub fn replace(&mut self, list: Vec<ClientExtension>) -> (r: bool)
        ensures
            r == (old(self)@.list != extension_views(list@)),
            final(self)@ == (ExtensionsView { list: extension_views(list@), ..old(self)@ }),
    {
        let unchanged = same_list(&self.list, &list);
        if !unchanged {
            self.list = list;
        }
        !unchanged
    }
}

impl Default for ExtensionsState {
    fn default() -> (r: Self)
        ensures
            r@ == (ExtensionsView { list: Seq::empty(), connections: Seq::empty() }),
    {
        ExtensionsState::new()
    }
}

/// Whether the two lists hold the same.
fn same_list(a: &Vec<ClientExtension>, b: &Vec<ClientExtension>) -> (r: bool)
    ensures
        r == (extension_views(a@) == extension_views(b@)),
{
    proof {
        assert(extension_views(a@).len() == a@.len());
        assert(extension_views(b@).len() == b@.len());
    }
    if a.len() != b.len() {
        return false;
    }
    let mut i: usize = 0;
    while i < a.len()
        invariant
            i <= a@.len(),
            a@.len() == b@.len(),
            forall|j: int| 0 <= j < i ==> (#[trigger] a@[j])@ == b@[j]@,
        decreases a@.len() - i,
    {
        if !a[i].is_same(&b[i]) {
            proof {
                assert(extension_views(a@)[i as int] == a@[i as int]@);
                assert(extension_views(b@)[i as int] == b@[i as int]@);
            }
            return false;
        }
        i = i + 1;
    }
    proof {
        assert(extension_views(a@) =~= extension_views(b@));
    }
    true
}

/// The local connections, or for `false` the others.
fn pick_connections(v: &Vec<ExtensionConnection>, local: bool) -> (r: Vec<ExtensionConnection>)
    ensures
        connection_views(r@) == connections_by(connection_views(v@), local),
{
    let ghost s = connection_views(v@);
    let mut out: Vec<ExtensionConnection> = Vec::new();
    let mut i: usize = 0;
    proof {
        assert(s.take(0) =~= Seq::<ConnectionView>::empty());
        assert(connection_views(out@) =~= Seq::<ConnectionView>::empty());
    }
    while i < v.len()
        invariant
            i <= v@.len(),
            s == connection_views(v@),
            connection_views(out@) == connections_by(s.take(i as int), local),
        decreases v@.len() - i,
    {
        proof {
            assert(s.take(i + 1).drop_last() =~= s.take(i as int));
            assert(s[i as int] == v@[i as int]@);
        }
        if v[i].local == local {
            let ghost before = out@;
            out.push(v[i].clone());
            proof {
                assert(connection_views(out@) =~= connection_views(before).push(v@[i as int]@));
            }
        }
        i = i + 1;
    }
    proof {
        assert(s.take(i as int) =~= s);
    }
    out
}

proof fn connection_stays(s: Seq<ConnectionView>, id: Seq<char>, i: int, n: nat)
    requires
        connection_at(s, id, n) == Some(i),
        n <= s.len(),
    ensures
        connection_at(s, id, s.len()) == Some(i),
    decreases s.len() - n,
{
    if n < s.len() {
        connection_stays(s, id, i, n + 1);
    }
}

proof fn extension_stays(s: Seq<ExtensionView>, key: Seq<char>, i: int, n: nat)
    requires
        extension_at(s, key, n) == Some(i),
        n <= s.len(),
    ensures
        extension_at(s, key, s.len()) == Some(i),
    decreases s.len() - n,
{
    if n < s.len() {
        extension_stays(s, key, i, n + 1);
    }
}

} // verus!
