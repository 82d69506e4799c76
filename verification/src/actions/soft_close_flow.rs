//! The steps of a soft close that a host runs: the toast, the deadline, and
//! the tick that makes expired closes final.

use crate::actions::soft_close::{
    close_undone, closed_layout, finalized, focus_after_close, owner_remembered, pane_back,
    pane_closed, pane_restored, path_back, pending_at, pending_ids, remembered_name,
    restored_layout, soft_closed, trimmed_to, undo_restores, without_pending,
};
use crate::collections::{
    IdMap, lookup, lookup_after_remove, lookup_after_sift, lookup_after_store, position,
    position_is_first, sifted_keys, stored, unkeyed,
};
use crate::focus::{FocusManager, FocusView, focus_on};
use crate::layout::{opt_terminal_ids, slot_path};
use crate::state::{ProjectData, ProjectView, project_at, project_ids, project_in, with_project};
use crate::text::{has_char, has_prefix, join, join3, opt_text, same, skip, starts_with, texts};
use crate::toast::{
    Toast, ToastAction, ToastActionStyle, ToastActionView, ToastLevel, ToastView, action_views,
};
use crate::workspace::{Workspace, WorkspaceCx, WorkspaceView, announced, ws_layout, ws_project};
use vstd::prelude::*;

verus! {

/// What the host knows of a live terminal.
pub struct TerminalInfo {
    pub title: Option<String>,
    pub cwd: String,
}

/// `s` without the slashes at its end.
pub open spec fn without_end_slashes(s: Seq<char>) -> Seq<char>
    decreases s.len(),
{
    if s.len() > 0 && s.last() == '/' {
        without_end_slashes(s.drop_last())
    } else {
        s
    }
}

/// What follows the last slash of `s`; `s` itself where it has none.
pub open spec fn after_last_slash(s: Seq<char>) -> Seq<char>
    decreases s.len(),
{
    if s.len() == 0 || s.last() == '/' {
        Seq::empty()
    } else {
        after_last_slash(s.drop_last()).push(s.last())
    }
}

/// The name of the directory at `path`; the whole path where it has none.
pub open spec fn directory_name(path: Seq<char>) -> Seq<char> {
    let name = after_last_slash(without_end_slashes(path));
    if name.len() == 0 {
        path
    } else {
        name
    }
}

/// Whether a terminal's title says what runs in it: it is neither empty, nor
/// the name of a main thread, nor a shell prompt with a user and a place.
pub open spec fn telling_title(s: Seq<char>) -> bool {
    &&& s.len() > 0
    &&& s != "MainThread"@
    &&& !(s.contains('@') && s.contains(':'))
}

/// The name under which the terminal `t` is shown: its own, else its title
/// where that is telling, else the directory of its project.
pub open spec fn display_name(p: ProjectView, t: Seq<char>, title: Option<Seq<char>>) -> Seq<char> {
    match lookup(p.terminal_names, t) {
        Some(n) => n,
        None => if title is Some && telling_title(title->0) {
            title->0
        } else {
            directory_name(p.path)
        },
    }
}

/// `label` cut to what a toast can show.
pub open spec fn cut_label(label: Seq<char>) -> Seq<char> {
    if label.len() <= 42 {
        label
    } else {
        label.take(41) + "\u{2026}"@
    }
}

/// `path` with the home directory written as a tilde.
pub open spec fn with_tilde(path: Seq<char>, home: Option<Seq<char>>) -> Seq<char> {
    match home {
        Some(h) => if h.len() > 0 && path == h {
            "~"@
        } else if h.len() > 0 && has_prefix(path, h + "/"@) {
            "~"@ + path.skip(h.len() as int)
        } else {
            path
        },
        None => path,
    }
}

/// `path` as a toast shows it: relative to the home directory, and cut at its
/// front where it is long.
pub open spec fn short_cwd(path: Seq<char>, home: Option<Seq<char>>) -> Seq<char> {
    let shown = with_tilde(path, home);
    if shown.len() <= 30 {
        shown
    } else {
        "\u{2026}"@ + shown.skip(shown.len() - 29)
    }
}

/// The title of the toast for a closed terminal.
pub open spec fn toast_title(label: Option<Seq<char>>) -> Seq<char> {
    match label {
        Some(l) => "Closed \u{201c}"@ + cut_label(l) + "\u{201d}"@,
        None => "Terminal closed"@,
    }
}

/// The toast for the soft close of the terminal `t`.
pub open spec fn soft_close_toast(
    p: Option<ProjectView>,
    title: Option<Seq<char>>,
    cwd: Option<Seq<char>>,
    home: Option<Seq<char>>,
    project: Seq<char>,
    t: Seq<char>,
    command: Option<Seq<char>>,
    toast: Seq<char>,
    grace: u32,
) -> ToastView {
    let label = match p {
        Some(x) => {
            let d = display_name(x, t, title);
            if d == directory_name(x.path) {
                command
            } else {
                Some(d)
            }
        },
        None => None,
    };
    let detail = match p {
        Some(x) => match cwd {
            Some(c) => x.name + " \u{b7} "@ + short_cwd(c, home),
            None => x.name,
        },
        None => Seq::empty(),
    };
    ToastView {
        id: Some(toast),
        level: ToastLevel::Info,
        message: toast_title(label),
        detail: if detail.len() == 0 {
            None
        } else {
            Some(detail)
        },
        ttl: Some(grace as u64),
        actions: seq![
            ToastActionView {
                id: action_id("soft-close-undo:"@, project, t),
                label: "Undo"@,
                style: ToastActionStyle::Primary,
            },
            ToastActionView {
                id: action_id("soft-close-kill:"@, project, t),
                label: "Close now"@,
                style: ToastActionStyle::Danger,
            },
        ],
    }
}

/// The id of a toast's button for the terminal `t`.
pub open spec fn action_id(prefix: Seq<char>, project: Seq<char>, t: Seq<char>) -> Seq<char> {
    prefix + project + ":"@ + t
}

/// The name of the directory at `path`.
pub fn directory_name_of(path: &str) -> (r: String)
    ensures
        r@ == directory_name(path@),
{
    let mut end: usize = path.unicode_len();
    proof {
        assert(path@.take(end as int) =~= path@);
    }
    while end > 0 && path.get_char((end - 1) as usize) == '/'
        invariant
            end <= path@.len(),
            without_end_slashes(path@) == without_end_slashes(path@.take(end as int)),
        decreases end,
    {
        proof {
            assert(path@.take(end as int).drop_last() =~= path@.take(end - 1));
        }
        end = end - 1;
    }
    let ghost body = path@.take(end as int);
    let mut start: usize = end;
    proof {
        assert(without_end_slashes(path@) == body);
        assert(body.take(end as int) =~= body);
        assert(after_last_slash(body) + path@.subrange(end as int, end as int)
            =~= after_last_slash(body));
    }
    while start > 0 && path.get_char((start - 1) as usize) != '/'
        invariant
            start <= end <= path@.len(),
            body == path@.take(end as int),
            after_last_slash(body.take(start as int)) + path@.subrange(start as int, end as int)
                == after_last_slash(body),
        decreases start,
    {
        proof {
            let b = body.take(start as int);
            assert(b.drop_last() =~= body.take(start - 1));
            assert(b.last() == path@[start - 1]);
            assert(after_last_slash(body.take(start - 1)) + path@.subrange(start - 1, end as int)
                =~= after_last_slash(b) + path@.subrange(start as int, end as int));
        }
        start = start - 1;
    }
    proof {
        assert(after_last_slash(body.take(start as int)) =~= Seq::<char>::empty());
        assert(path@.subrange(start as int, end as int) =~= after_last_slash(body));
    }
    if start == end {
        path.to_owned()
    } else {
        path.substring_char(start, end).to_owned()
    }
}

impl ProjectData {
    /// The name under which a terminal is shown.
    pub fn terminal_display_name(&self, terminal_id: &str, title: Option<&str>) -> (r: String)
        ensures
            r@ == display_name(
                self@,
                terminal_id@,
                match title {
                    Some(s) => Some(s@),
                    None => None,
                },
            ),
    {
        if let Some(n) = self.terminal_names.get(terminal_id) {
            return n.clone();
        }
        if let Some(s) = title {
            if !s.is_empty() && !same(s, "MainThread") && !(has_char(s, '@') && has_char(
                s,
                ':',
            )) {
                return s.to_owned();
            }
        }
        directory_name_of(self.path.as_str())
    }
}

/// `label` cut to what a toast can show.
pub fn truncate_label(label: &str) -> (r: String)
    ensures
        r@ == cut_label(label@),
{
    if label.unicode_len() <= 42 {
        label.to_owned()
    } else {
        join(label.substring_char(0, 41), "\u{2026}")
    }
}

/// `path` as a toast shows it.
pub fn shorten_cwd(path: &str, home: Option<&str>) -> (r: String)
    ensures
        r@ == short_cwd(
            path@,
            match home {
                Some(h) => Some(h@),
                None => None,
            },
        ),
{
    let shown: String = match home {
        Some(h) => {
            let inside = join(h, "/");
            if !h.is_empty() && same(path, h) {
                "~".to_owned()
            } else if !h.is_empty() && starts_with(path, inside.as_str()) {
                proof {
                    assert(h@.len() <= path@.len());
                }
                join("~", skip(path, h.unicode_len()))
            } else {
                path.to_owned()
            }
        },
        None => path.to_owned(),
    };
    proof {
        reveal_strlit("~");
    }
    let n: usize = shown.as_str().unicode_len();
    if n <= 30 {
        shown
    } else {
        join("\u{2026}", skip(shown.as_str(), n - 29))
    }
}

/// The toast for a soft close: what was closed, where, and the buttons that
/// undo it or make it final.
pub fn build_soft_close_toast(
    ws: &Workspace,
    terminal: Option<&TerminalInfo>,
    home: Option<&str>,
    project_id: &str,
    terminal_id: &str,
    command: Option<String>,
    toast_id: &str,
    grace: u32,
) -> (r: Toast)
    ensures
        r@ == soft_close_toast(
            ws_project(ws@, project_id@),
            match terminal {
                Some(i) => opt_text(i.title),
                None => None,
            },
            match terminal {
                Some(i) => Some(i.cwd@),
                None => None,
            },
            match home {
                Some(h) => Some(h@),
                None => None,
            },
            project_id@,
            terminal_id@,
            opt_text(command),
            toast_id@,
            grace,
        ),
{
    let title: Option<&str> = match terminal {
        Some(i) => match &i.title {
            Some(t) => Some(t.as_str()),
            None => None,
        },
        None => None,
    };
    let (label, detail): (Option<String>, String) = match ws.project(project_id) {
        Some(p) => {
            let shown = p.terminal_display_name(terminal_id, title);
            let dir = directory_name_of(p.path.as_str());
            let label = if same(shown.as_str(), dir.as_str()) {
                command
            } else {
                Some(shown)
            };
            let detail = match terminal {
                Some(i) => {
                    let cwd = shorten_cwd(i.cwd.as_str(), home);
                    join3(p.name.as_str(), " \u{b7} ", cwd.as_str())
                },
                None => p.name.clone(),
            };
            (label, detail)
        },
        None => (None, String::new()),
    };
    let message = match label {
        Some(l) => {
            let cut = truncate_label(l.as_str());
            join3("Closed \u{201c}", cut.as_str(), "\u{201d}")
        },
        None => "Terminal closed".to_owned(),
    };
    let undo_head = join3("soft-close-undo:", project_id, ":");
    let kill_head = join3("soft-close-kill:", project_id, ":");
    let mut actions: Vec<ToastAction> = Vec::new();
    actions.push(
        ToastAction {
            id: join(undo_head.as_str(), terminal_id),
            label: "Undo".to_owned(),
            style: ToastActionStyle::Primary,
        },
    );
    actions.push(
        ToastAction {
            id: join(kill_head.as_str(), terminal_id),
            label: "Close now".to_owned(),
            style: ToastActionStyle::Danger,
        },
    );
    let r = Toast {
        id: Some(toast_id.to_owned()),
        level: ToastLevel::Info,
        message,
        detail: if detail.as_str().is_empty() {
            None
        } else {
            Some(detail)
        },
        ttl: Some(grace as u64),
        actions,
    };
    proof {
        assert(action_views(r.actions@) =~= seq![r.actions@[0]@, r.actions@[1]@]);
    }
    r
}

/// When the grace period that starts at `now` (in milliseconds) is over.
pub open spec fn deadline_after(now: u64, grace: u32) -> u64 {
    if now + grace * 1000 > u64::MAX {
        u64::MAX
    } else {
        (now + grace * 1000) as u64
    }
}

/// The terminals whose deadline has passed at `now`, in order.
pub open spec fn expired(s: Seq<(Seq<char>, u64)>, now: u64) -> Seq<Seq<char>>
    decreases s.len(),
{
    if s.len() == 0 {
        Seq::empty()
    } else if s.last().1 <= now {
        expired(s.drop_last(), now).push(s.last().0)
    } else {
        expired(s.drop_last(), now)
    }
}

/// `w` after the soft closes of the first `n` of `ids` were made final.
pub open spec fn all_finalized(w: WorkspaceView, ids: Seq<Seq<char>>, n: nat) -> WorkspaceView
    decreases n,
{
    if n == 0 || n > ids.len() {
        w
    } else {
        let before = all_finalized(w, ids, (n - 1) as nat);
        match finalized(before, ids[n - 1]) {
            Some(after) => after,
            None => before,
        }
    }
}

/// Begin a soft close: take the terminal out of the layout, set its deadline
/// and return the toast to show. `None`, and nothing done, where the terminal
/// is in no layout: the caller then closes it at once.
pub fn begin_soft_close_flow(
    deadlines: &mut IdMap<u64>,
    ws: &mut Workspace,
    focus_manager: &mut FocusManager,
    terminal: Option<&TerminalInfo>,
    home: Option<&str>,
    project_id: &str,
    terminal_id: &str,
    grace: u32,
    command: Option<String>,
    cx: &mut WorkspaceCx,
) -> (r: Option<Toast>)
    ensures
        ({
            let at = match ws_layout(old(ws)@, project_id@) {
                Some(l) => slot_path(l, Some(terminal_id@)),
                None => None,
            };
            let toast = "soft-close:"@ + terminal_id@;
            match at {
                None => r is None && final(ws)@ == old(ws)@ && final(deadlines)@ == old(
                    deadlines)@ && final(focus_manager)@ == old(focus_manager)@ && final(cx)@
                    == old(cx)@,
                Some(path) => {
                    &&& r is Some
                    &&& r->0@ == soft_close_toast(
                        ws_project(old(ws)@, project_id@),
                        match terminal {
                            Some(i) => opt_text(i.title),
                            None => None,
                        },
                        match terminal {
                            Some(i) => Some(i.cwd@),
                            None => None,
                        },
                        match home {
                            Some(h) => Some(h@),
                            None => None,
                        },
                        project_id@,
                        terminal_id@,
                        opt_text(command),
                        toast,
                        grace,
                    )
                    &&& final(ws)@ == soft_closed(
                        old(ws)@,
                        project_id@,
                        path,
                        terminal_id@,
                        toast,
                    )
                    &&& final(focus_manager)@ == focus_after_close(
                        old(ws)@,
                        old(focus_manager)@,
                        project_id@,
                        path,
                    )
                    &&& final(deadlines)@ == stored(
                        old(deadlines)@,
                        terminal_id@,
                        deadline_after(old(cx)@.now, grace),
                    )
                    &&& final(cx)@ == if pane_closed(old(ws)@, project_id@, path) is Some {
                        announced(old(cx)@)
                    } else {
                        old(cx)@
                    }
                },
            }
        }),
{
    let path: Vec<usize> = match ws.project(project_id) {
        Some(p) => match &p.layout {
            Some(l) => match l.find_terminal_path(terminal_id) {
                Some(path) => path,
                None => {
                    return None;
                },
            },
            None => {
                return None;
            },
        },
        None => {
            return None;
        },
    };
    let toast_id = join("soft-close:", terminal_id);
    let toast = build_soft_close_toast(
        ws,
        terminal,
        home,
        project_id,
        terminal_id,
        command,
        toast_id.as_str(),
        grace,
    );
    let now = cx.now;
    ws.begin_soft_close(
        focus_manager,
        project_id,
        path.as_slice(),
        terminal_id,
        toast_id.as_str(),
        cx,
    );
    let wait: u64 = grace as u64 * 1000;
    let deadline: u64 = if now > u64::MAX - wait {
        u64::MAX
    } else {
        now + wait
    };
    deadlines.insert(terminal_id.to_owned(), deadline);
    Some(toast)
}

/// Undo a soft close: drop its deadline and bring the terminal back, if its
/// process still lives.
pub fn undo_soft_close_flow(
    deadlines: &mut IdMap<u64>,
    ws: &mut Workspace,
    focus_manager: &mut FocusManager,
    alive: bool,
    terminal_id: &str,
    cx: &mut WorkspaceCx,
)
    ensures
        final(deadlines)@ == unkeyed(old(deadlines)@, terminal_id@),
        match pending_at(old(ws)@, terminal_id@) {
            None => final(ws)@ == old(ws)@ && final(focus_manager)@ == old(focus_manager)@
                && final(cx)@ == old(cx)@,
            Some(i) => if alive {
                let u = close_undone(
                    old(ws)@,
                    old(focus_manager)@,
                    i,
                    terminal_id@,
                    old(cx)@.now,
                );
                final(ws)@ == u.0 && final(focus_manager)@ == u.1 && final(cx)@ == announced(
                    old(cx)@,
                )
            } else {
                final(ws)@ == (WorkspaceView {
                    owners: unkeyed(old(ws)@.owners, terminal_id@),
                    ..without_pending(old(ws)@, i)
                }) && final(focus_manager)@ == old(focus_manager)@ && final(cx)@ == old(cx)@
            },
        },
{
    deadlines.remove(terminal_id);
    ws.undo_soft_close(focus_manager, terminal_id, alive, cx);
}

/// Make a soft close final at once, and return every terminal whose process is
/// to be ended.
pub fn close_now_flow(
    deadlines: &mut IdMap<u64>,
    ws: &mut Workspace,
    terminal_id: &str,
    cx: &mut WorkspaceCx,
) -> (r: Vec<String>)
    ensures
        final(deadlines)@ == unkeyed(old(deadlines)@, terminal_id@),
        ({
            let w = all_finalized(old(ws)@, seq![terminal_id@], 1);
            texts(r@) == w.kills && final(ws)@ == (WorkspaceView { kills: Seq::empty(), ..w })
        }),
        final(cx)@ == if pending_at(old(ws)@, terminal_id@) is Some {
            announced(old(cx)@)
        } else {
            old(cx)@
        },
{
    proof {
        reveal_with_fuel(all_finalized, 2);
    }
    deadlines.remove(terminal_id);
    ws.finalize_soft_close(terminal_id, cx);
    ws.drain_pending_terminal_kills()
}

/// Whether one of the first `n` of `ids` was still pending when its turn came.
pub open spec fn any_finalized(w: WorkspaceView, ids: Seq<Seq<char>>, n: nat) -> bool
    decreases n,
{
    if n == 0 || n > ids.len() {
        false
    } else {
        any_finalized(w, ids, (n - 1) as nat) || finalized(
            all_finalized(w, ids, (n - 1) as nat),
            ids[n - 1],
        ) is Some
    }
}

/// The terminals whose deadline has passed at `now`, in order.
fn collect_expired(deadlines: &IdMap<u64>, now: u64) -> (r: Vec<String>)
    ensures
        texts(r@) == expired(deadlines@, now),
{
    let mut over: Vec<String> = Vec::new();
    let ghost all = deadlines@;
    let mut i: usize = 0;
    proof {
        assert(all.take(0) =~= Seq::<(Seq<char>, u64)>::empty());
        assert(texts(over@) =~= Seq::<Seq<char>>::empty());
    }
    while i < deadlines.len()
        invariant
            i <= deadlines@.len(),
            all == deadlines@,
            texts(over@) == expired(all.take(i as int), now),
        decreases deadlines@.len() - i,
    {
        proof {
            assert(all.take(i + 1).drop_last() =~= all.take(i as int));
        }
        if *deadlines.value_at(i) <= now {
            let ghost before = over@;
            over.push(deadlines.key_at(i).clone());
            proof {
                assert(texts(over@) =~= texts(before).push(all[i as int].0));
            }
        }
        i = i + 1;
    }
    proof {
        assert(all.take(i as int) =~= all);
    }
    over
}

/// Make the soft closes of all of `over` final.
fn finalize_all(over: &Vec<String>, ws: &mut Workspace, cx: &mut WorkspaceCx)
    ensures
        final(ws)@ == all_finalized(old(ws)@, texts(over@), over@.len()),
        final(cx)@ == if any_finalized(old(ws)@, texts(over@), over@.len()) {
            announced(old(cx)@)
        } else {
            old(cx)@
        },
{
    let ghost start = ws@;
    let ghost cx0 = cx@;
    let ghost ids = texts(over@);
    let mut k: usize = 0;
    while k < over.len()
        invariant
            k <= over@.len(),
            ids == texts(over@),
            ws@ == all_finalized(start, ids, k as nat),
            cx@ == if any_finalized(start, ids, k as nat) {
                announced(cx0)
            } else {
                cx0
            },
        decreases over@.len() - k,
    {
        proof {
            assert(ids[k as int] == over@[k as int]@);
        }
        ws.finalize_soft_close(over[k].as_str(), cx);
        k = k + 1;
    }
}

/// Make final every soft close whose grace period is over, and return every
/// terminal whose process is to be ended. Nothing happens where none is over.
pub fn finalize_expired(deadlines: &mut IdMap<u64>, ws: &mut Workspace, cx: &mut WorkspaceCx) -> (r:
    Vec<String>)
    ensures
        ({
            let over = expired(old(deadlines)@, old(cx)@.now);
            let w = all_finalized(old(ws)@, over, over.len());
            &&& final(deadlines)@ == sifted_keys(old(deadlines)@, over, false)
            &&& final(cx)@ == if any_finalized(old(ws)@, over, over.len()) {
                announced(old(cx)@)
            } else {
                old(cx)@
            }
            &&& if over.len() == 0 {
                texts(r@) == Seq::<Seq<char>>::empty() && final(ws)@ == old(ws)@
            } else {
                texts(r@) == w.kills && final(ws)@ == (WorkspaceView { kills: Seq::empty(), ..w })
            }
        }),
{
    let over = collect_expired(deadlines, cx.now);
    proof {
        assert(texts(over@).len() == over@.len());
    }
    deadlines.sift(&over, false);
    if over.len() == 0 {
        let none: Vec<String> = Vec::new();
        proof {
            assert(texts(none@) =~= Seq::<Seq<char>>::empty());
        }
        return none;
    }
    finalize_all(&over, ws, cx);
    ws.drain_pending_terminal_kills()
}

/// Replacing a project by one with the same id replaces it and no other.
pub proof fn with_project_lookup(ps: Seq<ProjectView>, id: Seq<char>, p: ProjectView, q: Seq<char>)
    requires
        project_in(ps, id) is Some,
        p.id == id,
    ensures
        project_in(with_project(ps, id, p), q) == if q == id {
            Some(p)
        } else {
            project_in(ps, q)
        },
{
    position_is_first(project_ids(ps), id);
    position_is_first(project_ids(ps), q);
    let i = project_at(ps, id)->0;
    assert(project_ids(ps.update(i, p)) =~= project_ids(ps));
}

/// What `project_in` finds is called so.
pub proof fn project_in_id(ps: Seq<ProjectView>, id: Seq<char>)
    ensures
        match project_in(ps, id) {
            Some(p) => p.id == id && project_ids(ps).contains(id),
            None => !project_ids(ps).contains(id),
        },
{
    position_is_first(project_ids(ps), id);
}

/// The first position of an id that is appended to a list without it.
pub proof fn position_of_pushed(s: Seq<Seq<char>>, id: Seq<char>)
    requires
        position(s, id) is None,
    ensures
        position(s.push(id), id) == Some(s.len() as int),
{
    assert(s.push(id).drop_last() =~= s);
}

/// Undoing a soft close at once brings back the layout that the project had and
/// the name of the terminal, gives the terminal the focus, and nothing is
/// remembered of the close.
pub proof fn undoing_at_once_restores_the_layout(
    w: WorkspaceView,
    f: FocusView,
    id: Seq<char>,
    path: Seq<usize>,
    t: Seq<char>,
    toast: Seq<char>,
    now: u64,
)
    requires
        pending_at(w, t) is None,
        ws_project(w, id) is Some,
    ensures
        ({
            let closed = soft_closed(w, id, path, t, toast);
            let i = w.pending_closes.len() as int;
            let u = close_undone(closed, f, i, t, now);
            &&& pending_at(closed, t) == Some(i)
            &&& ws_layout(u.0, id) == ws_layout(w, id)
            &&& ws_project(u.0, id) is Some
            &&& lookup((ws_project(u.0, id)->0).terminal_names, t) == lookup(
                (ws_project(w, id)->0).terminal_names,
                t,
            )
            &&& lookup(u.0.owners, t) is None
            &&& match ws_layout(w, id) {
                Some(l) => match slot_path(l, Some(t)) {
                    Some(q) => undo_restores(closed, t, true) && u.1 == focus_on(f, id, q),
                    None => !undo_restores(closed, t, true) && u.1 == f,
                },
                None => !undo_restores(closed, t, true) && u.1 == f,
            }
        }),
{
    let closed = soft_closed(w, id, path, t, toast);
    let i = w.pending_closes.len() as int;
    let p = ws_project(w, id)->0;
    project_in_id(w.data.projects, id);
    let remembered = owner_remembered(w, id, t);
    assert(remembered.data == w.data);
    match pane_closed(remembered, id, path) {
        Some(r) => {
            let rest = closed_layout(p.layout->0, path)->0;
            with_project_lookup(w.data.projects, id, trimmed_to(p, rest), id);
        },
        None => {},
    }
    assert(pending_ids(closed.pending_closes) =~= pending_ids(w.pending_closes).push(t));
    position_of_pushed(pending_ids(w.pending_closes), t);
    let pv = closed.pending_closes[i];
    assert(ws_layout(closed, id) == pv.post_close_layout);
    let dropped = WorkspaceView {
        owners: unkeyed(closed.owners, t),
        ..without_pending(closed, i)
    };
    assert(dropped.data == closed.data);
    let name = remembered_name(closed, t);
    let project = ws_project(closed, id)->0;
    project_in_id(closed.data.projects, id);
    let back = pane_restored(dropped, pv, t, name);
    let fixed = ProjectView {
        layout: restored_layout(project.layout, pv, t),
        terminal_names: match name {
            Some(n) => stored(project.terminal_names, t, n),
            None => project.terminal_names,
        },
        ..project
    };
    with_project_lookup(closed.data.projects, id, fixed, id);
    assert(ws_layout(back, id) == ws_layout(w, id));
    assert(back == pane_back(closed, i, t));
    lookup_after_store(w.owners, t, (id, lookup(p.terminal_names, t)), t);
    assert(closed.owners == remembered.owners);
    assert(name == lookup(p.terminal_names, t));
    lookup_after_remove(closed.owners, t, t);
    match name {
        Some(n) => {
            lookup_after_store(project.terminal_names, t, n, t);
        },
        None => {
            match pane_closed(remembered, id, path) {
                Some(_) => {
                    let rest = closed_layout(p.layout->0, path)->0;
                    lookup_after_sift(p.terminal_names, opt_terminal_ids(rest), true, t);
                },
                None => {},
            }
        },
    }
    assert(lookup(fixed.terminal_names, t) == lookup(p.terminal_names, t));
    with_project_lookup(
        back.data.projects,
        id,
        ProjectView { last_activity_at: Some(now), ..fixed },
        id,
    );
}

/// Where an undo reports that the terminal came back, its project is there and
/// its layout holds the terminal; in any case nothing is pending for it any
/// more.
pub proof fn an_undo_tells_what_is_there(
    w: WorkspaceView,
    f: FocusView,
    i: int,
    t: Seq<char>,
    now: u64,
)
    requires
        pending_at(w, t) == Some(i),
        pending_ids(w.pending_closes).no_duplicates(),
    ensures
        ({
            let u = close_undone(w, f, i, t, now).0;
            let id = w.pending_closes[i].project_id;
            &&& undo_restores(w, t, true) <==> ws_layout(u, id) is Some && slot_path(
                ws_layout(u, id)->0,
                Some(t),
            ) is Some
            &&& pending_at(u, t) is None
        }),
{
    finalizing_is_final(w, t);
    let id = w.pending_closes[i].project_id;
    let back = pane_back(w, i, t);
    assert(back.pending_closes == without_pending(w, i).pending_closes);
    if path_back(w, i, t) is Some {
        let p = ws_project(back, id)->0;
        project_in_id(back.data.projects, id);
        with_project_lookup(
            back.data.projects,
            id,
            ProjectView { last_activity_at: Some(now), ..p },
            id,
        );
    }
}

/// A soft close is made final once: after that nothing is pending for the
/// terminal.
pub proof fn finalizing_is_final(w: WorkspaceView, t: Seq<char>)
    requires
        finalized(w, t) is Some,
        pending_ids(w.pending_closes).no_duplicates(),
    ensures
        pending_at(finalized(w, t)->0, t) is None,
        finalized(finalized(w, t)->0, t) is None,
{
    let ids = pending_ids(w.pending_closes);
    position_is_first(ids, t);
    let i = pending_at(w, t)->0;
    let after = pending_ids(w.pending_closes.remove(i));
    assert(after =~= ids.remove(i));
    position_is_first(after, t);
    if after.contains(t) {
        let k = choose|k: int| 0 <= k < after.len() && after[k] == t;
        let k0 = if k < i {
            k
        } else {
            k + 1
        };
        assert(ids[k0] == t && k0 != i);
    }
}

} // verus!
