//! What messages tell: which terminal was closed and where, and who holds the
//! lock.

use crate::actions::soft_close_flow::{
    after_last_slash, directory_name, soft_close_toast, toast_title, without_end_slashes,
};
use crate::collections::lookup;
use crate::numbers::decimal;
use crate::persistence::instance_lock::{held_message, lock_pid};
use crate::state::ProjectView;
use vstd::prelude::*;

verus! {

/// Whether `part` stands somewhere in `s`.
pub open spec fn tells_of(s: Seq<char>, part: Seq<char>) -> bool {
    exists|a: Seq<char>, b: Seq<char>| s == #[trigger] (a + part + b)
}

/// The name of a directory is what stands behind the last slash of its path, and
/// slashes at the end do not count.
pub proof fn directories_are_called_by_their_name(root: Seq<char>, name: Seq<char>)
    requires
        name.len() > 0,
        !name.contains('/'),
    ensures
        directory_name(root + "/"@ + name) == name,
        directory_name(root + "/"@ + name + "/"@) == name,
        directory_name(name) == name,
{
    reveal_strlit("/");
    let path = root + "/"@ + name;
    let head = root + "/"@;
    assert(path.last() == name.last());
    assert(name.contains(name.last())) by {
        assert(name[name.len() - 1] == name.last());
    }
    assert(without_end_slashes(path) == path);
    assert((path + "/"@).drop_last() =~= path);
    assert((path + "/"@).last() == '/');
    behind_the_slash(head, name);
    assert(head + name =~= path);
    assert(after_last_slash(head) == Seq::<char>::empty()) by {
        assert(head.last() == '/');
    }
    assert(Seq::<char>::empty() + name =~= name);
    assert(without_end_slashes(name) == name);
    behind_the_slash(Seq::empty(), name);
    assert(Seq::<char>::empty() + name =~= name);
}

proof fn behind_the_slash(head: Seq<char>, name: Seq<char>)
    requires
        !name.contains('/'),
    ensures
        after_last_slash(head + name) == after_last_slash(head) + name,
    decreases name.len(),
{
    if name.len() == 0 {
        assert(head + name =~= head);
        assert(after_last_slash(head) + name =~= after_last_slash(head));
    } else {
        let front = name.drop_last();
        assert(name[name.len() - 1] == name.last());
        assert(name.contains(name.last()));
        assert(!front.contains('/')) by {
            if front.contains('/') {
                let i = choose|i: int| 0 <= i < front.len() && front[i] == '/';
                assert(name[i] == '/');
            }
        }
        behind_the_slash(head, front);
        assert((head + name).drop_last() =~= head + front);
        assert((head + name).last() == name.last());
        assert((after_last_slash(head) + front).push(name.last()) =~= after_last_slash(head)
            + name);
    }
}

/// The toast of a close tells which terminal it was, by its own name, and in which
/// project and directory; it stays for the grace period.
pub proof fn toasts_tell_of_the_terminal(
    p: ProjectView,
    title: Option<Seq<char>>,
    cwd: Seq<char>,
    t: Seq<char>,
    name: Seq<char>,
    command: Option<Seq<char>>,
    toast: Seq<char>,
    grace: u32,
)
    requires
        lookup(p.terminal_names, t) == Some(name),
        name != directory_name(p.path),
        0 < name.len() <= 42,
        cwd.len() <= 30,
    ensures
        ({
            let shown = soft_close_toast(
                Some(p),
                title,
                Some(cwd),
                None,
                p.id,
                t,
                command,
                toast,
                grace,
            );
            &&& tells_of(shown.message, name)
            &&& shown.detail is Some
            &&& tells_of(shown.detail->0, p.name)
            &&& tells_of(shown.detail->0, cwd)
            &&& shown.ttl == Some(grace as u64)
            &&& shown.id == Some(toast)
        }),
{
    let none = Seq::<char>::empty();
    let detail = p.name + " \u{b7} "@ + cwd;
    reveal_strlit(" \u{b7} ");
    assert(detail.len() > 0);
    assert(detail =~= none + p.name + (" \u{b7} "@ + cwd));
    assert(detail =~= (p.name + " \u{b7} "@) + cwd + none);
    assert(toast_title(Some(name)) == "Closed \u{201c}"@ + name + "\u{201d}"@);
}

/// Who finds the lock held is told by which process.
pub proof fn the_holder_of_the_lock_is_told(
    content: Seq<char>,
    error: Seq<char>,
    path: Seq<char>,
    pid: u32,
)
    requires
        lock_pid(content) == Some(pid),
    ensures
        tells_of(held_message(content, error, path), "PID "@ + decimal(pid as nat)),
        tells_of(held_message(content, error, path), error),
        tells_of(held_message(content, error, path), path),
{
    let none = Seq::<char>::empty();
    let owner = "PID "@ + decimal(pid as nat);
    let a = "Another Okena instance is already running ("@;
    let b = "): "@;
    let c = ". If this is incorrect, delete "@;
    let d = " and try again."@;
    let whole = held_message(content, error, path);
    assert(whole =~= a + owner + (b + error + c + path + d));
    assert(whole =~= (a + owner + b) + error + (c + path + d));
    assert(whole =~= (a + owner + b + error + c) + path + d);
}

} // verus!
