# okena_workspace

The state of a terminal workspace: projects, the pane layout of each, the folders
and windows that show them, git worktrees, and projects that other daemons lend.
The library holds the rules of that state and proves them with Verus. It does no
I/O: what the disk, git and the hooks have to say comes in as plain values, and
what they are to do goes out as requests and steps.

## Layout

- `src/text.rs`, `src/collections.rs`, `src/numbers.rs`, `src/sorted.rs`,
  `src/paths.rs`: strings, id lists and maps, numbers as text, paths.
- `src/outside.rs`: everything that is taken from other crates on trust.
- `src/layout*.rs`: pane trees, how they are edited, merged and moved.
- `src/state.rs`, `src/rows.rs`, `src/windows.rs`, `src/visibility.rs`,
  `src/focus.rs`, `src/workspace.rs`, `src/claims.rs`: the workspace itself.
- `src/wsl.rs`: Linux distributions on a Windows host, their shells and the
  session backends in them.
- `src/actions/`: what can be done to it.
- `src/persistence/`: loading, saving, and bringing old files up to date.
- `src/remote_*.rs`: projects of other daemons.
- `src/spaces*.rs`, `src/settings.rs`, `src/harness_state.rs`,
  `src/extensions_state.rs`, `src/process_memory.rs`, `src/claude_env.rs`,
  `src/requests.rs`, `src/toast.rs`: spaces, views and the rest of the state that
  a client keeps.
- `app/`: files, locks, JSON, and the loops in which git and hooks run.
- `tests/`: what is tried on given values.

## How steps work

A long operation (loading, saving, merging, closing or removing a worktree) is a
value that the host drives: `action()` says what to do next, `advance(reply)`
takes what came of it, and `outcome()` gives the result once there is nothing
left to do. The laws beside each of them say what holds however the host
replies.
