//! Linux distributions on a Windows machine.
//!
//! Which distribution a path lies in, and what keeps sessions alive there, is
//! for the host to find out; what it found comes in as [`WslFacts`].

use crate::collections::{Duplicate, IdMap, lookup};
use crate::layout::{ShellType, ShellView};
use crate::state::opt_shell;
use crate::text::opt_text;
use vstd::prelude::*;

verus! {

/// What keeps terminal sessions alive in a distribution.
#[derive(Clone, Copy, Debug, PartialEq, Eq, Structural)]
pub enum ResolvedBackend {
    NoBackend,
    Dtach,
    Tmux,
    Screen,
}

impl View for ResolvedBackend {
    type V = ResolvedBackend;

    open spec fn view(&self) -> ResolvedBackend {
        *self
    }
}

impl Duplicate for ResolvedBackend {
    fn duplicate(&self) -> (r: Self) {
        *self
    }
}

/// Whether sessions outlive the program.
pub open spec fn persists(b: ResolvedBackend) -> bool {
    b != ResolvedBackend::NoBackend
}

impl ResolvedBackend {
    /// Whether sessions outlive the program.
    pub fn supports_persistence(self) -> (r: bool)
        ensures
            r == persists(self),
    {
        self != ResolvedBackend::NoBackend
    }
}

/// What the host knows of the distributions on its machine.
#[derive(Debug)]
pub struct WslFacts {
    /// Whether the host runs Windows. Elsewhere nothing else here counts.
    pub windows: bool,
    /// The distribution that each path lies in, if it lies in one.
    pub distros: IdMap<String>,
    /// What keeps sessions alive in each distribution.
    pub backends: IdMap<ResolvedBackend>,
    /// What does so in the one that is used where none is named.
    pub default_backend: ResolvedBackend,
}

/// What [`WslFacts`] stand for.
pub struct WslView {
    pub windows: bool,
    pub distros: Seq<(Seq<char>, Seq<char>)>,
    pub backends: Seq<(Seq<char>, ResolvedBackend)>,
    pub default_backend: ResolvedBackend,
}

impl View for WslFacts {
    type V = WslView;

    open spec fn view(&self) -> WslView {
        WslView {
            windows: self.windows,
            distros: self.distros@,
            backends: self.backends@,
            default_backend: self.default_backend,
        }
    }
}

/// What keeps sessions alive in `distro`; nothing where the host knows of
/// nothing.
pub open spec fn backend_of(w: WslView, distro: Option<Seq<char>>) -> ResolvedBackend {
    match distro {
        Some(d) => match lookup(w.backends, d) {
            Some(b) => b,
            None => ResolvedBackend::NoBackend,
        },
        None => w.default_backend,
    }
}

/// The shell of the distribution that `path` lies in.
pub open spec fn shell_at(w: WslView, path: Seq<char>) -> Option<ShellView> {
    if w.windows {
        match lookup(w.distros, path) {
            Some(d) => Some(ShellView::Wsl { distro: Some(d) }),
            None => None,
        }
    } else {
        None
    }
}

/// The default shell of a project at `path`: its own, or else that of the
/// distribution that it lies in.
pub open spec fn detected_shell(w: WslView, own: Option<ShellView>, path: Seq<char>) -> Option<
    ShellView,
> {
    if own is Some {
        own
    } else {
        shell_at(w, path)
    }
}

/// Whether the sessions of a project with the default shell `s` outlive the
/// program by what its distribution has.
pub open spec fn outlives(w: WslView, s: Option<ShellView>) -> bool {
    match s {
        Some(ShellView::Wsl { distro }) => w.windows && persists(backend_of(w, distro)),
        _ => false,
    }
}

impl WslFacts {
    /// A machine without distributions.
    pub fn none() -> (r: Self)
        ensures
            !r@.windows,
            r@.distros.len() == 0,
            r@.backends.len() == 0,
            r@.default_backend == ResolvedBackend::NoBackend,
    {
        WslFacts {
            windows: false,
            distros: IdMap::new(),
            backends: IdMap::new(),
            default_backend: ResolvedBackend::NoBackend,
        }
    }

    /// What keeps sessions alive in `distro`.
    pub fn backend(&self, distro: &Option<String>) -> (r: ResolvedBackend)
        ensures
            r == backend_of(self@, opt_text(*distro)),
    {
        match distro {
            Some(d) => match self.backends.get(d.as_str()) {
                Some(b) => *b,
                None => ResolvedBackend::NoBackend,
            },
            None => self.default_backend,
        }
    }

    /// The shell of the distribution that `path` lies in.
    pub fn shell(&self, path: &str) -> (r: Option<ShellType>)
        ensures
            opt_shell(r) == shell_at(self@, path@),
    {
        if !self.windows {
            return None;
        }
        match self.distros.get(path) {
            Some(d) => Some(ShellType::Wsl { distro: Some(d.clone()) }),
            None => None,
        }
    }

    /// Whether the sessions of a project with this default shell outlive the
    /// program.
    pub fn keeps(&self, shell: &Option<ShellType>) -> (r: bool)
        ensures
            r == outlives(self@, opt_shell(*shell)),
    {
        match shell {
            Some(ShellType::Wsl { distro }) => self.windows && self.backend(
                distro,
            ).supports_persistence(),
            _ => false,
        }
    }
}

} // verus!
