//! Which terminal and which project have the focus in one window.

use crate::text::{copy_opt, opt_text};
use vstd::prelude::*;

verus! {

/// A terminal, by its project and its place in the project's layout.
#[derive(Debug)]
pub struct FocusTarget {
    pub project_id: String,
    pub layout_path: Vec<usize>,
}

impl View for FocusTarget {
    type V = (Seq<char>, Seq<usize>);

    open spec fn view(&self) -> (Seq<char>, Seq<usize>) {
        (self.project_id@, self.layout_path@)
    }
}

impl FocusTarget {
    /// The terminal at `layout_path` in `project_id`.
    pub fn new(project_id: String, layout_path: Vec<usize>) -> (r: Self)
        ensures
            r@ == (project_id@, layout_path@),
    {
        FocusTarget { project_id, layout_path }
    }

    /// A copy.
    pub fn copy(&self) -> (r: Self)
        ensures
            r@ == self@,
    {
        FocusTarget { project_id: self.project_id.clone(), layout_path: copy_path(&self.layout_path) }
    }
}

/// What an optional target stands for.
pub open spec fn opt_target(o: Option<FocusTarget>) -> Option<(Seq<char>, Seq<usize>)> {
    match o {
        Some(t) => Some(t@),
        None => None,
    }
}

/// A copy of a layout path.
pub fn copy_path(v: &Vec<usize>) -> (r: Vec<usize>)
    ensures
        r@ == v@,
{
    let mut out: Vec<usize> = Vec::new();
    let mut i: usize = 0;
    while i < v.len()
        invariant
            i <= v.len(),
            out@ == v@.take(i as int),
        decreases v.len() - i,
    {
        out.push(v[i]);
        proof {
            assert(v@.take(i + 1) =~= v@.take(i as int).push(v@[i as int]));
        }
        i = i + 1;
    }
    proof {
        assert(v@.take(i as int) =~= v@);
    }
    out
}

/// A terminal that fills its window, and what the focus was before.
#[derive(Debug)]
pub struct Fullscreen {
    pub project_id: String,
    pub terminal_id: String,
    pub saved_focus: Option<FocusTarget>,
    pub saved_project_id: Option<String>,
    pub saved_individual: bool,
}

/// What a [`Fullscreen`] stands for.
pub struct FullscreenView {
    pub project_id: Seq<char>,
    pub terminal_id: Seq<char>,
    pub saved_focus: Option<(Seq<char>, Seq<usize>)>,
    pub saved_project_id: Option<Seq<char>>,
    pub saved_individual: bool,
}

impl View for Fullscreen {
    type V = FullscreenView;

    open spec fn view(&self) -> FullscreenView {
        FullscreenView {
            project_id: self.project_id@,
            terminal_id: self.terminal_id@,
            saved_focus: opt_target(self.saved_focus),
            saved_project_id: opt_text(self.saved_project_id),
            saved_individual: self.saved_individual,
        }
    }
}

/// What an optional [`Fullscreen`] stands for.
pub open spec fn opt_fullscreen(o: Option<Fullscreen>) -> Option<FullscreenView> {
    match o {
        Some(f) => Some(f@),
        None => None,
    }
}

/// The focus of one window.
#[derive(Debug)]
pub struct FocusManager {
    focused: Option<FocusTarget>,
    modal: bool,
    focused_project_id: Option<String>,
    individual: bool,
    fullscreen: Option<Fullscreen>,
}

/// What a [`FocusManager`] stands for.
pub struct FocusView {
    /// The terminal that has the focus, or gets it back when the modal closes.
    pub focused: Option<(Seq<char>, Seq<usize>)>,
    /// Whether a modal holds the keyboard.
    pub modal: bool,
    /// The project that the window is zoomed to.
    pub focused_project_id: Option<Seq<char>>,
    /// Whether the zoom leaves out the project's worktrees.
    pub individual: bool,
    /// The terminal that fills the window.
    pub fullscreen: Option<FullscreenView>,
}

impl View for FocusManager {
    type V = FocusView;

    closed spec fn view(&self) -> FocusView {
        FocusView {
            focused: opt_target(self.focused),
            modal: self.modal,
            focused_project_id: opt_text(self.focused_project_id),
            individual: self.individual,
            fullscreen: opt_fullscreen(self.fullscreen),
        }
    }
}

/// `f` with the terminal at `path` of `project` focused.
pub open spec fn focus_on(f: FocusView, project: Seq<char>, path: Seq<usize>) -> FocusView {
    FocusView { focused: Some((project, path)), modal: false, ..f }
}

/// `f` with the terminal filling the window.
pub open spec fn fullscreen_on(
    f: FocusView,
    project: Seq<char>,
    path: Seq<usize>,
    terminal: Seq<char>,
) -> FocusView {
    FocusView {
        focused: Some((project, path)),
        modal: false,
        focused_project_id: Some(project),
        individual: f.individual,
        fullscreen: Some(
            match f.fullscreen {
                Some(s) => FullscreenView { project_id: project, terminal_id: terminal, ..s },
                None => FullscreenView {
                    project_id: project,
                    terminal_id: terminal,
                    saved_focus: f.focused,
                    saved_project_id: f.focused_project_id,
                    saved_individual: f.individual,
                },
            },
        ),
    }
}

/// `f` with nothing filling the window and the focus as it was before.
pub open spec fn fullscreen_off(f: FocusView) -> FocusView {
    match f.fullscreen {
        Some(s) => FocusView {
            focused: s.saved_focus,
            modal: f.modal,
            focused_project_id: s.saved_project_id,
            individual: s.saved_individual,
            fullscreen: None,
        },
        None => f,
    }
}

/// `f` while a modal has the keyboard.
pub open spec fn modal_on(f: FocusView) -> FocusView {
    FocusView { modal: true, ..f }
}

/// `f` once the modal has given the keyboard back.
pub open spec fn modal_off(f: FocusView) -> FocusView {
    FocusView { modal: false, ..f }
}

/// No focus at all.
pub open spec fn no_focus() -> FocusView {
    FocusView {
        focused: None,
        modal: false,
        focused_project_id: None,
        individual: false,
        fullscreen: None,
    }
}

impl FocusManager {
    /// A window without focus.
    pub fn new() -> (r: Self)
        ensures
            r@ == no_focus(),
    {
        FocusManager {
            focused: None,
            modal: false,
            focused_project_id: None,
            individual: false,
            fullscreen: None,
        }
    }

    /// The terminal that has the focus, or gets it back when the modal closes.
    pub fn focused_terminal_state(&self) -> (r: Option<&FocusTarget>)
        ensures
            match r {
                Some(t) => self@.focused == Some(t@),
                None => self@.focused is None,
            },
    {
        self.focused.as_ref()
    }

    /// The project that the window is zoomed to.
    pub fn focused_project_id(&self) -> (r: Option<&String>)
        ensures
            match r {
                Some(id) => self@.focused_project_id == Some(id@),
                None => self@.focused_project_id is None,
            },
    {
        self.focused_project_id.as_ref()
    }

    /// Whether the zoom leaves out the project's worktrees.
    pub fn is_focus_individual(&self) -> (r: bool)
        ensures
            r == self@.individual,
    {
        self.individual
    }

    /// Whether a modal holds the keyboard.
    pub fn is_modal(&self) -> (r: bool)
        ensures
            r == self@.modal,
    {
        self.modal
    }

    /// The project of the terminal that fills the window.
    pub fn fullscreen_project_id(&self) -> (r: Option<&String>)
        ensures
            match r {
                Some(id) => self@.fullscreen is Some && self@.fullscreen->0.project_id == id@,
                None => self@.fullscreen is None,
            },
    {
        match &self.fullscreen {
            Some(f) => Some(&f.project_id),
            None => None,
        }
    }

    /// Focus a terminal.
    pub fn focus_terminal(&mut self, project_id: String, layout_path: Vec<usize>)
        ensures
            final(self)@ == focus_on(old(self)@, project_id@, layout_path@),
    {
        self.focused = Some(FocusTarget { project_id, layout_path });
        self.modal = false;
    }

    /// Focus nothing.
    pub fn clear_focus(&mut self)
        ensures
            final(self)@ == (FocusView { focused: None, modal: false, ..old(self)@ }),
    {
        self.focused = None;
        self.modal = false;
    }

    /// Zoom to a project and its worktrees, or to nothing.
    pub fn set_focused_project_id(&mut self, project_id: Option<String>)
        ensures
            final(self)@ == (FocusView {
                focused_project_id: opt_text(project_id),
                individual: false,
                ..old(self)@
            }),
    {
        self.focused_project_id = project_id;
        self.individual = false;
    }

    /// Zoom to a project without its worktrees.
    pub fn set_focused_project_id_individual(&mut self, project_id: Option<String>)
        ensures
            final(self)@ == (FocusView {
                focused_project_id: opt_text(project_id),
                individual: true,
                ..old(self)@
            }),
    {
        self.focused_project_id = project_id;
        self.individual = true;
    }

    /// Let a terminal fill the window, and remember the focus before.
    pub fn enter_fullscreen(
        &mut self,
        project_id: String,
        layout_path: Vec<usize>,
        terminal_id: String,
    )
        ensures
            final(self)@ == fullscreen_on(old(self)@, project_id@, layout_path@, terminal_id@),
    {
        let before = self.fullscreen.take();
        let ghost start = *self;
        self.fullscreen =
        match before {
            Some(f) => Some(
                Fullscreen {
                    project_id: project_id.clone(),
                    terminal_id,
                    saved_focus: f.saved_focus,
                    saved_project_id: f.saved_project_id,
                    saved_individual: f.saved_individual,
                },
            ),
            None => Some(
                Fullscreen {
                    project_id: project_id.clone(),
                    terminal_id,
                    saved_focus: match &self.focused {
                        Some(t) => Some(t.copy()),
                        None => None,
                    },
                    saved_project_id: copy_opt(&self.focused_project_id),
                    saved_individual: self.individual,
                },
            ),
        };
        self.focused_project_id = Some(project_id.clone());
        self.focused = Some(FocusTarget { project_id, layout_path });
        self.modal = false;
    }

    /// Let nothing fill the window, and bring back the focus from before.
    pub fn exit_fullscreen(&mut self)
        ensures
            final(self)@ == fullscreen_off(old(self)@),
    {
        let before = self.fullscreen.take();
        match before {
            Some(f) => {
                self.focused = f.saved_focus;
                self.focused_project_id = f.saved_project_id;
                self.individual = f.saved_individual;
            },
            None => {},
        }
    }

    /// Let nothing fill the window, and keep the focus as it is.
    pub fn clear_fullscreen_without_restore(&mut self)
        ensures
            final(self)@ == (FocusView { fullscreen: None, ..old(self)@ }),
    {
        self.fullscreen = None;
    }

    /// Hand the keyboard to a modal; the terminal gets it back afterwards.
    pub fn enter_modal(&mut self)
        ensures
            final(self)@ == modal_on(old(self)@),
    {
        self.modal = true;
    }

    /// Take the keyboard back from a modal.
    pub fn exit_modal(&mut self)
        ensures
            final(self)@ == modal_off(old(self)@),
    {
        self.modal = false;
    }

    /// Change which terminal gets the keyboard back when the modal closes.
    pub fn redirect_modal_focus(&mut self, target: Option<FocusTarget>)
        ensures
            final(self)@ == (FocusView { focused: opt_target(target), ..old(self)@ }),
    {
        self.focused = target;
    }
}

/// Entering and leaving fullscreen brings the focus back.
pub proof fn leaving_fullscreen_restores(
    f: FocusView,
    project: Seq<char>,
    path: Seq<usize>,
    terminal: Seq<char>,
)
    requires
        f.fullscreen is None,
        !f.modal,
    ensures
        fullscreen_off(fullscreen_on(f, project, path, terminal)) == f,
{
}

/// Opening and closing a modal brings the focus back.
pub proof fn leaving_a_modal_restores(f: FocusView)
    requires
        !f.modal,
    ensures
        modal_off(modal_on(f)) == f,
{
}

} // verus!
