//! Messages shown to the user for a while.

use crate::text::opt_text;
use vstd::prelude::*;

verus! {

/// How a toast is drawn.
#[derive(Clone, Copy, Debug, PartialEq, Eq, Structural)]
pub enum ToastLevel {
    Info,
    Warning,
}

/// How a toast's button is drawn.
#[derive(Clone, Copy, Debug, PartialEq, Eq, Structural)]
pub enum ToastActionStyle {
    Primary,
    Danger,
}

/// A toast's button.
#[derive(Debug)]
pub struct ToastAction {
    pub id: String,
    pub label: String,
    pub style: ToastActionStyle,
}

/// What a [`ToastAction`] stands for.
pub struct ToastActionView {
    pub id: Seq<char>,
    pub label: Seq<char>,
    pub style: ToastActionStyle,
}

impl View for ToastAction {
    type V = ToastActionView;

    open spec fn view(&self) -> ToastActionView {
        ToastActionView { id: self.id@, label: self.label@, style: self.style }
    }
}

/// A message shown to the user for a while.
#[derive(Debug)]
pub struct Toast {
    pub id: Option<String>,
    pub level: ToastLevel,
    pub message: String,
    pub detail: Option<String>,
    /// How long it is shown, in seconds.
    pub ttl: Option<u64>,
    pub actions: Vec<ToastAction>,
}

/// What a [`Toast`] stands for.
pub struct ToastView {
    pub id: Option<Seq<char>>,
    pub level: ToastLevel,
    pub message: Seq<char>,
    pub detail: Option<Seq<char>>,
    pub ttl: Option<u64>,
    pub actions: Seq<ToastActionView>,
}

/// What each button of `s` stands for.
pub open spec fn action_views(s: Seq<ToastAction>) -> Seq<ToastActionView> {
    s.map_values(|a: ToastAction| a@)
}

impl View for Toast {
    type V = ToastView;

    open spec fn view(&self) -> ToastView {
        ToastView {
            id: opt_text(self.id),
            level: self.level,
            message: self.message@,
            detail: opt_text(self.detail),
            ttl: self.ttl,
            actions: action_views(self.actions@),
        }
    }
}

} // verus!
