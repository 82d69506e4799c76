//! Which view each window shows in place of its terminals.

use crate::state::WindowId;
use crate::text::{opt_text, same};
use vstd::prelude::*;

verus! {

/// A view of the harness.
#[derive(Clone, Copy, Debug, PartialEq, Eq, Structural)]
pub enum HarnessSection {
    Tasks,
    Specs,
    Agents,
}

/// The view that each window shows: one of the harness, or an extension's.
#[derive(Debug)]
pub struct HarnessState {
    active: Vec<(WindowId, HarnessSection)>,
    /// The extensions whose views show instead, by their keys.
    extension: Vec<(WindowId, String)>,
}

/// What a [`HarnessState`] stands for.
#[verifier::ext_equal]
pub struct HarnessView {
    pub active: Map<WindowId, HarnessSection>,
    pub extension: Map<WindowId, Seq<char>>,
}

/// What `s` says of each window, the last word counting.
pub open spec fn sections(s: Seq<(WindowId, HarnessSection)>) -> Map<WindowId, HarnessSection>
    decreases s.len(),
{
    if s.len() == 0 {
        Map::empty()
    } else {
        sections(s.drop_last()).insert(s.last().0, s.last().1)
    }
}

/// What `s` says of each window, the last word counting.
pub open spec fn extensions(s: Seq<(WindowId, String)>) -> Map<WindowId, Seq<char>>
    decreases s.len(),
{
    if s.len() == 0 {
        Map::empty()
    } else {
        extensions(s.drop_last()).insert(s.last().0, s.last().1@)
    }
}

impl View for HarnessState {
    type V = HarnessView;

    closed spec fn view(&self) -> HarnessView {
        HarnessView {
            active: sections(self.active@),
            extension: extensions(self.extension@),
        }
    }
}

/// The view of the harness that the window shows.
pub open spec fn section_in(s: HarnessView, w: WindowId) -> Option<HarnessSection> {
    if s.active.contains_key(w) {
        Some(s.active[w])
    } else {
        None
    }
}

/// The extension whose view the window shows.
pub open spec fn extension_in(s: HarnessView, w: WindowId) -> Option<Seq<char>> {
    if s.extension.contains_key(w) {
        Some(s.extension[w])
    } else {
        None
    }
}

/// `s` in which the window shows a view of the harness, or none.
pub open spec fn section_set(s: HarnessView, w: WindowId, section: Option<HarnessSection>) -> HarnessView {
    HarnessView {
        active: match section {
            Some(x) => s.active.insert(w, x),
            None => s.active.remove(w),
        },
        extension: s.extension.remove(w),
    }
}

/// `s` in which the window shows an extension's view, or none.
pub open spec fn extension_set(s: HarnessView, w: WindowId, key: Option<Seq<char>>) -> HarnessView {
    HarnessView {
        active: s.active.remove(w),
        extension: match key {
            Some(k) => s.extension.insert(w, k),
            None => s.extension.remove(w),
        },
    }
}

/// Whether showing this view of the harness changes anything.
pub open spec fn section_changes(s: HarnessView, w: WindowId, section: Option<HarnessSection>) -> bool {
    section_in(s, w) != section || extension_in(s, w) is Some
}

/// Whether showing this extension's view changes anything.
pub open spec fn extension_changes(s: HarnessView, w: WindowId, key: Option<Seq<char>>) -> bool {
    extension_in(s, w) != key || (key is Some && section_in(s, w) is Some)
}

/// Forget the window.
fn drop_section(v: &mut Vec<(WindowId, HarnessSection)>, w: WindowId)
    ensures
        sections(final(v)@) == sections(old(v)@).remove(w),
{
    let ghost s = v@;
    let mut kept: Vec<(WindowId, HarnessSection)> = Vec::new();
    let mut i: usize = 0;
    proof {
        assert(sections(s.take(0)).remove(w) =~= sections(kept@));
    }
    while i < v.len()
        invariant
            i <= v@.len(),
            s == v@,
            sections(kept@) == sections(s.take(i as int)).remove(w),
        decreases v@.len() - i,
    {
        proof {
            assert(s.take(i + 1).drop_last() =~= s.take(i as int));
        }
        if v[i].0 != w {
            let ghost before = kept@;
            kept.push((v[i].0, v[i].1));
            proof {
                assert(kept@.drop_last() =~= before);
            }
        }
        proof {
            assert(sections(kept@) =~= sections(s.take(i + 1)).remove(w));
        }
        i = i + 1;
    }
    proof {
        assert(s.take(i as int) =~= s);
    }
    *v = kept;
}

/// Forget the window.
fn drop_extension(v: &mut Vec<(WindowId, String)>, w: WindowId)
    ensures
        extensions(final(v)@) == extensions(old(v)@).remove(w),
{
    let ghost s = v@;
    let mut kept: Vec<(WindowId, String)> = Vec::new();
    let mut i: usize = 0;
    proof {
        assert(extensions(s.take(0)).remove(w) =~= extensions(kept@));
    }
    while i < v.len()
        invariant
            i <= v@.len(),
            s == v@,
            extensions(kept@) == extensions(s.take(i as int)).remove(w),
        decreases v@.len() - i,
    {
        proof {
            assert(s.take(i + 1).drop_last() =~= s.take(i as int));
        }
        if v[i].0 != w {
            let ghost before = kept@;
            kept.push((v[i].0, v[i].1.clone()));
            proof {
                assert(kept@.drop_last() =~= before);
            }
        }
        proof {
            assert(extensions(kept@) =~= extensions(s.take(i + 1)).remove(w));
        }
        i = i + 1;
    }
    proof {
        assert(s.take(i as int) =~= s);
    }
    *v = kept;
}

impl HarnessState {
    /// Every window shows its terminals.
    pub fn new() -> (r: Self)
        ensures
            r@ == (HarnessView { active: Map::empty(), extension: Map::empty() }),
    {
        HarnessState { active: Vec::new(), extension: Vec::new() }
    }

    /// The view of the harness that the window shows.
    pub fn active(&self, window: WindowId) -> (r: Option<HarnessSection>)
        ensures
            r == section_in(self@, window),
    {
        let ghost s = self.active@;
        let mut i: usize = self.active.len();
        proof {
            assert(s.take(i as int) =~= s);
        }
        while i > 0
            invariant
                i <= self.active@.len(),
                s == self.active@,
                sections(s).contains_key(window) == sections(s.take(i as int)).contains_key(window),
                sections(s).contains_key(window) ==> sections(s)[window] == sections(
                    s.take(i as int),
                )[window],
            decreases i,
        {
            i = i - 1;
            proof {
                assert(s.take(i + 1).drop_last() =~= s.take(i as int));
            }
            if self.active[i].0 == window {
                return Some(self.active[i].1);
            }
        }
        None
    }

    /// The extension whose view the window shows, by its key.
    pub fn active_extension(&self, window: WindowId) -> (r: Option<&str>)
        ensures
            match r {
                Some(k) => extension_in(self@, window) == Some(k@),
                None => extension_in(self@, window) is None,
            },
    {
        let ghost s = self.extension@;
        let mut i: usize = self.extension.len();
        proof {
            assert(s.take(i as int) =~= s);
        }
        while i > 0
            invariant
                i <= self.extension@.len(),
                s == self.extension@,
                extensions(s).contains_key(window) == extensions(s.take(i as int)).contains_key(
                    window,
                ),
                extensions(s).contains_key(window) ==> extensions(s)[window] == extensions(
                    s.take(i as int),
                )[window],
            decreases i,
        {
            i = i - 1;
            proof {
                assert(s.take(i + 1).drop_last() =~= s.take(i as int));
            }
            if self.extension[i].0 == window {
                return Some(self.extension[i].1.as_str());
            }
        }
        None
    }

    /// Whether showing this view of the harness changes anything.
    pub fn is_change(&self, window: WindowId, section: Option<HarnessSection>) -> (r: bool)
        ensures
            r == section_changes(self@, window, section),
    {
        let now = self.active(window);
        let differs: bool = match (now, section) {
            (Some(a), Some(b)) => a != b,
            (None, None) => false,
            _ => true,
        };
        differs || self.active_extension(window).is_some()
    }

    /// Show a view of the harness, or none. Returns whether observers are to be
    /// told.
    pub fn set(&mut self, window: WindowId, section: Option<HarnessSection>) -> (r: bool)
        ensures
            r == section_changes(old(self)@, window, section),
            final(self)@ == if r {
                section_set(old(self)@, window, section)
            } else {
                old(self)@
            },
    {
        if !self.is_change(window, section) {
            return false;
        }
        let ghost before = self@;
        drop_extension(&mut self.extension, window);
        drop_section(&mut self.active, window);
        if let Some(x) = section {
            let ghost v = self.active@;
            self.active.push((window, x));
            proof {
                assert(self.active@.drop_last() =~= v);
                assert(before.active.remove(window).insert(window, x) =~= before.active.insert(
                    window,
                    x,
                ));
            }
        }
        true
    }

    /// Show an extension's view, or none. Returns whether observers are to be
    /// told.
    pub fn set_extension(&mut self, window: WindowId, key: Option<String>) -> (r: bool)
        ensures
            r == extension_changes(old(self)@, window, opt_text(key)),
            final(self)@ == if r {
                extension_set(old(self)@, window, opt_text(key))
            } else {
                old(self)@
            },
    {
        let unchanged: bool = match (self.active_extension(window), &key) {
            (Some(a), Some(b)) => same(a, b.as_str()),
            (None, None) => true,
            _ => false,
        };
        if unchanged && (key.is_none() || self.active(window).is_none()) {
            return false;
        }
        let ghost before = self@;
        drop_section(&mut self.active, window);
        drop_extension(&mut self.extension, window);
        if let Some(k) = key {
            let ghost v = self.extension@;
            self.extension.push((window, k));
            proof {
                assert(self.extension@.drop_last() =~= v);
                assert(before.extension.remove(window).insert(window, k@)
                    =~= before.extension.insert(window, k@));
            }
        }
        true
    }
}

impl Default for HarnessState {
    fn default() -> (r: Self)
        ensures
            r@ == (HarnessView { active: Map::empty(), extension: Map::empty() }),
    {
        HarnessState::new()
    }
}

/// Whether no window shows two views.
pub open spec fn one_view_each(s: HarnessView) -> bool {
    forall|w: WindowId| !(#[trigger] s.active.contains_key(w) && s.extension.contains_key(w))
}

/// A window never shows a view of the harness and an extension's at once.
pub proof fn windows_show_one_view(
    s: HarnessView,
    w: WindowId,
    section: Option<HarnessSection>,
    key: Option<Seq<char>>,
)
    requires
        one_view_each(s),
    ensures
        one_view_each(section_set(s, w, section)),
        one_view_each(extension_set(s, w, key)),
{
}

/// Changing what one window shows leaves the others alone.
pub proof fn windows_are_independent(
    s: HarnessView,
    w: WindowId,
    other: WindowId,
    section: Option<HarnessSection>,
    key: Option<Seq<char>>,
)
    requires
        w != other,
    ensures
        section_in(section_set(s, w, section), other) == section_in(s, other),
        extension_in(section_set(s, w, section), other) == extension_in(s, other),
        section_in(extension_set(s, w, key), other) == section_in(s, other),
        extension_in(extension_set(s, w, key), other) == extension_in(s, other),
{
}

/// The view that was asked for is the one that shows, and asking for it again
/// changes nothing.
pub proof fn asking_again_changes_nothing(
    s: HarnessView,
    w: WindowId,
    section: Option<HarnessSection>,
    key: Option<Seq<char>>,
)
    ensures
        section_in(section_set(s, w, section), w) == section,
        extension_in(extension_set(s, w, key), w) == key,
        !section_changes(section_set(s, w, section), w, section),
        !extension_changes(extension_set(s, w, key), w, key),
{
}

} // verus!
