//! The overlay that finds a tab template by a few letters of its name.

use crate::ui::keys::{
    KEY_DOWN, KEY_ESCAPE, KEY_KP_ENTER, KEY_RETURN, KEY_TAB, KEY_UP,
};
use vstd::prelude::*;

verus! {

/// The height of the overlay.
pub const QUICK_OPEN_HEIGHT: i32 = 250;

/// How many matches are shown at most.
pub const MAX_RESULTS: usize = 8;

/// What the overlay says when nothing matches.
pub const NO_RESULTS: &'static str = "No templates found";

/// What a key does in the overlay.
#[derive(Clone, Copy, Debug, PartialEq, Eq, Structural)]
pub enum OverlayKey {
    Next,
    Previous,
    Confirm,
    Conceal,
    /// The key belongs to the search text.
    Other,
}

/// What a key does in the overlay.
pub open spec fn key_meaning(keyval: u32) -> OverlayKey {
    if keyval == KEY_DOWN || keyval == KEY_TAB {
        OverlayKey::Next
    } else if keyval == KEY_UP {
        OverlayKey::Previous
    } else if keyval == KEY_RETURN || keyval == KEY_KP_ENTER {
        OverlayKey::Confirm
    } else if keyval == KEY_ESCAPE {
        OverlayKey::Conceal
    } else {
        OverlayKey::Other
    }
}

/// The arrow down and Tab go on, the arrow up goes back, both Enter keys confirm, Escape
/// takes the overlay away, and every other key belongs to the search.
pub proof fn law_overlay_keys_have_their_meaning(keyval: u32)
    ensures
        key_meaning(keyval) == OverlayKey::Next <==> keyval == 0xff54 || keyval == 0xff09,
        key_meaning(keyval) == OverlayKey::Previous <==> keyval == 0xff52,
        key_meaning(keyval) == OverlayKey::Confirm <==> keyval == 0xff0d || keyval == 0xff8d,
        key_meaning(keyval) == OverlayKey::Conceal <==> keyval == 0xff1b,
{
}

/// The matches that are shown: the best of them.
pub open spec fn best_matches<T>(matches: Seq<T>) -> Seq<T> {
    if matches.len() <= MAX_RESULTS {
        matches
    } else {
        matches.take(MAX_RESULTS as int)
    }
}

/// Of what a search found the first eight are shown, in their order, and all of fewer.
pub proof fn law_best_matches_are_shown<T>(matches: Seq<T>, index: int)
    ensures
        best_matches(matches).len() <= 8,
        best_matches(matches).is_prefix_of(matches),
        matches.len() <= 8 ==> best_matches(matches) == matches,
        matches.len() > 8 ==> best_matches(matches).len() == 8,
        0 <= index < best_matches(matches).len() ==> best_matches(matches)[index] == matches[index],
{
}

pub fn overlay_key(keyval: u32) -> (key: OverlayKey)
    ensures
        key == key_meaning(keyval),
{
    if keyval == KEY_DOWN || keyval == KEY_TAB {
        OverlayKey::Next
    } else if keyval == KEY_UP {
        OverlayKey::Previous
    } else if keyval == KEY_RETURN || keyval == KEY_KP_ENTER {
        OverlayKey::Confirm
    } else if keyval == KEY_ESCAPE {
        OverlayKey::Conceal
    } else {
        OverlayKey::Other
    }
}

/// The overlay. `T` is a template that the search text matches.
pub struct QuickOpenOverlay<T> {
    filtered: Vec<T>,
    selected: usize,
    visible: bool,
}

impl<T> QuickOpenOverlay<T> {
    /// The matches that are shown.
    pub closed spec fn shown(&self) -> Seq<T> {
        self.filtered@
    }

    /// The place of the selected match.
    pub closed spec fn selection(&self) -> int {
        self.selected as int
    }

    pub closed spec fn is_open(&self) -> bool {
        self.visible
    }

    /// At most so many matches are shown, and the selection is one of them.
    pub closed spec fn valid(&self) -> bool {
        &&& self.filtered@.len() <= MAX_RESULTS
        &&& self.filtered@.len() > 0 ==> self.selected < self.filtered@.len()
        &&& self.filtered@.len() == 0 ==> self.selected == 0
    }

    /// An overlay never shows more than it may, and where it shows anything, one of
    /// the shown entries is selected.
    pub proof fn law_selection_is_shown(&self)
        requires
            self.valid(),
        ensures
            self.shown().len() <= MAX_RESULTS,
            0 <= self.selection(),
            self.shown().len() > 0 ==> self.selection() < self.shown().len(),
    {
    }

    /// An overlay that shows nothing yet.
    pub fn new() -> (overlay: Self)
        ensures
            overlay.valid(),
            overlay.shown() == Seq::<T>::empty(),
            overlay.selection() == 0,
            !overlay.is_open(),
    {
        QuickOpenOverlay { filtered: Vec::new(), selected: 0, visible: false }
    }

    /// The search found these templates, the best first.
    pub fn update_filter(&mut self, matches: Vec<T>)
        ensures
            final(self).valid(),
            final(self).shown() == best_matches(matches@),
            final(self).selection() == 0,
            final(self).is_open() == old(self).is_open(),
    {
        let mut filtered = matches;
        if filtered.len() > MAX_RESULTS {
            filtered.truncate(MAX_RESULTS);
            proof {
                assert(filtered@ =~= matches@.take(MAX_RESULTS as int));
            }
        }
        self.filtered = filtered;
        self.selected = 0;
    }

    /// Show the overlay for an empty search.
    pub fn show(&mut self, matches: Vec<T>)
        ensures
            final(self).valid(),
            final(self).shown() == best_matches(matches@),
            final(self).selection() == 0,
            final(self).is_open(),
    {
        self.update_filter(matches);
        self.visible = true;
    }

    /// Take the overlay away.
    pub fn conceal(&mut self)
        requires
            old(self).valid(),
        ensures
            final(self).valid(),
            final(self).shown() == old(self).shown(),
            final(self).selection() == old(self).selection(),
            !final(self).is_open(),
    {
        self.visible = false;
    }

    pub fn is_visible(&self) -> (visible: bool)
        ensures
            visible == self.is_open(),
    {
        self.visible
    }

    /// The selected place.
    pub fn selected_index(&self) -> (index: usize)
        ensures
            index == self.selection(),
    {
        self.selected
    }

    /// Select the match after the selected one, or the first after the last.
    pub fn select_next(&mut self)
        requires
            old(self).valid(),
        ensures
            final(self).valid(),
            final(self).shown() == old(self).shown(),
            final(self).is_open() == old(self).is_open(),
            final(self).selection() == next_selection(
                old(self).selection(),
                old(self).shown().len() as int,
            ),
    {
        let count: usize = self.filtered.len();
        if count == 0 {
            return;
        }
        self.selected = if self.selected + 1 >= count {
            0
        } else {
            self.selected + 1
        };
    }

    /// Select the match before the selected one, or the last before the first.
    pub fn select_previous(&mut self)
        requires
            old(self).valid(),
        ensures
            final(self).valid(),
            final(self).shown() == old(self).shown(),
            final(self).is_open() == old(self).is_open(),
            final(self).selection() == previous_selection(
                old(self).selection(),
                old(self).shown().len() as int,
            ),
    {
        let count: usize = self.filtered.len();
        if count == 0 {
            return;
        }
        self.selected = if self.selected == 0 {
            count - 1
        } else {
            self.selected - 1
        };
    }

    /// Select the match at a place that was clicked.
    pub fn select(&mut self, index: usize)
        requires
            old(self).valid(),
        ensures
            final(self).valid(),
            final(self).shown() == old(self).shown(),
            final(self).is_open() == old(self).is_open(),
            final(self).selection() == (if index < old(self).shown().len() {
                index as int
            } else {
                old(self).selection()
            }),
    {
        if index < self.filtered.len() {
            self.selected = index;
        }
    }

    /// Confirm the selection: the overlay goes away and hands out the match, where
    /// there is one.
    pub fn confirm_selection(&mut self) -> (confirmed: Option<usize>)
        requires
            old(self).valid(),
        ensures
            final(self).valid(),
            final(self).shown() == old(self).shown(),
            final(self).selection() == old(self).selection(),
            if old(self).shown().len() > 0 {
                &&& confirmed matches Some(index) && index == old(self).selection()
                &&& !final(self).is_open()
            } else {
                confirmed is None && final(self).is_open() == old(self).is_open()
            },
    {
        if self.selected < self.filtered.len() {
            self.visible = false;
            Some(self.selected)
        } else {
            None
        }
    }

    /// The match at a place.
    pub fn matched(&self, index: usize) -> (matched: Option<&T>)
        ensures
            matched == (if index < self.shown().len() {
                Some(&self.shown()[index as int])
            } else {
                None
            }),
    {
        if index < self.filtered.len() {
            Some(&self.filtered[index])
        } else {
            None
        }
    }

    /// Confirm the selection for a scripted run, which has to be asked for.
    /// Tells whether there was one.
    pub fn confirm_selection_for_ci(&mut self, requested: bool) -> (confirmed: Option<usize>)
        requires
            old(self).valid(),
        ensures
            final(self).valid(),
            final(self).shown() == old(self).shown(),
            final(self).selection() == old(self).selection(),
            if requested && old(self).shown().len() > 0 {
                &&& confirmed matches Some(index) && index == old(self).selection()
                &&& !final(self).is_open()
            } else {
                confirmed is None && final(self).is_open() == old(self).is_open()
            },
    {
        if !requested {
            return None;
        }
        self.confirm_selection()
    }
}

/// The place after a place, around the end.
pub open spec fn next_selection(selected: int, count: int) -> int {
    if count == 0 {
        selected
    } else if selected + 1 >= count {
        0
    } else {
        selected + 1
    }
}

/// The place before a place, around the start.
pub open spec fn previous_selection(selected: int, count: int) -> int {
    if count == 0 {
        selected
    } else if selected == 0 {
        count - 1
    } else {
        selected - 1
    }
}

/// Going on and going back leads to where it started, both ways.
pub proof fn law_selection_goes_back_and_forth(selected: int, count: int)
    requires
        0 <= selected,
        selected < count || count == 0,
    ensures
        previous_selection(next_selection(selected, count), count) == selected,
        next_selection(previous_selection(selected, count), count) == selected,
{
}

/// Going on selects the place behind, and going back the one before; from the last place
/// it goes on to the first, and from the first back to the last.
pub proof fn law_selection_moves_one_place(selected: int, count: int)
    requires
        0 <= selected < count,
    ensures
        selected + 1 < count ==> next_selection(selected, count) == selected + 1,
        next_selection(count - 1, count) == 0,
        selected > 0 ==> previous_selection(selected, count) == selected - 1,
        previous_selection(0, count) == count - 1,
        next_selection(0, 0) == 0,
        previous_selection(0, 0) == 0,
{
}

} // verus!
