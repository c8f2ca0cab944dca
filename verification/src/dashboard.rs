//! The dashboard's state machine: a list of analyzed results, a selected
//! row, and a reducer from input events to the next state and the action
//! the surrounding event loop must take. The loop, the terminal and the
//! folder-reveal collaborator live outside the library.

use vstd::prelude::*;

use crate::report::AnalysisResult;

verus! {

/// One keyboard-driven input event, already decoded from the terminal.
#[derive(PartialEq, Eq, Structural, Clone, Copy, Debug)]
pub enum InputEvent {
    NavigateDown,
    NavigateUp,
    OpenContainingFolder,
    Quit,
    Resize,
    Other,
}

/// What the event loop must do after a transition: nothing but re-render,
/// reveal the folder containing a path, or leave the dashboard.
#[derive(Clone, Debug, PartialEq, Eq)]
pub enum UiAction {
    Redraw,
    Reveal(Vec<u8>),
    Exit,
}

/// The dashboard's state: the filtered results, the selected index, and
/// whether full-score deduction lines are shown.
#[derive(Clone, Debug)]
pub struct DashboardState {
    pub entries: Vec<AnalysisResult>,
    pub selected: Option<usize>,
    pub show_full: bool,
}

/// The state's invariant: the selected index is a valid index into the
/// entry list iff the list is non-empty; otherwise there is none.
pub open spec fn spec_dashboard_wf(s: DashboardState) -> bool {
    match s.selected {
        Some(i) => s.entries@.len() > 0 && i < s.entries@.len(),
        None => s.entries@.len() == 0,
    }
}

/// The selected index after one downward step: one further, saturating at
/// the last entry.
pub open spec fn spec_next_index(i: int, len: int) -> int {
    if i + 1 < len {
        i + 1
    } else {
        len - 1
    }
}

/// The selected index after one upward step: one back, saturating at the
/// first entry.
pub open spec fn spec_prev_index(i: int) -> int {
    if i > 0 {
        i - 1
    } else {
        0
    }
}

/// The state one navigation event leads to; entries and the flag never
/// change, and on an empty list navigation is a no-op.
pub open spec fn spec_navigate(s: DashboardState, ev: InputEvent) -> DashboardState {
    match s.selected {
        Some(i) => DashboardState {
            selected: Some(
                (if ev == InputEvent::NavigateDown {
                    spec_next_index(i as int, s.entries@.len() as int)
                } else {
                    spec_prev_index(i as int)
                }) as usize,
            ),
            ..s
        },
        None => s,
    }
}

pub open spec fn spec_is_navigate(ev: InputEvent) -> bool {
    ev == InputEvent::NavigateDown || ev == InputEvent::NavigateUp
}

/// The state after a whole sequence of navigation events.
pub open spec fn spec_navigate_all(s: DashboardState, evs: Seq<InputEvent>) -> DashboardState
    decreases evs.len(),
{
    if evs.len() == 0 {
        s
    } else {
        spec_navigate_all(spec_navigate(s, evs.first()), evs.drop_first())
    }
}

impl DashboardState {
    /// The initial state: browsing at the first entry when any exist,
    /// otherwise empty with nothing selected.
    pub fn new(entries: Vec<AnalysisResult>, show_full: bool) -> (s: DashboardState)
        ensures
            spec_dashboard_wf(s),
            s.entries@ == entries@,
            s.show_full == show_full,
            s.selected == if entries@.len() > 0 {
                Some(0usize)
            } else {
                None::<usize>
            },
    {
        let selected = if entries.len() > 0 {
            Some(0usize)
        } else {
            None
        };
        DashboardState { entries, selected, show_full }
    }

    /// Move the selection one row down, staying at the last row; on an
    /// empty list nothing happens.
    pub fn select_next(&mut self)
        requires
            spec_dashboard_wf(*old(self)),
        ensures
            spec_dashboard_wf(*final(self)),
            *final(self) == spec_navigate(*old(self), InputEvent::NavigateDown),
    {
        match self.selected {
            Some(i) => {
                let len = self.entries.len();
                let next = if i + 1 < len {
                    i + 1
                } else {
                    len - 1
                };
                self.selected = Some(next);
            },
            None => {},
        }
    }

    /// Move the selection one row up, staying at the first row; on an
    /// empty list nothing happens.
    pub fn select_previous(&mut self)
        requires
            spec_dashboard_wf(*old(self)),
        ensures
            spec_dashboard_wf(*final(self)),
            *final(self) == spec_navigate(*old(self), InputEvent::NavigateUp),
    {
        match self.selected {
            Some(i) => {
                let prev = if i > 0 {
                    i - 1
                } else {
                    0
                };
                self.selected = Some(prev);
            },
            None => {},
        }
    }

    /// React to one input event: navigation moves the selection, the
    /// folder event asks for the selected entry's path to be revealed (a
    /// no-op on an empty list), quitting exits, and anything else only
    /// re-renders. The entry list and the flag never change.
    pub fn handle_event(&mut self, ev: InputEvent) -> (action: UiAction)
        requires
            spec_dashboard_wf(*old(self)),
        ensures
            spec_dashboard_wf(*final(self)),
            final(self).entries@ == old(self).entries@,
            final(self).show_full == old(self).show_full,
            spec_is_navigate(ev) ==> *final(self) == spec_navigate(*old(self), ev),
            !spec_is_navigate(ev) ==> *final(self) == *old(self),
            match action {
                UiAction::Exit => ev == InputEvent::Quit,
                UiAction::Reveal(p) => ev == InputEvent::OpenContainingFolder
                    && old(self).selected is Some && p@ == old(self).entries@[
                    old(self).selected->0 as int
                ].source_path@,
                UiAction::Redraw => ev != InputEvent::Quit && (ev
                    != InputEvent::OpenContainingFolder || old(self).selected is None),
            },
    {
        match ev {
            InputEvent::NavigateDown => {
                self.select_next();
                UiAction::Redraw
            },
            InputEvent::NavigateUp => {
                self.select_previous();
                UiAction::Redraw
            },
            InputEvent::OpenContainingFolder => {
                match self.selected {
                    Some(i) => UiAction::Reveal(self.entries[i].source_path.clone()),
                    None => UiAction::Redraw,
                }
            },
            InputEvent::Quit => UiAction::Exit,
            InputEvent::Resize => UiAction::Redraw,
            InputEvent::Other => UiAction::Redraw,
        }
    }
}

/// One navigation step keeps the invariant, keeps the entries, and on an
/// empty list changes nothing.
pub proof fn lemma_navigate_step(s: DashboardState, ev: InputEvent)
    requires
        spec_dashboard_wf(s),
    ensures
        spec_dashboard_wf(spec_navigate(s, ev)),
        spec_navigate(s, ev).entries == s.entries,
        spec_navigate(s, ev).show_full == s.show_full,
        s.entries@.len() == 0 ==> spec_navigate(s, ev) == s,
        s.entries@.len() > 0 ==> spec_navigate(s, ev).selected is Some && spec_navigate(
            s,
            ev,
        ).selected->0 < s.entries@.len(),
{
}

/// For any sequence of navigation events from a valid state the selected
/// index stays within `[0, len - 1]` and the entries never change; on an
/// empty list the whole sequence is a no-op.
pub proof fn lemma_navigate_all_in_bounds(s: DashboardState, evs: Seq<InputEvent>)
    requires
        spec_dashboard_wf(s),
    ensures
        spec_dashboard_wf(spec_navigate_all(s, evs)),
        spec_navigate_all(s, evs).entries == s.entries,
        spec_navigate_all(s, evs).show_full == s.show_full,
        s.entries@.len() == 0 ==> spec_navigate_all(s, evs) == s,
        s.entries@.len() > 0 ==> spec_navigate_all(s, evs).selected is Some && spec_navigate_all(
            s,
            evs,
        ).selected->0 < s.entries@.len(),
    decreases evs.len(),
{
    if evs.len() > 0 {
        lemma_navigate_step(s, evs.first());
        lemma_navigate_all_in_bounds(spec_navigate(s, evs.first()), evs.drop_first());
    }
}

} // verus!
