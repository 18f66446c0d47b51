//! The decisions of the bar's event loop: what each wake-up means, and when
//! the bar must be redrawn or stop.

use vstd::prelude::*;
use vstd::string::*;

use crate::config::{due_slots, ticked, Config, Slot};
use crate::text::{strip_newline, without_newline};

verus! {

/// Where the loop stands between two wake-ups.
#[derive(Debug, Clone, Copy, PartialEq, Eq, Structural)]
pub enum Phase {
    /// Waiting for input, a surface event or the timeout.
    AwaitingEvent,
    /// Every surface is to be redrawn before the next wait.
    Redrawing,
    /// The loop has ended; nothing more is drawn.
    Stopped,
}

/// A surface's native event, as far as the loop cares.
#[derive(Debug, Clone, Copy, PartialEq, Eq, Structural)]
pub enum NativeEvent {
    Quit,
    Repaint,
    Other,
}

/// Why the loop woke up.
#[derive(Debug, Clone, Copy, PartialEq, Eq, Structural)]
pub enum Wake {
    TextReady,
    SurfaceReady(usize),
    TimedOut,
}

/// The text shown until the first line comes in.
pub open spec fn placeholder() -> Seq<char> {
    "Loading..."@
}

/// The state the loop carries: the configuration with its widgets, shared
/// by every surface, the last line of outside text, and the phase.
pub struct Bar {
    pub config: Config,
    pub input: String,
    pub phase: Phase,
}

/// The wake-ups to handle, in order, when the wait returned with the text
/// input ready or not and with each surface ready or not: the text first,
/// then every ready surface; the timeout where nothing was ready.
pub open spec fn wakes_of(text_ready: bool, surfaces: Seq<bool>) -> Seq<Wake> {
    let s = surfaces_among(surfaces, surfaces.len() as int);
    if text_ready {
        seq![Wake::TextReady] + s
    } else if s.len() == 0 {
        seq![Wake::TimedOut]
    } else {
        s
    }
}

/// The wake-ups of the ready surfaces among the first `n`.
pub open spec fn surfaces_among(surfaces: Seq<bool>, n: int) -> Seq<Wake>
    decreases n,
{
    if n <= 0 {
        Seq::empty()
    } else if surfaces[n - 1] {
        surfaces_among(surfaces, n - 1).push(Wake::SurfaceReady((n - 1) as usize))
    } else {
        surfaces_among(surfaces, n - 1)
    }
}

/// The phase after a surface's pending events: stop on a quit, redraw on a
/// repaint, else stay. A stopped loop stays stopped, and a redraw already
/// decided stays decided.
pub open spec fn phase_after_events(p: Phase, events: Seq<NativeEvent>) -> Phase {
    if p is Stopped || (exists|i: int| 0 <= i < events.len() && events[i] is Quit) {
        Phase::Stopped
    } else if exists|i: int| 0 <= i < events.len() && events[i] is Repaint {
        Phase::Redrawing
    } else {
        p
    }
}

/// The phase after the text input gave a line (`got_line`) or ended.
pub open spec fn phase_after_text(p: Phase, got_line: bool) -> Phase {
    if p is Stopped || !got_line {
        Phase::Stopped
    } else {
        Phase::Redrawing
    }
}

/// The phase after a timeout: a redraw, unless the loop has ended.
pub open spec fn phase_after_timeout(p: Phase) -> Phase {
    if p is Stopped {
        Phase::Stopped
    } else {
        Phase::Redrawing
    }
}

/// The phase after a redraw pass.
pub open spec fn phase_after_redraw(p: Phase) -> Phase {
    if p is Redrawing {
        Phase::AwaitingEvent
    } else {
        p
    }
}

/// The end of the text input stops the loop at once, from any phase, and a
/// stopped loop stays stopped and is never redrawn, whatever comes after.
pub proof fn lemma_end_of_input_stops(p: Phase, got_line: bool, events: Seq<NativeEvent>)
    ensures
        phase_after_text(p, false) is Stopped,
        phase_after_text(Phase::Stopped, got_line) is Stopped,
        phase_after_events(Phase::Stopped, events) is Stopped,
        phase_after_timeout(Phase::Stopped) is Stopped,
        phase_after_redraw(Phase::Stopped) is Stopped,
{
}

/// The wake-ups to handle after a wait, in order.
pub fn wakes(text_ready: bool, surfaces: &Vec<bool>) -> (r: Vec<Wake>)
    ensures
        r@ == wakes_of(text_ready, surfaces@),
{
    let mut r: Vec<Wake> = Vec::new();
    if text_ready {
        r.push(Wake::TextReady);
    }
    let ghost start = r@;
    let mut i: usize = 0;
    while i < surfaces.len()
        invariant
            0 <= i <= surfaces@.len(),
            start == (if text_ready {
                seq![Wake::TextReady]
            } else {
                Seq::<Wake>::empty()
            }),
            r@ == start + surfaces_among(surfaces@, i as int),
        decreases surfaces@.len() - i,
    {
        if surfaces[i] {
            r.push(Wake::SurfaceReady(i));
            assert(r@ =~= start + surfaces_among(surfaces@, i + 1));
        }
        i = i + 1;
    }
    if r.len() == 0 {
        r.push(Wake::TimedOut);
        assert(r@ =~= seq![Wake::TimedOut]);
    } else {
        assert(r@ =~= wakes_of(text_ready, surfaces@));
    }
    r
}

impl Bar {
    /// The loop's starting state: the placeholder text, and a first redraw due.
    pub fn new(config: Config) -> (r: Bar)
        ensures
            r.config == config,
            r.input@ == placeholder(),
            r.phase == Phase::Redrawing,
    {
        Bar { config, input: String::from_str("Loading..."), phase: Phase::Redrawing }
    }

    /// A line of text was read, or the text input ended (`line` is `None`).
    /// The end stops the loop; a line, without its line feed, replaces the
    /// shown text and calls for a redraw.
    pub fn on_text(&mut self, line: Option<&str>)
        ensures
            final(self).config == old(self).config,
            final(self).phase == phase_after_text(old(self).phase, line is Some),
            old(self).phase is Stopped ==> *final(self) == *old(self),
            !(old(self).phase is Stopped) ==> match line {
                None => final(self).input == old(self).input,
                Some(l) => final(self).input@ == without_newline(l@),
            },
    {
        if self.phase == Phase::Stopped {
            return;
        }
        match line {
            None => {
                self.phase = Phase::Stopped;
            },
            Some(l) => {
                self.input = strip_newline(l);
                self.phase = Phase::Redrawing;
            },
        }
    }

    /// A surface's pending events were drained: a quit stops the loop, a
    /// repaint calls for a redraw, anything else changes nothing.
    pub fn on_native(&mut self, events: &Vec<NativeEvent>)
        ensures
            final(self).config == old(self).config,
            final(self).input == old(self).input,
            final(self).phase == phase_after_events(old(self).phase, events@),
    {
        if self.phase == Phase::Stopped {
            return;
        }
        let mut quit = false;
        let mut repaint = false;
        let mut i: usize = 0;
        while i < events.len()
            invariant
                0 <= i <= events@.len(),
                quit == exists|k: int| 0 <= k < i && events@[k] is Quit,
                repaint == exists|k: int| 0 <= k < i && events@[k] is Repaint,
            decreases events@.len() - i,
        {
            match events[i] {
                NativeEvent::Quit => {
                    quit = true;
                },
                NativeEvent::Repaint => {
                    repaint = true;
                },
                NativeEvent::Other => {},
            }
            proof {
                assert(events@[i as int] is Quit ==> exists|k: int|
                    0 <= k < i + 1 && events@[k] is Quit);
                assert(events@[i as int] is Repaint ==> exists|k: int|
                    0 <= k < i + 1 && events@[k] is Repaint);
            }
            i = i + 1;
        }
        if quit {
            self.phase = Phase::Stopped;
        } else if repaint {
            self.phase = Phase::Redrawing;
        }
    }

    /// The wait timed out: one tick of the refresh schedule at `now`, then a
    /// redraw whatever it refreshed, so that the clock moves on. The slots of
    /// the widgets to refresh are returned. A stopped loop does nothing.
    pub fn on_timeout(&mut self, now: u64) -> (r: Vec<Slot>)
        ensures
            final(self).phase == phase_after_timeout(old(self).phase),
            old(self).phase is Stopped ==> *final(self) == *old(self) && r@.len() == 0,
            !(old(self).phase is Stopped) ==> {
                &&& final(self).input == old(self).input
                &&& ticked(old(self).config.left@, final(self).config.left@, now)
                &&& ticked(old(self).config.right@, final(self).config.right@, now)
                &&& r@ == due_slots(old(self).config.left@, old(self).config.right@, now)
                &&& final(self).config.buffer == old(self).config.buffer
                &&& final(self).config.height == old(self).config.height
            },
    {
        if self.phase == Phase::Stopped {
            return Vec::new();
        }
        let r = self.config.update(now);
        self.phase = Phase::Redrawing;
        r
    }

    /// Every surface was redrawn: wait again.
    pub fn redrawn(&mut self)
        ensures
            final(self).config == old(self).config,
            final(self).input == old(self).input,
            final(self).phase == phase_after_redraw(old(self).phase),
    {
        if self.phase == Phase::Redrawing {
            self.phase = Phase::AwaitingEvent;
        }
    }

    /// Whether the surfaces must be redrawn before the next wait.
    pub fn needs_redraw(&self) -> (r: bool)
        ensures
            r == (self.phase is Redrawing),
    {
        self.phase == Phase::Redrawing
    }

    /// Whether the loop has ended.
    pub fn is_stopped(&self) -> (r: bool)
        ensures
            r == (self.phase is Stopped),
    {
        self.phase == Phase::Stopped
    }
}

} // verus!
