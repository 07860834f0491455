//! The event and redraw bookkeeping of a window: which events wait to be
//! handled, whether the window keeps running and whether it must be redrawn.
use vstd::prelude::*;
use std::collections::VecDeque;
use crate::selector::Selector;
use crate::theme::{Theme, RuleView, brush_of};
use crate::types::Brush;

verus! {

/// An event of the toolkit that waits to be handled by the window.
#[derive(Clone, Copy, Debug, PartialEq, Eq, Structural)]
pub enum Event {
    Init,
    Resize { width: u32, height: u32 },
}

/// An event that the windowing system reported, as far as the window handles it.
#[derive(Clone, Copy, Debug, PartialEq, Eq, Structural)]
pub enum OrbitalEvent {
    Resize { width: u32, height: u32 },
    Quit,
    Other,
}

/// The sizes that the resize events of `events` carry, in order.
pub open spec fn resize_sizes(events: Seq<Event>) -> Seq<(u32, u32)>
    decreases events.len(),
{
    if events.len() == 0 {
        Seq::empty()
    } else {
        let rest = resize_sizes(events.drop_last());
        match events.last() {
            Event::Resize { width, height } => rest.push((width, height)),
            Event::Init => rest,
        }
    }
}

/// The toolkit events that the system events of `events` give, in order.
pub open spec fn orbital_to_events(events: Seq<OrbitalEvent>) -> Seq<Event>
    decreases events.len(),
{
    if events.len() == 0 {
        Seq::empty()
    } else {
        let rest = orbital_to_events(events.drop_last());
        match events.last() {
            OrbitalEvent::Resize { width, height } => rest.push(Event::Resize { width, height }),
            _ => rest,
        }
    }
}

/// The sizes that the resize events among `events` carry, in order.
pub open spec fn reported_sizes(events: Seq<OrbitalEvent>) -> Seq<(u32, u32)>
    decreases events.len(),
{
    if events.len() == 0 {
        Seq::empty()
    } else {
        let rest = reported_sizes(events.drop_last());
        match events.last() {
            OrbitalEvent::Resize { width, height } => rest.push((width, height)),
            _ => rest,
        }
    }
}

/// Events are handled in the order they arrive: the resizes of events that arrived
/// earlier are reported before those of events that arrived later.
pub proof fn law_events_in_order(a: Seq<Event>, b: Seq<Event>)
    ensures
        resize_sizes(a + b) == resize_sizes(a) + resize_sizes(b),
    decreases b.len(),
{
    if b.len() == 0 {
        assert(a + b =~= a);
        assert(resize_sizes(a) + resize_sizes(b) =~= resize_sizes(a));
    } else {
        assert((a + b).drop_last() =~= a + b.drop_last());
        assert((a + b).last() == b.last());
        law_events_in_order(a, b.drop_last());
        match b.last() {
            Event::Resize { width, height } => {
                assert(resize_sizes(a) + resize_sizes(b) =~= (resize_sizes(a) + resize_sizes(b.drop_last())).push(
                    (width, height),
                ));
            },
            Event::Init => {},
        }
    }
}

/// The toolkit events made from the reported system events carry exactly the reported
/// resize sizes, in the order reported.
pub proof fn law_reported_resizes_are_kept(events: Seq<OrbitalEvent>)
    ensures
        resize_sizes(orbital_to_events(events)) == reported_sizes(events),
    decreases events.len(),
{
    if events.len() > 0 {
        law_reported_resizes_are_kept(events.drop_last());
        match events.last() {
            OrbitalEvent::Resize { width, height } => {
                let e = orbital_to_events(events.drop_last()).push(Event::Resize { width, height });
                assert(e.drop_last() =~= orbital_to_events(events.drop_last()));
            },
            _ => {},
        }
    }
}

pub open spec fn has_quit(events: Seq<OrbitalEvent>) -> bool {
    exists|i: int| 0 <= i < events.len() && events[i] == OrbitalEvent::Quit
}

pub open spec fn has_resize(events: Seq<OrbitalEvent>) -> bool {
    exists|i: int| 0 <= i < events.len() && events[i] is Resize
}

/// The state of a window apart from its surface on screen.
pub struct Window {
    running: bool,
    theme: Theme,
    events: VecDeque<Event>,
    redraw: bool,
}

impl Window {
    /// Whether the window keeps running.
    pub closed spec fn runs(&self) -> bool {
        self.running
    }

    /// The rules of the window's theme.
    pub closed spec fn style(&self) -> Seq<RuleView> {
        self.theme@
    }

    /// The events waiting to be handled, oldest first.
    pub closed spec fn pending(&self) -> Seq<Event> {
        self.events@
    }

    /// Whether the window must be drawn again.
    pub closed spec fn needs_draw(&self) -> bool {
        self.redraw
    }

    /// A running window that must be drawn, with one `Init` event waiting.
    pub fn new(theme: Theme) -> (w: Window)
        ensures
            w.runs(),
            w.needs_draw(),
            w.pending() == seq![Event::Init],
            w.style() == theme@,
    {
        let mut events: VecDeque<Event> = VecDeque::new();
        events.push_back(Event::Init);
        Window {
            running: true,
            theme,
            events,
            redraw: true,
        }
    }

    /// Whether the window keeps running.
    pub fn is_running(&self) -> (b: bool)
        ensures
            b == self.runs(),
    {
        self.running
    }

    /// The theme of the window.
    pub fn theme(&self) -> (t: &Theme)
        ensures
            t@ == self.style(),
    {
        &self.theme
    }

    /// Stops the window.
    pub fn close(&mut self)
        ensures
            !final(self).runs(),
            final(self).pending() == old(self).pending(),
            final(self).needs_draw() == old(self).needs_draw(),
            final(self).style() == old(self).style(),
    {
        self.running = false;
    }

    pub fn set_theme(&mut self, theme: Theme)
        ensures
            final(self).style() == theme@,
            final(self).runs() == old(self).runs(),
            final(self).pending() == old(self).pending(),
            final(self).needs_draw() == old(self).needs_draw(),
    {
        self.theme = theme;
    }

    /// The background brush that the theme gives a window.
    pub fn background(&self) -> (b: Option<Brush>)
        ensures
            b == brush_of(self.style(), "background"@, Selector::from_element_spec("window"@)),
    {
        let selector = Selector::from_element("window");
        proof {
            assert(selector@ == Selector::from_element_spec("window"@));
        }
        self.theme.brush("background", &selector)
    }

    /// The colour the window is cleared with before drawing: the colour of the theme's
    /// background brush for windows, opaque black where the theme gives none.
    pub fn background_color(&self) -> (c: u32)
        ensures
            c == match brush_of(self.style(), "background"@, Selector::from_element_spec("window"@)) {
                Some(Brush::SolidColor(x)) => x,
                None => 0xff000000u32,
            },
    {
        match self.background() {
            Some(brush) => brush.color(),
            None => 0xff000000,
        }
    }

    /// Marks the window as needing to be drawn.
    pub fn needs_redraw(&mut self)
        ensures
            final(self).needs_draw(),
            final(self).runs() == old(self).runs(),
            final(self).pending() == old(self).pending(),
            final(self).style() == old(self).style(),
    {
        self.redraw = true;
    }

    /// Whether the window must be drawn now; afterwards it need not be drawn again
    /// until something asks for it.
    pub fn draw_if_needed(&mut self) -> (draw: bool)
        ensures
            draw == old(self).needs_draw(),
            !final(self).needs_draw(),
            final(self).runs() == old(self).runs(),
            final(self).pending() == old(self).pending(),
            final(self).style() == old(self).style(),
    {
        if self.redraw {
            self.redraw = false;
            true
        } else {
            false
        }
    }

    /// Handles all waiting events in order and returns the sizes of the resize
    /// events among them, in order, for the resize callback.
    pub fn drain_events(&mut self) -> (sizes: Vec<(u32, u32)>)
        ensures
            sizes@ == resize_sizes(old(self).pending()),
            final(self).pending() == Seq::<Event>::empty(),
            final(self).runs() == old(self).runs(),
            final(self).needs_draw() == old(self).needs_draw(),
            final(self).style() == old(self).style(),
    {
        let ghost all = self.events@;
        let mut sizes: Vec<(u32, u32)> = Vec::new();
        let ghost mut taken: Seq<Event> = Seq::empty();
        while self.events.len() > 0
            invariant
                all == taken + self.events@,
                sizes@ == resize_sizes(taken),
                self.running == old(self).running,
                self.redraw == old(self).redraw,
                self.theme == old(self).theme,
            decreases self.events@.len(),
        {
            if let Some(event) = self.events.pop_front() {
                proof {
                    let next = taken.push(event);
                    assert(next.drop_last() =~= taken);
                    assert(all =~= next + self.events@);
                    taken = next;
                }
                match event {
                    Event::Resize { width, height } => {
                        sizes.push((width, height));
                    },
                    _ => {},
                }
            }
        }
        assert(all =~= taken);
        sizes
    }

    /// Handles the events that the windowing system reported, in order: a resize
    /// asks for a redraw and waits as a toolkit event, a quit stops the window.
    pub fn drain_orbital_events(&mut self, orbital_events: &Vec<OrbitalEvent>)
        ensures
            final(self).pending() == old(self).pending() + orbital_to_events(orbital_events@),
            final(self).runs() == (old(self).runs() && !has_quit(orbital_events@)),
            final(self).needs_draw() == (old(self).needs_draw() || has_resize(orbital_events@)),
            final(self).style() == old(self).style(),
    {
        let n = orbital_events.len();
        let mut i: usize = 0;
        while i < n
            invariant
                n == orbital_events@.len(),
                i <= n,
                self.events@ == old(self).events@ + orbital_to_events(orbital_events@.subrange(0, i as int)),
                self.running == (old(self).running && !has_quit(orbital_events@.subrange(0, i as int))),
                self.redraw == (old(self).redraw || has_resize(orbital_events@.subrange(0, i as int))),
                self.theme == old(self).theme,
            decreases n - i,
        {
            let ghost pre = orbital_events@.subrange(0, i as int);
            let ghost next = orbital_events@.subrange(0, i + 1);
            assert(next.drop_last() =~= pre);
            assert(next.last() == orbital_events@[i as int]);
            match orbital_events[i] {
                OrbitalEvent::Resize { width, height } => {
                    self.redraw = true;
                    self.events.push_back(Event::Resize { width, height });
                    assert(has_resize(next)) by {
                        assert(next[i as int] is Resize);
                    }
                },
                OrbitalEvent::Quit => {
                    self.running = false;
                    assert(has_quit(next)) by {
                        assert(next[i as int] == OrbitalEvent::Quit);
                    }
                },
                OrbitalEvent::Other => {},
            }
            assert(has_quit(next) == (has_quit(pre) || orbital_events@[i as int] == OrbitalEvent::Quit)) by {
                if has_quit(next) {
                    let j = choose|j: int| 0 <= j < next.len() && next[j] == OrbitalEvent::Quit;
                    if j < i {
                        assert(pre[j] == next[j]);
                    }
                }
                if has_quit(pre) {
                    let j = choose|j: int| 0 <= j < pre.len() && pre[j] == OrbitalEvent::Quit;
                    assert(next[j] == pre[j]);
                }
            }
            assert(has_resize(next) == (has_resize(pre) || orbital_events@[i as int] is Resize)) by {
                if has_resize(next) {
                    let j = choose|j: int| 0 <= j < next.len() && next[j] is Resize;
                    if j < i {
                        assert(pre[j] == next[j]);
                    }
                }
                if has_resize(pre) {
                    let j = choose|j: int| 0 <= j < pre.len() && pre[j] is Resize;
                    assert(next[j] == pre[j]);
                }
            }
            i = i + 1;
        }
        assert(orbital_events@.subrange(0, n as int) =~= orbital_events@);
    }

    /// Handles the reported system events and then all waiting events; returns the
    /// sizes for the resize callback.
    pub fn step(&mut self, orbital_events: &Vec<OrbitalEvent>) -> (sizes: Vec<(u32, u32)>)
        ensures
            sizes@ == resize_sizes(old(self).pending() + orbital_to_events(orbital_events@)),
            final(self).pending() == Seq::<Event>::empty(),
            final(self).runs() == (old(self).runs() && !has_quit(orbital_events@)),
            final(self).needs_draw() == (old(self).needs_draw() || has_resize(orbital_events@)),
            final(self).style() == old(self).style(),
    {
        self.drain_orbital_events(orbital_events);
        self.drain_events()
    }
}

} // verus!
