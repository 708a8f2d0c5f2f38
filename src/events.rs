use vstd::prelude::*;

use crate::utils::{is_tracked, MouseKeysState};

verus! {

/// A mouse button as the platform reports it.
#[derive(Debug, Clone, Copy, PartialEq, Eq, Hash, Structural)]
pub enum MouseButton {
    Left,
    Right,
    Middle,
    Unknown,
    X1,
    X2,
}

/// What happened to the window.
#[derive(Debug, Clone, Copy, PartialEq, Eq, Hash, Structural)]
pub enum WindowEvent {
    Moved,
    Unhandled,
}


/// A semantic event. At most one value of each is kept per frame.
#[derive(Debug, Clone, Copy, PartialEq, Eq, Hash, Structural)]
pub enum Event {
    Quit,
    Click { mouse_btn: MouseButton },
    MouseButtonDown { mouse_btn: MouseButton },
    MouseMove,
    MouseButtonUp { mouse_btn: MouseButton },
    Window { win_event: WindowEvent },
    DragStart { mouse_btn: MouseButton },
    Drag { mouse_btn: MouseButton },
    DragEnd { mouse_btn: MouseButton },
    Unhandled,
}

/// The payload of a semantic event, in whole pixels.
#[derive(Debug, Clone, Copy, PartialEq, Eq, Hash, Structural)]
pub enum EventData {
    /// A window position.
    Coordinate { x: i32, y: i32 },
    /// A pointer position.
    FCoordinate { x: i32, y: i32 },
    /// A pointer motion: the relative move and the new position.
    Difference { x_rel: i32, y_rel: i32, x: i32, y: i32 },
}

/// An event as the platform delivers it, with pointer positions rounded to pixels.
#[derive(Debug, Clone, Copy, PartialEq, Eq, Hash, Structural)]
pub enum RawEvent {
    Quit,
    MouseButtonDown { mouse_btn: MouseButton, x: i32, y: i32 },
    MouseButtonUp { mouse_btn: MouseButton, x: i32, y: i32 },
    MouseMotion { x: i32, y: i32, xrel: i32, yrel: i32 },
    WindowMoved { x: i32, y: i32 },
    /// Any other window event.
    Window,
    /// Anything else.
    Other,
}

/// The semantic event that a raw event stands for when no gesture replaces it.
pub open spec fn spec_event_of(raw: RawEvent) -> Event {
    match raw {
        RawEvent::Quit => Event::Quit,
        RawEvent::MouseButtonDown { mouse_btn, .. } => Event::MouseButtonDown { mouse_btn },
        RawEvent::MouseButtonUp { mouse_btn, .. } => Event::MouseButtonUp { mouse_btn },
        RawEvent::MouseMotion { .. } => Event::MouseMove,
        RawEvent::WindowMoved { .. } => Event::Window { win_event: WindowEvent::Moved },
        RawEvent::Window => Event::Window { win_event: WindowEvent::Unhandled },
        RawEvent::Other => Event::Unhandled,
    }
}

impl Event {
    pub fn from_raw(raw: &RawEvent) -> (r: Event)
        ensures
            r == spec_event_of(*raw),
    {
        match raw {
            RawEvent::Quit => Event::Quit,
            RawEvent::MouseButtonDown { mouse_btn, .. } => Event::MouseButtonDown {
                mouse_btn: *mouse_btn,
            },
            RawEvent::MouseButtonUp { mouse_btn, .. } => Event::MouseButtonUp {
                mouse_btn: *mouse_btn,
            },
            RawEvent::MouseMotion { .. } => Event::MouseMove,
            RawEvent::WindowMoved { .. } => Event::Window { win_event: WindowEvent::Moved },
            RawEvent::Window => Event::Window { win_event: WindowEvent::Unhandled },
            RawEvent::Other => Event::Unhandled,
        }
    }
}

/// The events of one frame, each semantic event at most once with its latest payload.
pub struct EventSet {
    entries: Vec<(Event, Option<EventData>)>,
}

/// The map that recording `s` in order leaves: a later entry replaces an earlier one.
pub open spec fn recorded(s: Seq<(Event, Option<EventData>)>) -> Map<Event, Option<EventData>>
    decreases s.len(),
{
    if s.len() == 0 {
        Map::empty()
    } else {
        recorded(s.drop_last()).insert(s.last().0, s.last().1)
    }
}

proof fn lemma_recorded_lookup(s: Seq<(Event, Option<EventData>)>, e: Event, i: int)
    requires
        0 <= i < s.len(),
        s[i].0 == e,
        forall|j: int| i < j < s.len() ==> s[j].0 != e,
    ensures
        recorded(s).contains_key(e),
        recorded(s)[e] == s[i].1,
    decreases s.len(),
{
    if i < s.len() - 1 {
        lemma_recorded_lookup(s.drop_last(), e, i);
    }
}

proof fn lemma_recorded_absent(s: Seq<(Event, Option<EventData>)>, e: Event)
    requires
        forall|j: int| 0 <= j < s.len() ==> s[j].0 != e,
    ensures
        !recorded(s).contains_key(e),
    decreases s.len(),
{
    if s.len() > 0 {
        lemma_recorded_absent(s.drop_last(), e);
    }
}

impl View for EventSet {
    type V = Map<Event, Option<EventData>>;

    closed spec fn view(&self) -> Map<Event, Option<EventData>> {
        recorded(self.entries@)
    }
}

impl EventSet {
    pub fn new() -> (r: EventSet)
        ensures
            r@ == Map::<Event, Option<EventData>>::empty(),
    {
        EventSet { entries: Vec::new() }
    }

    /// Records `event` with `data`, replacing what the frame held for it.
    pub fn insert(&mut self, event: Event, data: Option<EventData>)
        ensures
            final(self)@ == old(self)@.insert(event, data),
    {
        self.entries.push((event, data));
        assert(self.entries@.drop_last() =~= old(self).entries@);
    }

    pub fn contains(&self, event: &Event) -> (r: bool)
        ensures
            r == self@.contains_key(*event),
    {
        match self.get(event) {
            Some(_) => true,
            None => false,
        }
    }

    /// The payload recorded for `event`, if the frame holds it.
    pub fn get(&self, event: &Event) -> (r: Option<Option<EventData>>)
        ensures
            r.is_some() == self@.contains_key(*event),
            r.is_some() ==> r.unwrap() == self@[*event],
    {
        let mut i: usize = self.entries.len();
        while i > 0
            invariant
                i <= self.entries.len(),
                forall|j: int| i <= j < self.entries.len() ==> self.entries@[j].0 != *event,
            decreases i,
        {
            i = i - 1;
            if self.entries[i].0 == *event {
                proof {
                    lemma_recorded_lookup(self.entries@, *event, i as int);
                }
                return Some(self.entries[i].1);
            }
        }
        proof {
            lemma_recorded_absent(self.entries@, *event);
        }
        None
    }
}


/// Per-button gesture flags: which buttons are down, and which of those are dragging.
#[derive(Debug, Default, Clone, Copy, PartialEq, Eq, Structural)]
pub struct MouseState {
    pub down: MouseKeysState,
    pub dragging: MouseKeysState,
}

impl MouseState {
    /// A dragging button is always down.
    pub open spec fn wf(self) -> bool {
        &&& (self.dragging.left ==> self.down.left)
        &&& (self.dragging.middle ==> self.down.middle)
        &&& (self.dragging.right ==> self.down.right)
    }

    pub open spec fn spec_any_down(self) -> bool {
        self.down.left || self.down.right || self.down.middle
    }

    pub open spec fn spec_any_drag(self) -> bool {
        self.dragging.left || self.dragging.right || self.dragging.middle
    }

    /// Both flags of `button` cleared.
    pub open spec fn reset(self, button: MouseButton) -> MouseState {
        MouseState {
            down: self.down.with_flag(button, false),
            dragging: self.dragging.with_flag(button, false),
        }
    }

    pub fn any_down(&self) -> (r: bool)
        ensures
            r == self.spec_any_down(),
    {
        self.down.left || self.down.right || self.down.middle
    }

    pub fn any_drag(&self) -> (r: bool)
        ensures
            r == self.spec_any_drag(),
    {
        self.dragging.left || self.dragging.right || self.dragging.middle
    }

    pub fn reset_key(&mut self, button: MouseButton)
        ensures
            *final(self) == old(self).reset(button),
    {
        match button {
            MouseButton::Left => {
                self.down.left = false;
                self.dragging.left = false;
            },
            MouseButton::Middle => {
                self.down.middle = false;
                self.dragging.middle = false;
            },
            MouseButton::Right => {
                self.down.right = false;
                self.dragging.right = false;
            },
            _ => {},
        }
    }

    /// What a pointer motion says of one button: a drag starts on the first motion
    /// after the button went down, and continues on each later one.
    pub open spec fn motion_gesture(self, b: MouseButton, x: i32, y: i32, xrel: i32, yrel: i32) -> Seq<
        (Event, Option<EventData>),
    > {
        if self.down.flag(b) && !self.dragging.flag(b) {
            seq![(Event::DragStart { mouse_btn: b }, Some(EventData::FCoordinate { x, y }))]
        } else if self.down.flag(b) && self.dragging.flag(b) {
            seq![
                (
                    Event::Drag { mouse_btn: b },
                    Some(EventData::Difference { x_rel: xrel, y_rel: yrel, x, y }),
                ),
            ]
        } else {
            seq![]
        }
    }

    /// The state after a pointer motion: every button that is down is dragging.
    pub open spec fn after_motion(self) -> MouseState {
        MouseState {
            down: self.down,
            dragging: MouseKeysState {
                left: self.dragging.left || self.down.left,
                middle: self.dragging.middle || self.down.middle,
                right: self.dragging.right || self.down.right,
            },
        }
    }

    /// The state after one raw event.
    pub open spec fn after(self, raw: RawEvent) -> MouseState {
        match raw {
            RawEvent::MouseButtonDown { mouse_btn, .. } => MouseState {
                down: self.down.with_flag(mouse_btn, true),
                dragging: self.dragging,
            },
            RawEvent::MouseButtonUp { mouse_btn, .. } => self.reset(mouse_btn),
            RawEvent::MouseMotion { .. } => self.after_motion(),
            _ => self,
        }
    }

    /// The semantic events that one raw event gives, in order.
    pub open spec fn gestures(self, raw: RawEvent) -> Seq<(Event, Option<EventData>)> {
        match raw {
            RawEvent::MouseButtonUp { mouse_btn, x, y } => {
                if self.dragging.flag(mouse_btn) {
                    seq![(Event::DragEnd { mouse_btn }, Some(EventData::FCoordinate { x, y }))]
                } else if self.down.flag(mouse_btn) {
                    seq![(Event::Click { mouse_btn }, Some(EventData::FCoordinate { x, y }))]
                } else {
                    seq![(Event::MouseButtonUp { mouse_btn }, None)]
                }
            },
            RawEvent::MouseMotion { x, y, xrel, yrel } => self.motion_gesture(
                MouseButton::Left,
                x,
                y,
                xrel,
                yrel,
            ) + self.motion_gesture(MouseButton::Middle, x, y, xrel, yrel) + self.motion_gesture(
                MouseButton::Right,
                x,
                y,
                xrel,
                yrel,
            ) + seq![(Event::MouseMove, None)],
            RawEvent::WindowMoved { x, y } => seq![
                (Event::Window { win_event: WindowEvent::Moved }, Some(EventData::Coordinate { x, y })),
            ],
            _ => seq![(spec_event_of(raw), None)],
        }
    }
}

/// The state after a run of raw events.
pub open spec fn run_state(ms: MouseState, raws: Seq<RawEvent>) -> MouseState
    decreases raws.len(),
{
    if raws.len() == 0 {
        ms
    } else {
        run_state(ms, raws.drop_last()).after(raws.last())
    }
}

/// The semantic events of a run of raw events, in order.
pub open spec fn run_gestures(ms: MouseState, raws: Seq<RawEvent>) -> Seq<(Event, Option<EventData>)>
    decreases raws.len(),
{
    if raws.len() == 0 {
        seq![]
    } else {
        run_gestures(ms, raws.drop_last()) + run_state(ms, raws.drop_last()).gestures(raws.last())
    }
}

/// Turns the platform's raw events into the semantic events of a frame.
#[derive(Debug, Default)]
pub struct EventMediator {
    pub mouse: MouseState,
}

impl EventMediator {
    pub fn new() -> (r: EventMediator)
        ensures
            r.mouse == (MouseState {
                down: MouseKeysState { left: false, middle: false, right: false },
                dragging: MouseKeysState { left: false, middle: false, right: false },
            }),
    {
        let keys = MouseKeysState { left: false, middle: false, right: false };
        EventMediator { mouse: MouseState { down: keys, dragging: keys } }
    }

    /// The part of a pointer motion that concerns button `b`, judged on the
    /// flags as they stood before the motion.
    fn motion_step(
        &mut self,
        out: &mut Vec<(Event, Option<EventData>)>,
        start: MouseState,
        b: MouseButton,
        x: i32,
        y: i32,
        xrel: i32,
        yrel: i32,
    )
        ensures
            final(out)@ == old(out)@ + start.motion_gesture(b, x, y, xrel, yrel),
            final(self).mouse == (if start.down.flag(b) && !start.dragging.flag(b) {
                MouseState {
                    down: old(self).mouse.down,
                    dragging: old(self).mouse.dragging.with_flag(b, true),
                }
            } else {
                old(self).mouse
            }),
    {
        let is_down = start.down.is_active(&b);
        let is_dragging = start.dragging.is_active(&b);
        if is_down && !is_dragging {
            out.push((Event::DragStart { mouse_btn: b }, Some(EventData::FCoordinate { x, y })));
            self.mouse.dragging.set_button(&b, true);
        }
        if is_down && is_dragging {
            out.push(
                (
                    Event::Drag { mouse_btn: b },
                    Some(EventData::Difference { x_rel: xrel, y_rel: yrel, x, y }),
                ),
            );
        }
        assert(out@ =~= old(out)@ + start.motion_gesture(b, x, y, xrel, yrel));
    }

    /// Feeds one raw event through the gesture state machine and returns the
    /// semantic events it gives, in order.
    pub fn translate(&mut self, raw: &RawEvent) -> (r: Vec<(Event, Option<EventData>)>)
        ensures
            r@ == old(self).mouse.gestures(*raw),
            final(self).mouse == old(self).mouse.after(*raw),
    {
        let mut out: Vec<(Event, Option<EventData>)> = Vec::new();
        match raw {
            RawEvent::MouseButtonDown { mouse_btn, .. } => {
                self.mouse.down.set_button(mouse_btn, true);
                out.push((Event::MouseButtonDown { mouse_btn: *mouse_btn }, None));
            },
            RawEvent::MouseButtonUp { mouse_btn, x, y } => {
                if self.mouse.dragging.is_active(mouse_btn) {
                    out.push(
                        (
                            Event::DragEnd { mouse_btn: *mouse_btn },
                            Some(EventData::FCoordinate { x: *x, y: *y }),
                        ),
                    );
                } else if self.mouse.down.is_active(mouse_btn) {
                    out.push(
                        (
                            Event::Click { mouse_btn: *mouse_btn },
                            Some(EventData::FCoordinate { x: *x, y: *y }),
                        ),
                    );
                } else {
                    out.push((Event::MouseButtonUp { mouse_btn: *mouse_btn }, None));
                }
                self.mouse.reset_key(*mouse_btn);
            },
            RawEvent::MouseMotion { x, y, xrel, yrel } => {
                let start = self.mouse;
                self.motion_step(&mut out, start, MouseButton::Left, *x, *y, *xrel, *yrel);
                self.motion_step(&mut out, start, MouseButton::Middle, *x, *y, *xrel, *yrel);
                self.motion_step(&mut out, start, MouseButton::Right, *x, *y, *xrel, *yrel);
                out.push((Event::MouseMove, None));
                assert(self.mouse == start.after_motion());
            },
            RawEvent::WindowMoved { x, y } => {
                out.push(
                    (
                        Event::Window { win_event: WindowEvent::Moved },
                        Some(EventData::Coordinate { x: *x, y: *y }),
                    ),
                );
            },
            _ => {
                out.push((Event::from_raw(raw), None));
            },
        }
        proof {
            assert(out@ =~= old(self).mouse.gestures(*raw));
        }
        out
    }

    /// Drains the raw events of one frame, in arrival order, into the frame's event set.
    pub fn pump_events(&mut self, raws: Vec<RawEvent>) -> (r: EventSet)
        ensures
            r@ == recorded(run_gestures(old(self).mouse, raws@)),
            final(self).mouse == run_state(old(self).mouse, raws@),
    {
        let mut set = EventSet::new();
        let mut i: usize = 0;
        let ghost start = self.mouse;
        while i < raws.len()
            invariant
                i <= raws.len(),
                set@ == recorded(run_gestures(start, raws@.take(i as int))),
                self.mouse == run_state(start, raws@.take(i as int)),
            decreases raws.len() - i,
        {
            let ghost before = run_gestures(start, raws@.take(i as int));
            let produced = self.translate(&raws[i]);
            let mut j: usize = 0;
            while j < produced.len()
                invariant
                    j <= produced.len(),
                    set@ == recorded(before + produced@.take(j as int)),
                decreases produced.len() - j,
            {
                let (e, d) = produced[j];
                set.insert(e, d);
                proof {
                    let t = before + produced@.take(j as int + 1);
                    assert(t.drop_last() =~= before + produced@.take(j as int));
                }
                j = j + 1;
            }
            proof {
                assert(raws@.take(i as int + 1).drop_last() =~= raws@.take(i as int));
                assert(produced@.take(j as int) =~= produced@);
            }
            i = i + 1;
        }
        assert(raws@.take(i as int) =~= raws@);
        set
    }
}

pub open spec fn is_motion(r: RawEvent) -> bool {
    r is MouseMotion
}

/// The pointer position that a button event carries.
pub open spec fn pointer_of(r: RawEvent) -> Option<EventData> {
    match r {
        RawEvent::MouseButtonDown { x, y, .. } => Some(EventData::FCoordinate { x, y }),
        RawEvent::MouseButtonUp { x, y, .. } => Some(EventData::FCoordinate { x, y }),
        _ => None,
    }
}

pub open spec fn is_press_of(r: RawEvent, b: MouseButton) -> bool {
    match r {
        RawEvent::MouseButtonDown { mouse_btn, .. } => mouse_btn == b,
        _ => false,
    }
}

pub open spec fn is_release_of(r: RawEvent, b: MouseButton) -> bool {
    match r {
        RawEvent::MouseButtonUp { mouse_btn, .. } => mouse_btn == b,
        _ => false,
    }
}

/// One press of `b`: a button-down, then pointer motions or repeated downs of `b`,
/// then the button-up, with no other button involved.
pub open spec fn is_press_cycle(c: Seq<RawEvent>, b: MouseButton) -> bool {
    &&& c.len() >= 2
    &&& is_press_of(c[0], b)
    &&& is_release_of(c.last(), b)
    &&& forall|j: int| 1 <= j < c.len() - 1 ==> is_motion(c[j]) || is_press_of(c[j], b)
}

/// Whether a motion occurs among `c[1..i]`.
pub open spec fn moved_before(c: Seq<RawEvent>, i: int) -> bool {
    exists|j: int| 1 <= j < i && is_motion(#[trigger] c[j])
}

pub open spec fn emits(s: Seq<(Event, Option<EventData>)>, e: Event) -> bool {
    exists|k: int| 0 <= k < s.len() && (#[trigger] s[k]).0 == e
}

/// The semantic events that the `i`-th raw event of `c` gives.
pub open spec fn gestures_at(ms: MouseState, c: Seq<RawEvent>, i: int) -> Seq<(Event, Option<EventData>)> {
    run_state(ms, c.take(i)).gestures(c[i])
}

proof fn lemma_cycle_state(ms: MouseState, b: MouseButton, c: Seq<RawEvent>, i: int)
    requires
        is_tracked(b),
        is_press_cycle(c, b),
        1 <= i < c.len(),
    ensures
        run_state(ms, c.take(i)).down.flag(b),
        run_state(ms, c.take(i)).dragging.flag(b) == (ms.dragging.flag(b) || moved_before(c, i)),
    decreases i,
{
    assert(c.take(i).drop_last() =~= c.take(i - 1));
    assert(run_state(ms, c.take(i)) == run_state(ms, c.take(i - 1)).after(c[i - 1]));
    if i > 1 {
        lemma_cycle_state(ms, b, c, i - 1);
        if moved_before(c, i - 1) {
            let j = choose|j: int| 1 <= j < i - 1 && is_motion(#[trigger] c[j]);
            assert(1 <= j < i && is_motion(c[j]));
        }
        if moved_before(c, i) && !is_motion(c[i - 1]) {
            let j = choose|j: int| 1 <= j < i && is_motion(#[trigger] c[j]);
            assert(1 <= j < i - 1 && is_motion(c[j]));
        }
        if is_motion(c[i - 1]) {
            assert(moved_before(c, i));
        }
    } else {
        assert(c.take(0) =~= Seq::<RawEvent>::empty());
        assert(!moved_before(c, 1));
    }
}

proof fn lemma_motion_drag_start(ms: MouseState, r: RawEvent, b: MouseButton)
    requires
        is_tracked(b),
        is_motion(r),
    ensures
        emits(ms.gestures(r), Event::DragStart { mouse_btn: b }) == (ms.down.flag(b)
            && !ms.dragging.flag(b)),
{
    let (x, y, xrel, yrel) = match r {
        RawEvent::MouseMotion { x, y, xrel, yrel } => (x, y, xrel, yrel),
        _ => (0, 0, 0, 0),
    };
    let gl = ms.motion_gesture(MouseButton::Left, x, y, xrel, yrel);
    let gm = ms.motion_gesture(MouseButton::Middle, x, y, xrel, yrel);
    let gr = ms.motion_gesture(MouseButton::Right, x, y, xrel, yrel);
    let g = ms.gestures(r);
    assert(g == gl + gm + gr + seq![(Event::MouseMove, None::<EventData>)]);
    let e = Event::DragStart { mouse_btn: b };
    if ms.down.flag(b) && !ms.dragging.flag(b) {
        let k: int = if b == MouseButton::Left {
            0
        } else if b == MouseButton::Middle {
            gl.len() as int
        } else {
            (gl.len() + gm.len()) as int
        };
        assert(g[k].0 == e);
    }
    if emits(g, e) {
        let k = choose|k: int| 0 <= k < g.len() && (#[trigger] g[k]).0 == e;
        if k < gl.len() {
            assert(gl[k].0 == e);
        } else if k < gl.len() + gm.len() {
            assert(gm[k - gl.len()].0 == e);
        } else if k < gl.len() + gm.len() + gr.len() {
            assert(gr[k - gl.len() - gm.len()].0 == e);
        }
    }
}

/// A press of a button that ends in its release gives exactly one of Click and
/// DragEnd on the release: DragEnd when the pointer moved in between, Click when
/// it did not.
pub proof fn lemma_release_is_click_or_drag_end(ms: MouseState, b: MouseButton, c: Seq<RawEvent>)
    requires
        is_tracked(b),
        !ms.dragging.flag(b),
        is_press_cycle(c, b),
    ensures
        gestures_at(ms, c, c.len() - 1) == if moved_before(c, c.len() - 1) {
            seq![(Event::DragEnd { mouse_btn: b }, pointer_of(c.last()))]
        } else {
            seq![(Event::Click { mouse_btn: b }, pointer_of(c.last()))]
        },
{
    lemma_cycle_state(ms, b, c, c.len() - 1);
}

/// Within a press of a button, DragStart comes exactly once: on the first pointer
/// motion after the button went down.
pub proof fn lemma_drag_start_once(ms: MouseState, b: MouseButton, c: Seq<RawEvent>, i: int)
    requires
        is_tracked(b),
        !ms.dragging.flag(b),
        is_press_cycle(c, b),
        0 <= i < c.len(),
    ensures
        emits(gestures_at(ms, c, i), Event::DragStart { mouse_btn: b }) == (is_motion(c[i])
            && !moved_before(c, i)),
{
    let e = Event::DragStart { mouse_btn: b };
    if i == 0 {
        assert(c.take(0) =~= Seq::<RawEvent>::empty());
        let g = gestures_at(ms, c, 0);
        assert(g.len() == 1 && g[0].0 != e);
    } else {
        lemma_cycle_state(ms, b, c, i);
        let st = run_state(ms, c.take(i));
        if is_motion(c[i]) {
            lemma_motion_drag_start(st, c[i], b);
        } else {
            let g = gestures_at(ms, c, i);
            assert(g.len() == 1 && g[0].0 != e);
        }
    }
}

/// Feeding raw events in two runs leaves the same state as feeding them in one;
/// so over successive `pump_events` calls the mediator's state is `run_state` of
/// all the raw events polled so far.
pub proof fn lemma_run_state_concat(ms: MouseState, a: Seq<RawEvent>, b: Seq<RawEvent>)
    ensures
        run_state(ms, a + b) == run_state(run_state(ms, a), b),
    decreases b.len(),
{
    if b.len() == 0 {
        assert(a + b =~= a);
    } else {
        lemma_run_state_concat(ms, a, b.drop_last());
        assert((a + b).drop_last() =~= a + b.drop_last());
    }
}

proof fn lemma_recorded_has(s: Seq<(Event, Option<EventData>)>, e: Event)
    ensures
        recorded(s).contains_key(e) == emits(s, e),
    decreases s.len(),
{
    if s.len() > 0 {
        lemma_recorded_has(s.drop_last(), e);
        if emits(s.drop_last(), e) {
            let k = choose|k: int| 0 <= k < s.drop_last().len() && (#[trigger] s.drop_last()[k]).0 == e;
            assert(s[k].0 == e);
        }
        if emits(s, e) && s.last().0 != e {
            let k = choose|k: int| 0 <= k < s.len() && (#[trigger] s[k]).0 == e;
            assert(s.drop_last()[k].0 == e);
        }
        if s.last().0 == e {
            assert(s[s.len() - 1].0 == e);
        }
    } else {
        assert(!emits(s, e));
    }
}

/// Neither a click nor a drag end of `b` is among `s`.
pub open spec fn no_release_of(s: Seq<(Event, Option<EventData>)>, b: MouseButton) -> bool {
    !emits(s, Event::Click { mouse_btn: b }) && !emits(s, Event::DragEnd { mouse_btn: b })
}

proof fn lemma_step_quiet(ms: MouseState, r: RawEvent, b: MouseButton)
    requires
        is_motion(r) || is_press_of(r, b),
    ensures
        no_release_of(ms.gestures(r), b),
{
    let g = ms.gestures(r);
    if is_motion(r) {
        let (x, y, xrel, yrel) = match r {
            RawEvent::MouseMotion { x, y, xrel, yrel } => (x, y, xrel, yrel),
            _ => (0, 0, 0, 0),
        };
        let gl = ms.motion_gesture(MouseButton::Left, x, y, xrel, yrel);
        let gm = ms.motion_gesture(MouseButton::Middle, x, y, xrel, yrel);
        let gr = ms.motion_gesture(MouseButton::Right, x, y, xrel, yrel);
        assert(g == gl + gm + gr + seq![(Event::MouseMove, None::<EventData>)]);
        assert forall|k: int| 0 <= k < g.len() implies !((#[trigger] g[k]).0 is Click) && !(g[k].0 is DragEnd) by {
            if k < gl.len() {
                assert(g[k] == gl[k]);
            } else if k < gl.len() + gm.len() {
                assert(g[k] == gm[k - gl.len()]);
            } else if k < gl.len() + gm.len() + gr.len() {
                assert(g[k] == gr[k - gl.len() - gm.len()]);
            }
        }
    } else {
        assert(g.len() == 1);
    }
}

proof fn lemma_run_quiet(ms: MouseState, d: Seq<RawEvent>, b: MouseButton)
    requires
        forall|j: int| 0 <= j < d.len() ==> is_motion(#[trigger] d[j]) || is_press_of(d[j], b),
    ensures
        no_release_of(run_gestures(ms, d), b),
    decreases d.len(),
{
    if d.len() > 0 {
        lemma_run_quiet(ms, d.drop_last(), b);
        let p = run_gestures(ms, d.drop_last());
        let q = run_state(ms, d.drop_last()).gestures(d.last());
        lemma_step_quiet(run_state(ms, d.drop_last()), d.last(), b);
        let s = p + q;
        assert forall|e: Event| (e == Event::Click { mouse_btn: b } || e == Event::DragEnd { mouse_btn: b })
            implies !emits(s, e) by {
            if emits(s, e) {
                let k = choose|k: int| 0 <= k < s.len() && (#[trigger] s[k]).0 == e;
                if k < p.len() {
                    assert(p[k].0 == e);
                } else {
                    assert(q[k - p.len()].0 == e);
                }
            }
        }
    }
}

/// A press cycle of `b` may be split over frames: earlier `pump_events` calls poll
/// `c[..k]`, and the call that polls the rest, which ends with the release, returns
/// a map with exactly one of Click and DragEnd of `b`: DragEnd when the pointer
/// moved after the press, Click when it did not.
pub proof fn lemma_pump_release(ms: MouseState, b: MouseButton, c: Seq<RawEvent>, k: int)
    requires
        is_tracked(b),
        !ms.dragging.flag(b),
        is_press_cycle(c, b),
        0 <= k < c.len(),
    ensures
        ({
            let m = recorded(run_gestures(run_state(ms, c.take(k)), c.skip(k)));
            &&& m.contains_key(Event::DragEnd { mouse_btn: b }) == moved_before(c, c.len() - 1)
            &&& m.contains_key(Event::Click { mouse_btn: b }) == !moved_before(c, c.len() - 1)
        }),
{
    let n = c.len();
    let ms1 = run_state(ms, c.take(k));
    let d = c.skip(k);
    let pre = d.drop_last();
    assert(c.take(k) + pre =~= c.take(n - 1));
    lemma_run_state_concat(ms, c.take(k), pre);
    assert(d.last() == c[n - 1]);
    lemma_release_is_click_or_drag_end(ms, b, c);
    assert forall|j: int| 0 <= j < pre.len() implies is_motion(#[trigger] pre[j]) || is_press_of(pre[j], b) by {
        assert(pre[j] == c[j + k]);
    }
    lemma_run_quiet(ms1, pre, b);
    let p = run_gestures(ms1, pre);
    let q = gestures_at(ms, c, n - 1);
    let s = run_gestures(ms1, d);
    assert(s == p + q);
    let drag_end = Event::DragEnd { mouse_btn: b };
    let click = Event::Click { mouse_btn: b };
    lemma_recorded_has(s, drag_end);
    lemma_recorded_has(s, click);
    assert(q.len() == 1);
    assert(s[p.len() as int] == q[0]);
    assert forall|e: Event| (e == drag_end || e == click) implies (emits(s, e) == (q[0].0 == e)) by {
        if emits(s, e) {
            let i = choose|i: int| 0 <= i < s.len() && (#[trigger] s[i]).0 == e;
            if i < p.len() {
                assert(p[i].0 == e);
            }
        }
    }
}

/// The pointer position of the first motion in `r`, if there is one.
pub open spec fn first_motion_point(r: Seq<RawEvent>) -> Option<EventData>
    decreases r.len(),
{
    if r.len() == 0 {
        None
    } else if first_motion_point(r.drop_last()) is Some {
        first_motion_point(r.drop_last())
    } else {
        match r.last() {
            RawEvent::MouseMotion { x, y, .. } => Some(EventData::FCoordinate { x, y }),
            _ => None,
        }
    }
}

proof fn lemma_recorded_append_absent(p: Seq<(Event, Option<EventData>)>, q: Seq<(Event, Option<EventData>)>, e: Event)
    requires
        !emits(q, e),
    ensures
        recorded(p + q).contains_key(e) == recorded(p).contains_key(e),
        recorded(p).contains_key(e) ==> recorded(p + q)[e] == recorded(p)[e],
    decreases q.len(),
{
    if q.len() == 0 {
        assert(p + q =~= p);
    } else {
        assert((p + q).drop_last() =~= p + q.drop_last());
        assert(q[q.len() - 1].0 != e);
        assert(!emits(q.drop_last(), e)) by {
            if emits(q.drop_last(), e) {
                let k = choose|k: int| 0 <= k < q.drop_last().len() && (#[trigger] q.drop_last()[k]).0 == e;
                assert(q[k].0 == e);
            }
        }
        lemma_recorded_append_absent(p, q.drop_last(), e);
    }
}

proof fn lemma_step_without_drag_start(ms: MouseState, r: RawEvent, b: MouseButton)
    requires
        is_tracked(b),
        !is_motion(r),
    ensures
        !emits(ms.gestures(r), Event::DragStart { mouse_btn: b }),
{
    let g = ms.gestures(r);
    assert(g.len() == 1);
    assert(g[0].0 != Event::DragStart { mouse_btn: b });
}

proof fn lemma_held_state(ms: MouseState, b: MouseButton, r: Seq<RawEvent>)
    requires
        is_tracked(b),
        ms.down.flag(b),
        forall|j: int| 0 <= j < r.len() ==> !is_press_of(#[trigger] r[j], b) && !is_release_of(r[j], b),
    ensures
        run_state(ms, r).down.flag(b),
        run_state(ms, r).dragging.flag(b) == (ms.dragging.flag(b) || first_motion_point(r) is Some),
    decreases r.len(),
{
    if r.len() > 0 {
        assert(r.last() == r[r.len() - 1]);
        lemma_held_state(ms, b, r.drop_last());
    }
}

proof fn lemma_first_drag_start_recorded(
    p: Seq<(Event, Option<EventData>)>,
    st: MouseState,
    last: RawEvent,
    b: MouseButton,
)
    requires
        is_tracked(b),
        is_motion(last),
        st.down.flag(b),
        !st.dragging.flag(b),
    ensures
        ({
            let m = recorded(p + st.gestures(last));
            let e = Event::DragStart { mouse_btn: b };
            &&& m.contains_key(e)
            &&& m[e] == match last {
                RawEvent::MouseMotion { x, y, .. } => Some(EventData::FCoordinate { x, y }),
                _ => None,
            }
        }),
{
    let e = Event::DragStart { mouse_btn: b };
    let q = st.gestures(last);
    let (x, y, xrel, yrel) = match last {
        RawEvent::MouseMotion { x, y, xrel, yrel } => (x, y, xrel, yrel),
        _ => (0, 0, 0, 0),
    };
    let gl = st.motion_gesture(MouseButton::Left, x, y, xrel, yrel);
    let gm = st.motion_gesture(MouseButton::Middle, x, y, xrel, yrel);
    let gr = st.motion_gesture(MouseButton::Right, x, y, xrel, yrel);
    assert(q == gl + gm + gr + seq![(Event::MouseMove, None::<EventData>)]);
    let t: int = if b == MouseButton::Left {
        0
    } else if b == MouseButton::Middle {
        gl.len() as int
    } else {
        (gl.len() + gm.len()) as int
    };
    assert(q[t] == (e, Some(EventData::FCoordinate { x, y })));
    let s = p + q;
    assert forall|j: int| p.len() + t < j < s.len() implies (#[trigger] s[j]).0 != e by {
        let k = j - p.len();
        assert(s[j] == q[k]);
        if k < gl.len() {
            assert(q[k] == gl[k]);
        } else if k < gl.len() + gm.len() {
            assert(q[k] == gm[k - gl.len()]);
        } else if k < gl.len() + gm.len() + gr.len() {
            assert(q[k] == gr[k - gl.len() - gm.len()]);
        }
    }
    lemma_recorded_lookup(s, e, p.len() + t);
}

/// While a button is held, raw events with no press or release of it record
/// DragStart for it exactly when it was not dragging yet and a motion came, with
/// the position of the first motion; afterwards the button is down and dragging
/// when a motion came or it was dragging already. With the state carried between
/// `pump_events` calls (`lemma_run_state_concat`), DragStart therefore comes once
/// per press, on the first motion.
pub proof fn lemma_pump_drag_start(ms: MouseState, b: MouseButton, r: Seq<RawEvent>)
    requires
        is_tracked(b),
        ms.down.flag(b),
        forall|j: int| 0 <= j < r.len() ==> !is_press_of(#[trigger] r[j], b) && !is_release_of(r[j], b),
    ensures
        run_state(ms, r).down.flag(b),
        run_state(ms, r).dragging.flag(b) == (ms.dragging.flag(b) || first_motion_point(r) is Some),
        recorded(run_gestures(ms, r)).contains_key(Event::DragStart { mouse_btn: b }) == (!ms.dragging.flag(b)
            && first_motion_point(r) is Some),
        recorded(run_gestures(ms, r)).contains_key(Event::DragStart { mouse_btn: b }) ==> recorded(
            run_gestures(ms, r),
        )[Event::DragStart { mouse_btn: b }] == first_motion_point(r),
    decreases r.len(),
{
    lemma_held_state(ms, b, r);
    if r.len() == 0 {
        assert(recorded(run_gestures(ms, r)) =~= Map::<Event, Option<EventData>>::empty());
        return;
    }
    let pre = r.drop_last();
    let last = r.last();
    assert(last == r[r.len() - 1]);
    lemma_pump_drag_start(ms, b, pre);
    lemma_held_state(ms, b, pre);
    let st = run_state(ms, pre);
    let p = run_gestures(ms, pre);
    let q = st.gestures(last);
    let e = Event::DragStart { mouse_btn: b };
    assert(run_gestures(ms, r) == p + q);
    if is_motion(last) && !st.dragging.flag(b) {
        lemma_first_drag_start_recorded(p, st, last, b);
    } else if is_motion(last) {
        lemma_motion_drag_start(st, last, b);
        lemma_recorded_append_absent(p, q, e);
    } else {
        lemma_step_without_drag_start(st, last, b);
        lemma_recorded_append_absent(p, q, e);
    }
}

} // verus!
