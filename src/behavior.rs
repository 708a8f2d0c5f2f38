use vstd::prelude::*;

use crate::events::{Event, EventData, EventSet, MouseButton};
use crate::gremlin::{
    task_views, DesktopGremlin, GremlinTask, CLICK_ANIMATION, GRAB_ANIMATION, IDLE_ANIMATION,
    INTRO_ANIMATION, OUTRO_ANIMATION, PAT_ANIMATION,
};
use crate::utils::{
    clamp_i32, get_move_direction, saturating_add_i32, saturating_sub_i32, spec_move_direction,
    DirectionX, DirectionY, Rect,
};

verus! {

/// The events of the current frame, as every behavior sees them.
pub struct ContextData {
    pub events: EventSet,
}

/// A unit of the per-frame pipeline. `setup` runs once before the first frame and
/// `update` once per frame, both in registration order.
pub trait Behavior {
    fn setup(&mut self, application: &mut DesktopGremlin);

    fn update(&mut self, application: &mut DesktopGremlin, context: &ContextData);
}

/// `after` is `before` with tasks of the given views appended.
pub open spec fn sent(before: Seq<GremlinTask>, after: Seq<GremlinTask>, views: Seq<(bool, Seq<char>)>) -> bool {
    &&& after.len() == before.len() + views.len()
    &&& after.take(before.len() as int) == before
    &&& task_views(after.skip(before.len() as int)) == views
}

/// Everything but the task queue and channel is as it was.
pub open spec fn same_but_tasks(a0: DesktopGremlin, a1: DesktopGremlin) -> bool {
    &&& a1.current_gremlin == a0.current_gremlin
    &&& a1.should_exit == a0.should_exit
    &&& a1.should_check_for_action == a0.should_check_for_action
    &&& a1.window_position == a0.window_position
    &&& a1.window_size == a0.window_size
}

fn send_task(app: &mut DesktopGremlin, interrupt: bool, name: &'static str)
    ensures
        sent(old(app).task_channel@, final(app).task_channel@, seq![(interrupt, name@)]),
        final(app).task_queue@ == old(app).task_queue@,
        same_but_tasks(*old(app), *final(app)),
{
    let ghost before = app.task_channel@;
    let owned = name.to_owned();
    let task = if interrupt {
        GremlinTask::PlayInterrupt(owned)
    } else {
        GremlinTask::Play(owned)
    };
    app.task_channel.send(task);
    assert(app.task_channel@.take(before.len() as int) =~= before);
    assert(task_views(app.task_channel@.skip(before.len() as int)) =~= seq![(interrupt, name@)]);
}

proof fn lemma_sent_concat(
    s0: Seq<GremlinTask>,
    s1: Seq<GremlinTask>,
    s2: Seq<GremlinTask>,
    v1: Seq<(bool, Seq<char>)>,
    v2: Seq<(bool, Seq<char>)>,
)
    requires
        sent(s0, s1, v1),
        sent(s1, s2, v2),
    ensures
        sent(s0, s2, v1 + v2),
{
    let a = s1.skip(s0.len() as int);
    let b = s2.skip(s1.len() as int);
    let c = s2.skip(s0.len() as int);
    assert(s2.take(s0.len() as int) =~= s1.take(s0.len() as int));
    assert(c =~= a + b);
    assert forall|i: int| 0 <= i < c.len() implies task_views(c)[i] == (v1 + v2)[i] by {
        if i < a.len() {
            assert(task_views(a)[i] == a[i].spec_view());
        } else {
            assert(task_views(b)[i - a.len()] == b[i - a.len()].spec_view());
        }
    }
    assert(task_views(c) =~= v1 + v2);
}

proof fn lemma_sent_nothing(s: Seq<GremlinTask>)
    ensures
        sent(s, s, seq![]),
{
    assert(s.take(s.len() as int) =~= s);
    assert(task_views(s.skip(s.len() as int)) =~= seq![]);
}

fn send_two(app: &mut DesktopGremlin, first: (bool, &'static str), second: (bool, &'static str))
    ensures
        sent(
            old(app).task_channel@,
            final(app).task_channel@,
            seq![(first.0, first.1@), (second.0, second.1@)],
        ),
        final(app).task_queue@ == old(app).task_queue@,
        same_but_tasks(*old(app), *final(app)),
{
    let ghost s0 = app.task_channel@;
    send_task(app, first.0, first.1);
    let ghost s1 = app.task_channel@;
    send_task(app, second.0, second.1);
    proof {
        lemma_sent_concat(s0, s1, app.task_channel@, seq![(first.0, first.1@)], seq![(second.0, second.1@)]);
        assert(seq![(first.0, first.1@)] + seq![(second.0, second.1@)] =~= seq![(first.0, first.1@), (second.0, second.1@)]);
    }
}

/// Setup sends INTRO then IDLE as queued tasks and changes nothing else.
pub open spec fn common_setup_post(a0: DesktopGremlin, a1: DesktopGremlin) -> bool {
    &&& sent(a0.task_channel@, a1.task_channel@, seq![(false, INTRO_ANIMATION@), (false, IDLE_ANIMATION@)])
    &&& a1.task_queue@ == a0.task_queue@
    &&& same_but_tasks(a0, a1)
}

/// On quit the queue is emptied and one interrupting OUTRO is sent; otherwise nothing changes.
pub open spec fn common_update_post(ev: Map<Event, Option<EventData>>, a0: DesktopGremlin, a1: DesktopGremlin) -> bool {
    &&& same_but_tasks(a0, a1)
    &&& if ev.contains_key(Event::Quit) {
        &&& a1.task_queue@.len() == 0
        &&& sent(a0.task_channel@, a1.task_channel@, seq![(true, OUTRO_ANIMATION@)])
    } else {
        &&& a1.task_queue@ == a0.task_queue@
        &&& a1.task_channel@ == a0.task_channel@
    }
}

/// On a left click an interrupting CLICK then a queued IDLE are sent; otherwise nothing changes.
pub open spec fn click_update_post(ev: Map<Event, Option<EventData>>, a0: DesktopGremlin, a1: DesktopGremlin) -> bool {
    &&& same_but_tasks(a0, a1)
    &&& a1.task_queue@ == a0.task_queue@
    &&& if ev.contains_key(Event::Click { mouse_btn: MouseButton::Left }) {
        sent(a0.task_channel@, a1.task_channel@, seq![(true, CLICK_ANIMATION@), (false, IDLE_ANIMATION@)])
    } else {
        a1.task_channel@ == a0.task_channel@
    }
}

/// Nothing in the shared state changes.
pub open spec fn unchanged(a0: DesktopGremlin, a1: DesktopGremlin) -> bool {
    &&& same_but_tasks(a0, a1)
    &&& a1.task_queue@ == a0.task_queue@
    &&& a1.task_channel@ == a0.task_channel@
}

/// Plays the intro then idles; on quit, drops what is queued and plays the outro at once.
#[derive(Debug, Clone, Copy, Hash, PartialEq, Eq, Default)]
pub struct CommonBehavior {}

impl CommonBehavior {
    pub fn new() -> (r: Box<CommonBehavior>) {
        Box::new(CommonBehavior {})
    }

    pub fn on_setup(&mut self, application: &mut DesktopGremlin)
        ensures
            common_setup_post(*old(application), *final(application)),
    {
        send_two(application, (false, INTRO_ANIMATION), (false, IDLE_ANIMATION));
    }

    pub fn on_update(&mut self, application: &mut DesktopGremlin, context: &ContextData)
        ensures
            common_update_post(context.events@, *old(application), *final(application)),
    {
        if context.events.contains(&Event::Quit) {
            application.task_queue.clear();
            send_task(application, true, OUTRO_ANIMATION);
        }
    }
}

impl Behavior for CommonBehavior {
    fn setup(&mut self, application: &mut DesktopGremlin)
        ensures
            common_setup_post(*old(application), *final(application)),
    {
        self.on_setup(application);
    }

    fn update(&mut self, application: &mut DesktopGremlin, context: &ContextData)
        ensures
            common_update_post(context.events@, *old(application), *final(application)),
    {
        self.on_update(application, context);
    }
}

/// Reacts to a left click with a short animation, then idles.
#[derive(Debug, Default)]
pub struct GremlinClick {}

impl GremlinClick {
    pub fn new() -> (r: Box<GremlinClick>) {
        Box::new(GremlinClick {})
    }

    pub fn on_update(&mut self, application: &mut DesktopGremlin, context: &ContextData)
        ensures
            click_update_post(context.events@, *old(application), *final(application)),
    {
        if context.events.contains(&Event::Click { mouse_btn: MouseButton::Left }) {
            send_two(application, (true, CLICK_ANIMATION), (false, IDLE_ANIMATION));
        }
    }
}

impl Behavior for GremlinClick {
    fn setup(&mut self, application: &mut DesktopGremlin)
        ensures
            unchanged(*old(application), *final(application)),
    {
    }

    fn update(&mut self, application: &mut DesktopGremlin, context: &ContextData)
        ensures
            click_update_post(context.events@, *old(application), *final(application)),
    {
        self.on_update(application, context);
    }
}

/// Where a drag of the left button started, if this frame has that event.
pub open spec fn drag_start_point(ev: Map<Event, Option<EventData>>) -> Option<(i32, i32)> {
    let e = Event::DragStart { mouse_btn: MouseButton::Left };
    if ev.contains_key(e) {
        match ev[e] {
            Some(EventData::FCoordinate { x, y }) => Some((x, y)),
            _ => None,
        }
    } else {
        None
    }
}

/// Where the pointer is in a drag of the left button, if this frame has that event.
pub open spec fn drag_point(ev: Map<Event, Option<EventData>>) -> Option<(i32, i32)> {
    let e = Event::Drag { mouse_btn: MouseButton::Left };
    if ev.contains_key(e) {
        match ev[e] {
            Some(EventData::Difference { x, y, .. }) => Some((x, y)),
            _ => None,
        }
    } else {
        None
    }
}

/// What a frame does to the drag behavior and the shared state.
pub open spec fn drag_update_post(
    d0: GremlinDrag,
    d1: GremlinDrag,
    ev: Map<Event, Option<EventData>>,
    a0: DesktopGremlin,
    a1: DesktopGremlin,
) -> bool {
    let start = drag_start_point(ev);
    let ended = ev.contains_key(Event::DragEnd { mouse_btn: MouseButton::Left });
    let (sx, sy) = match start {
        Some(p) => p,
        None => (d0.drag_start_x, d0.drag_start_y),
    };
    &&& d1.drag_start_x == sx
    &&& d1.drag_start_y == sy
    &&& sent(
        a0.task_channel@,
        a1.task_channel@,
        (if start.is_some() {
            seq![(true, GRAB_ANIMATION@)]
        } else {
            seq![]
        }) + (if ended {
            seq![(true, PAT_ANIMATION@), (false, IDLE_ANIMATION@)]
        } else {
            seq![]
        }),
    )
    &&& a1.task_queue@ == (if start.is_some() {
        Seq::empty()
    } else {
        a0.task_queue@
    })
    &&& match drag_point(ev) {
        Some((x, y)) => {
            &&& d1.should_move == !d0.should_move
            &&& a1.window_position == (if d0.should_move {
                (
                    clamp_i32(a0.window_position.0 + clamp_i32(x - sx)),
                    clamp_i32(a0.window_position.1 + clamp_i32(y - sy)),
                )
            } else {
                a0.window_position
            })
        },
        None => {
            &&& d1.should_move == d0.should_move
            &&& a1.window_position == a0.window_position
        },
    }
    &&& a1.current_gremlin == a0.current_gremlin
    &&& a1.should_exit == a0.should_exit
    &&& a1.should_check_for_action == a0.should_check_for_action
    &&& a1.window_size == a0.window_size
}

/// Grabs the character on a drag of the left button and moves the window with the
/// pointer, on every other drag frame so that the window's own move does not feed back.
#[derive(Default, Debug, Clone)]
pub struct GremlinDrag {
    pub should_move: bool,
    pub drag_start_x: i32,
    pub drag_start_y: i32,
}

impl GremlinDrag {
    pub fn new() -> (r: Box<GremlinDrag>)
        ensures
            !r.should_move,
    {
        Box::new(GremlinDrag { should_move: false, drag_start_x: 0, drag_start_y: 0 })
    }

    pub fn on_update(&mut self, application: &mut DesktopGremlin, context: &ContextData)
        ensures
            drag_update_post(*old(self), *final(self), context.events@, *old(application), *final(application)),
    {
        let ghost s0 = application.task_channel@;
        let start = context.events.get(&Event::DragStart { mouse_btn: MouseButton::Left });
        if let Some(Some(EventData::FCoordinate { x, y })) = start {
            send_task(application, true, GRAB_ANIMATION);
            application.task_queue.clear();
            self.drag_start_x = x;
            self.drag_start_y = y;
        } else {
            proof {
                lemma_sent_nothing(s0);
            }
        }
        let ghost s1 = application.task_channel@;
        let ghost v1 = if drag_start_point(context.events@).is_some() {
            seq![(true, GRAB_ANIMATION@)]
        } else {
            seq![]
        };
        let drag = context.events.get(&Event::Drag { mouse_btn: MouseButton::Left });
        if let Some(Some(EventData::Difference { x, y, .. })) = drag {
            if self.should_move {
                let (gremlin_x, gremlin_y) = application.window_position;
                let dx = saturating_sub_i32(x, self.drag_start_x);
                let dy = saturating_sub_i32(y, self.drag_start_y);
                application.window_position = (saturating_add_i32(gremlin_x, dx), saturating_add_i32(gremlin_y, dy));
            }
            self.should_move = !self.should_move;
        }
        if context.events.contains(&Event::DragEnd { mouse_btn: MouseButton::Left }) {
            send_two(application, (true, PAT_ANIMATION), (false, IDLE_ANIMATION));
            proof {
                lemma_sent_concat(s0, s1, application.task_channel@, v1, seq![(true, PAT_ANIMATION@), (false, IDLE_ANIMATION@)]);
            }
        } else {
            proof {
                lemma_sent_nothing(s1);
                lemma_sent_concat(s0, s1, application.task_channel@, v1, seq![]);
            }
        }
    }
}

impl Behavior for GremlinDrag {
    fn setup(&mut self, application: &mut DesktopGremlin)
        ensures
            unchanged(*old(application), *final(application)),
    {
    }

    fn update(&mut self, application: &mut DesktopGremlin, context: &ContextData)
        ensures
            drag_update_post(*old(self), *final(self), context.events@, *old(application), *final(application)),
    {
        self.on_update(application, context);
    }
}

pub open spec fn x_tag(d: DirectionX) -> Seq<char> {
    match d {
        DirectionX::Stay => seq![],
        DirectionX::Left => "LEFT"@,
        DirectionX::Right => "RIGHT"@,
    }
}

pub open spec fn y_tag(d: DirectionY) -> Seq<char> {
    match d {
        DirectionY::Stay => seq![],
        DirectionY::Up => "UP"@,
        DirectionY::Down => "DOWN"@,
    }
}

/// The animation for a move: the vertical tag then the horizontal one, each alone
/// after "RUN", and "RUNIDLE" when there is no move.
pub open spec fn movement_animation(dx: DirectionX, dy: DirectionY) -> Seq<char> {
    if dx == DirectionX::Stay && dy == DirectionY::Stay {
        "RUNIDLE"@
    } else if dx == DirectionX::Stay {
        "RUN"@ + y_tag(dy)
    } else if dy == DirectionY::Stay {
        "RUN"@ + x_tag(dx)
    } else {
        y_tag(dy) + x_tag(dx)
    }
}

pub fn movement_animation_name(dx: DirectionX, dy: DirectionY) -> (r: String)
    ensures
        r@ == movement_animation(dx, dy),
{
    proof {
        reveal_strlit("RUN");
        reveal_strlit("UP");
        reveal_strlit("DOWN");
        reveal_strlit("LEFT");
        reveal_strlit("RIGHT");
    }
    match (dx, dy) {
        (DirectionX::Stay, DirectionY::Stay) => "RUNIDLE".to_owned(),
        (DirectionX::Stay, DirectionY::Up) => {
            proof {
                reveal_strlit("RUNUP");
                assert("RUNUP"@ =~= "RUN"@ + "UP"@);
            }
            "RUNUP".to_owned()
        },
        (DirectionX::Stay, DirectionY::Down) => {
            proof {
                reveal_strlit("RUNDOWN");
                assert("RUNDOWN"@ =~= "RUN"@ + "DOWN"@);
            }
            "RUNDOWN".to_owned()
        },
        (DirectionX::Left, DirectionY::Stay) => {
            proof {
                reveal_strlit("RUNLEFT");
                assert("RUNLEFT"@ =~= "RUN"@ + "LEFT"@);
            }
            "RUNLEFT".to_owned()
        },
        (DirectionX::Right, DirectionY::Stay) => {
            proof {
                reveal_strlit("RUNRIGHT");
                assert("RUNRIGHT"@ =~= "RUN"@ + "RIGHT"@);
            }
            "RUNRIGHT".to_owned()
        },
        (DirectionX::Left, DirectionY::Up) => {
            proof {
                reveal_strlit("UPLEFT");
                assert("UPLEFT"@ =~= "UP"@ + "LEFT"@);
            }
            "UPLEFT".to_owned()
        },
        (DirectionX::Right, DirectionY::Up) => {
            proof {
                reveal_strlit("UPRIGHT");
                assert("UPRIGHT"@ =~= "UP"@ + "RIGHT"@);
            }
            "UPRIGHT".to_owned()
        },
        (DirectionX::Left, DirectionY::Down) => {
            proof {
                reveal_strlit("DOWNLEFT");
                assert("DOWNLEFT"@ =~= "DOWN"@ + "LEFT"@);
            }
            "DOWNLEFT".to_owned()
        },
        (DirectionX::Right, DirectionY::Down) => {
            proof {
                reveal_strlit("DOWNRIGHT");
                assert("DOWNRIGHT"@ =~= "DOWN"@ + "RIGHT"@);
            }
            "DOWNRIGHT".to_owned()
        },
    }
}

/// The window's rectangle, grown by 100 pixels each way (from its top-left corner)
/// when the cursor is already over it.
pub open spec fn target_rect(app: DesktopGremlin, cursor: (i32, i32)) -> Rect {
    let r = Rect {
        x: app.window_position.0,
        y: app.window_position.1,
        w: app.window_size.0,
        h: app.window_size.1,
    };
    if r.spec_contains(cursor) {
        Rect {
            w: if r.w + 100 > u32::MAX { u32::MAX } else { (r.w + 100) as u32 },
            h: if r.h + 100 > u32::MAX { u32::MAX } else { (r.h + 100) as u32 },
            ..r
        }
    } else {
        r
    }
}

/// Follows the cursor while switched on by a click and not dragged. This part
/// decides the direction and the running animation; the caller moves the window.
#[derive(Default, Debug)]
pub struct GremlinMovement {
    pub is_active: bool,
    pub is_dragging: bool,
    pub current_position: (i32, i32),
    pub should_check_position: bool,
}

impl GremlinMovement {
    pub fn new() -> (r: Box<GremlinMovement>)
        ensures
            !r.is_active,
            !r.is_dragging,
            r.current_position == (0i32, 0i32),
            r.should_check_position,
    {
        Box::new(
            GremlinMovement {
                is_active: false,
                is_dragging: false,
                current_position: (0, 0),
                should_check_position: true,
            },
        )
    }

    /// Returns the direction to move in this frame, when the character follows the
    /// cursor; sends an interrupting task for the running animation when it is not
    /// the one showing, dropping what is queued.
    pub fn on_update(&mut self, application: &mut DesktopGremlin, context: &ContextData, cursor: (i32, i32)) -> (r:
        Option<(DirectionX, DirectionY)>)
        ensures
            ({
                let ev = context.events@;
                let a0 = *old(application);
                let a1 = *final(application);
                let clicked = ev.contains_key(Event::Click { mouse_btn: MouseButton::Left });
                let active = old(self).is_active != clicked;
                let dragging = if ev.contains_key(Event::DragEnd { mouse_btn: MouseButton::Left }) {
                    false
                } else if ev.contains_key(Event::DragStart { mouse_btn: MouseButton::Left }) {
                    true
                } else {
                    old(self).is_dragging
                };
                let follows = active && !dragging && a0.current_gremlin.is_some()
                    && a0.current_gremlin.unwrap().animator.is_some();
                let dir = spec_move_direction(cursor, target_rect(a0, cursor));
                let name = movement_animation(dir.0, dir.1);
                let moved = Event::Window { win_event: crate::events::WindowEvent::Moved };
                &&& final(self).is_active == active
                &&& final(self).is_dragging == dragging
                &&& final(self).should_check_position == !old(self).should_check_position
                &&& final(self).current_position == (if old(self).should_check_position && ev.contains_key(moved) {
                    match ev[moved] {
                        Some(EventData::Coordinate { x, y }) => (x, y),
                        _ => old(self).current_position,
                    }
                } else {
                    old(self).current_position
                })
                &&& same_but_tasks(a0, a1)
                &&& if follows {
                    &&& r == Some(dir)
                    &&& if a0.current_gremlin.unwrap().animator.unwrap().name() != name {
                        &&& sent(a0.task_channel@, a1.task_channel@, seq![(true, name)])
                        &&& a1.task_queue@.len() == 0
                    } else {
                        &&& a1.task_channel@ == a0.task_channel@
                        &&& a1.task_queue@ == a0.task_queue@
                    }
                } else {
                    &&& r.is_none()
                    &&& a1.task_channel@ == a0.task_channel@
                    &&& a1.task_queue@ == a0.task_queue@
                }
            }),
    {
        if context.events.contains(&Event::Click { mouse_btn: MouseButton::Left }) {
            self.is_active = !self.is_active;
        }
        if context.events.contains(&Event::DragStart { mouse_btn: MouseButton::Left }) {
            self.is_dragging = true;
        }
        if context.events.contains(&Event::DragEnd { mouse_btn: MouseButton::Left }) {
            self.is_dragging = false;
        }
        let mut result = None;
        let showing = match &application.current_gremlin {
            Some(g) => match &g.animator {
                Some(a) => Some(a.animation_properties.animation_name.clone()),
                None => None,
            },
            None => None,
        };
        if self.is_active && !self.is_dragging {
            if let Some(current) = showing {
                let mut rect = Rect {
                    x: application.window_position.0,
                    y: application.window_position.1,
                    w: application.window_size.0,
                    h: application.window_size.1,
                };
                if rect.contains_point(cursor) {
                    rect.w = rect.w.saturating_add(100);
                    rect.h = rect.h.saturating_add(100);
                }
                let (dir_x, dir_y) = get_move_direction(cursor, rect);
                let animation_name = movement_animation_name(dir_x, dir_y);
                if current != animation_name {
                    application.task_channel.send(GremlinTask::PlayInterrupt(animation_name));
                    application.task_queue.clear();
                    proof {
                        let s0 = old(application).task_channel@;
                        let s1 = application.task_channel@;
                        assert(s1.take(s0.len() as int) =~= s0);
                        assert(task_views(s1.skip(s0.len() as int)) =~= seq![(true, movement_animation(dir_x, dir_y))]);
                    }
                }
                result = Some((dir_x, dir_y));
            }
        }
        let moved = context.events.get(&Event::Window { win_event: crate::events::WindowEvent::Moved });
        if self.should_check_position {
            if let Some(Some(EventData::Coordinate { x, y })) = moved {
                self.current_position = (x, y);
            }
        }
        self.should_check_position = !self.should_check_position;
        result
    }
}

} // verus!
