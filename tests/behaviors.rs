use desktop_gremlin::behavior::{movement_animation_name, ContextData, GremlinDrag, GremlinMovement};
use desktop_gremlin::events::{Event, EventData, EventSet, MouseButton, WindowEvent};
use desktop_gremlin::gremlin::{AnimationProperties, Animator, DesktopGremlin, Gremlin, GremlinTask};
use desktop_gremlin::ui::{calculate_pix_from_parent, p_fixed, Position, SizeUnit};
use desktop_gremlin::utils::{get_move_direction, DirectionX, DirectionY, Rect};

fn channel(app: &mut DesktopGremlin) -> Vec<GremlinTask> {
    let mut out = Vec::new();
    while let Some(t) = app.task_channel.try_recv() {
        out.push(t);
    }
    out
}

fn with_animator(name: &str) -> DesktopGremlin {
    let mut app = DesktopGremlin::new((100, 100), (50, 40));
    let mut g = Gremlin::new("G".to_string());
    g.animator = Some(Animator::from_dimensions(AnimationProperties::new(name.to_string(), 4), 40, 10));
    app.current_gremlin = Some(g);
    app
}

#[test]
fn drag_moves_window_on_every_other_frame() {
    let mut app = DesktopGremlin::new((100, 200), (50, 50));
    app.task_queue.push_back(GremlinTask::Play("IDLE".to_string()));
    let mut drag = *GremlinDrag::new();
    let mut events = EventSet::new();
    events.insert(Event::DragStart { mouse_btn: MouseButton::Left }, Some(EventData::FCoordinate { x: 10, y: 20 }));
    drag.on_update(&mut app, &ContextData { events });
    assert_eq!(channel(&mut app), vec![GremlinTask::PlayInterrupt("GRAB".to_string())]);
    assert!(app.task_queue.is_empty());
    assert_eq!((drag.drag_start_x, drag.drag_start_y), (10, 20));

    let drag_to = |x: i32, y: i32| {
        let mut events = EventSet::new();
        events.insert(
            Event::Drag { mouse_btn: MouseButton::Left },
            Some(EventData::Difference { x_rel: 0, y_rel: 0, x, y }),
        );
        ContextData { events }
    };
    drag.on_update(&mut app, &drag_to(15, 27));
    assert_eq!(app.window_position, (100, 200));
    drag.on_update(&mut app, &drag_to(15, 27));
    assert_eq!(app.window_position, (105, 207));
    drag.on_update(&mut app, &drag_to(1, 1));
    assert_eq!(app.window_position, (105, 207));

    let mut events = EventSet::new();
    events.insert(Event::DragEnd { mouse_btn: MouseButton::Left }, None);
    drag.on_update(&mut app, &ContextData { events });
    assert_eq!(
        channel(&mut app),
        vec![GremlinTask::PlayInterrupt("PAT".to_string()), GremlinTask::Play("IDLE".to_string())]
    );
}

#[test]
fn drag_position_saturates() {
    let mut app = DesktopGremlin::new((i32::MAX - 1, 0), (50, 50));
    let mut drag = *GremlinDrag::new();
    drag.should_move = true;
    let mut events = EventSet::new();
    events.insert(
        Event::Drag { mouse_btn: MouseButton::Left },
        Some(EventData::Difference { x_rel: 0, y_rel: 0, x: 100, y: 0 }),
    );
    drag.on_update(&mut app, &ContextData { events });
    assert_eq!(app.window_position, (i32::MAX, 0));
}

#[test]
fn movement_names_combine_direction_tags() {
    assert_eq!(movement_animation_name(DirectionX::Stay, DirectionY::Stay), "RUNIDLE");
    assert_eq!(movement_animation_name(DirectionX::Stay, DirectionY::Up), "RUNUP");
    assert_eq!(movement_animation_name(DirectionX::Right, DirectionY::Stay), "RUNRIGHT");
    assert_eq!(movement_animation_name(DirectionX::Left, DirectionY::Down), "DOWNLEFT");
    assert_eq!(movement_animation_name(DirectionX::Right, DirectionY::Up), "UPRIGHT");
}

#[test]
fn move_direction_by_axis() {
    let r = Rect { x: 0, y: 0, w: 10, h: 10 };
    assert_eq!(get_move_direction((5, 5), r), (DirectionX::Stay, DirectionY::Stay));
    assert_eq!(get_move_direction((20, 5), r), (DirectionX::Right, DirectionY::Stay));
    assert_eq!(get_move_direction((-3, -3), r), (DirectionX::Left, DirectionY::Up));
    assert_eq!(get_move_direction((5, 11), r), (DirectionX::Stay, DirectionY::Down));
    // the right and bottom edges are outside, but not beyond
    assert_eq!(get_move_direction((10, 10), r), (DirectionX::Stay, DirectionY::Stay));
    assert!(!r.contains_point((10, 5)));
}

#[test]
fn movement_follows_cursor_after_click() {
    let mut app = with_animator("IDLE");
    app.task_queue.push_back(GremlinTask::Play("IDLE".to_string()));
    let mut m = *GremlinMovement::new();
    let none = ContextData { events: EventSet::new() };
    assert_eq!(m.on_update(&mut app, &none, (0, 0)), None);
    let mut events = EventSet::new();
    events.insert(Event::Click { mouse_btn: MouseButton::Left }, Some(EventData::FCoordinate { x: 0, y: 0 }));
    let dir = m.on_update(&mut app, &ContextData { events }, (500, 120));
    assert_eq!(dir, Some((DirectionX::Right, DirectionY::Stay)));
    assert!(m.is_active);
    assert_eq!(channel(&mut app), vec![GremlinTask::PlayInterrupt("RUNRIGHT".to_string())]);
    assert!(app.task_queue.is_empty());
}

#[test]
fn movement_keeps_quiet_when_animation_matches_or_dragging() {
    let mut app = with_animator("UPLEFT");
    let mut m = *GremlinMovement::new();
    m.is_active = true;
    let none = ContextData { events: EventSet::new() };
    assert_eq!(m.on_update(&mut app, &none, (0, 0)), Some((DirectionX::Left, DirectionY::Up)));
    assert_eq!(app.task_channel.len(), 0);
    let mut events = EventSet::new();
    events.insert(Event::DragStart { mouse_btn: MouseButton::Left }, None);
    assert_eq!(m.on_update(&mut app, &ContextData { events }, (0, 0)), None);
    assert!(m.is_dragging);
}

#[test]
fn cursor_over_window_looks_at_grown_rectangle() {
    // window at (100,100) of 50x40; grown to 150x140 when the cursor is over it
    let mut app = with_animator("RUNIDLE");
    let mut m = *GremlinMovement::new();
    m.is_active = true;
    let none = ContextData { events: EventSet::new() };
    assert_eq!(m.on_update(&mut app, &none, (120, 120)), Some((DirectionX::Stay, DirectionY::Stay)));
    assert_eq!(app.task_channel.len(), 0);
}

#[test]
fn window_moves_are_read_on_every_other_frame() {
    let mut app = DesktopGremlin::new((0, 0), (10, 10));
    let mut m = *GremlinMovement::new();
    let moved = |x: i32, y: i32| {
        let mut events = EventSet::new();
        events.insert(Event::Window { win_event: WindowEvent::Moved }, Some(EventData::Coordinate { x, y }));
        ContextData { events }
    };
    m.on_update(&mut app, &moved(3, 4), (0, 0));
    assert_eq!(m.current_position, (3, 4));
    m.on_update(&mut app, &moved(7, 8), (0, 0));
    assert_eq!(m.current_position, (3, 4));
    m.on_update(&mut app, &moved(9, 9), (0, 0));
    assert_eq!(m.current_position, (9, 9));
}

#[test]
fn sizes_from_parent() {
    assert_eq!(calculate_pix_from_parent((200, 90), SizeUnit::percentage(50, 10)), (100, 9));
    assert_eq!(calculate_pix_from_parent((200, 90), SizeUnit::pix(12, 13)), (12, 13));
    assert_eq!(calculate_pix_from_parent((3, 3), (SizeUnit::Percentage(50), SizeUnit::Pixel(7))), (1, 7));
}

#[test]
fn fixed_positions_take_the_unit_kind() {
    assert_eq!(p_fixed(4, 5, SizeUnit::Pixel(99)), Position::Fixed(SizeUnit::Pixel(4), SizeUnit::Pixel(5)));
    assert_eq!(
        p_fixed(4, 5, SizeUnit::Percentage(1)),
        Position::Fixed(SizeUnit::Percentage(4), SizeUnit::Percentage(5))
    );
    assert_eq!(Position::default(), Position::Relative(SizeUnit::Pixel(0), SizeUnit::Pixel(0)));
}
