use desktop_gremlin::events::{Event, EventData, EventMediator, EventSet, MouseButton, MouseState, RawEvent, WindowEvent};
use desktop_gremlin::utils::MouseKeysState;

fn down(b: MouseButton) -> RawEvent {
    RawEvent::MouseButtonDown { mouse_btn: b, x: 5, y: 6 }
}

fn up(b: MouseButton) -> RawEvent {
    RawEvent::MouseButtonUp { mouse_btn: b, x: 7, y: 8 }
}

fn motion(x: i32, y: i32) -> RawEvent {
    RawEvent::MouseMotion { x, y, xrel: 1, yrel: 2 }
}

#[test]
fn press_and_release_without_motion_is_click() {
    let mut m = EventMediator::new();
    let set = m.pump_events(vec![down(MouseButton::Left), up(MouseButton::Left)]);
    assert_eq!(
        set.get(&Event::Click { mouse_btn: MouseButton::Left }),
        Some(Some(EventData::FCoordinate { x: 7, y: 8 }))
    );
    assert!(!set.contains(&Event::DragEnd { mouse_btn: MouseButton::Left }));
    assert!(!set.contains(&Event::DragStart { mouse_btn: MouseButton::Left }));
    assert!(set.contains(&Event::MouseButtonDown { mouse_btn: MouseButton::Left }));
}

#[test]
fn release_after_motion_is_drag_end() {
    let mut m = EventMediator::new();
    let set = m.pump_events(vec![down(MouseButton::Right), motion(10, 11), up(MouseButton::Right)]);
    assert_eq!(
        set.get(&Event::DragEnd { mouse_btn: MouseButton::Right }),
        Some(Some(EventData::FCoordinate { x: 7, y: 8 }))
    );
    assert!(!set.contains(&Event::Click { mouse_btn: MouseButton::Right }));
    assert_eq!(
        set.get(&Event::DragStart { mouse_btn: MouseButton::Right }),
        Some(Some(EventData::FCoordinate { x: 10, y: 11 }))
    );
    assert_eq!(m.mouse, MouseState::default());
}

#[test]
fn drag_start_fires_once_then_drag() {
    let mut m = EventMediator::new();
    let first = m.translate(&down(MouseButton::Left));
    assert_eq!(first, vec![(Event::MouseButtonDown { mouse_btn: MouseButton::Left }, None)]);
    let second = m.translate(&motion(1, 2));
    assert_eq!(
        second,
        vec![
            (Event::DragStart { mouse_btn: MouseButton::Left }, Some(EventData::FCoordinate { x: 1, y: 2 })),
            (Event::MouseMove, None),
        ]
    );
    let third = m.translate(&motion(3, 4));
    assert_eq!(
        third,
        vec![
            (
                Event::Drag { mouse_btn: MouseButton::Left },
                Some(EventData::Difference { x_rel: 1, y_rel: 2, x: 3, y: 4 })
            ),
            (Event::MouseMove, None),
        ]
    );
    let fourth = m.translate(&up(MouseButton::Left));
    assert_eq!(
        fourth,
        vec![(Event::DragEnd { mouse_btn: MouseButton::Left }, Some(EventData::FCoordinate { x: 7, y: 8 }))]
    );
    // the next press starts a new cycle with its own drag start
    m.translate(&down(MouseButton::Left));
    let again = m.translate(&motion(9, 9));
    assert_eq!(again[0].0, Event::DragStart { mouse_btn: MouseButton::Left });
}

#[test]
fn release_of_a_button_never_pressed_gives_no_gesture() {
    let mut m = EventMediator::new();
    let set = m.pump_events(vec![up(MouseButton::Middle)]);
    assert!(!set.contains(&Event::Click { mouse_btn: MouseButton::Middle }));
    assert!(!set.contains(&Event::DragEnd { mouse_btn: MouseButton::Middle }));
    assert_eq!(set.get(&Event::MouseButtonUp { mouse_btn: MouseButton::Middle }), Some(None));
    let again = m.pump_events(vec![up(MouseButton::Middle)]);
    assert!(!again.contains(&Event::Click { mouse_btn: MouseButton::Middle }));
    assert_eq!(m.mouse, MouseState::default());
}

#[test]
fn motion_without_press_is_only_a_move() {
    let mut m = EventMediator::new();
    let out = m.translate(&motion(1, 1));
    assert_eq!(out, vec![(Event::MouseMove, None)]);
}

#[test]
fn quit_and_window_moves_are_recorded() {
    let mut m = EventMediator::new();
    m.translate(&down(MouseButton::Left));
    let set = m.pump_events(vec![
        RawEvent::WindowMoved { x: 1, y: 2 },
        RawEvent::Quit,
        RawEvent::WindowMoved { x: 30, y: 40 },
        RawEvent::Window,
        RawEvent::Other,
    ]);
    assert_eq!(set.get(&Event::Quit), Some(None));
    assert_eq!(
        set.get(&Event::Window { win_event: WindowEvent::Moved }),
        Some(Some(EventData::Coordinate { x: 30, y: 40 }))
    );
    assert_eq!(set.get(&Event::Window { win_event: WindowEvent::Unhandled }), Some(None));
    assert_eq!(set.get(&Event::Unhandled), Some(None));
}

#[test]
fn later_payload_replaces_earlier_in_a_frame() {
    let mut set = EventSet::new();
    set.insert(Event::MouseMove, Some(EventData::Coordinate { x: 1, y: 1 }));
    set.insert(Event::MouseMove, Some(EventData::Coordinate { x: 2, y: 2 }));
    assert_eq!(set.get(&Event::MouseMove), Some(Some(EventData::Coordinate { x: 2, y: 2 })));
    assert_eq!(set.get(&Event::Quit), None);
}

#[test]
fn event_from_raw_maps_each_kind() {
    assert_eq!(Event::from_raw(&RawEvent::Quit), Event::Quit);
    assert_eq!(Event::from_raw(&motion(0, 0)), Event::MouseMove);
    assert_eq!(
        Event::from_raw(&up(MouseButton::X1)),
        Event::MouseButtonUp { mouse_btn: MouseButton::X1 }
    );
    assert_eq!(Event::from_raw(&RawEvent::Other), Event::Unhandled);
}

#[test]
fn mouse_keys_state_tracks_three_buttons() {
    let mut k = MouseKeysState::default();
    k.set_button(&MouseButton::Middle, true);
    assert!(k.is_active(&MouseButton::Middle));
    assert!(!k.is_active(&MouseButton::Left));
    k.set_button(&MouseButton::X2, true);
    assert!(!k.is_active(&MouseButton::X2));
    assert_eq!(k, MouseKeysState { left: false, middle: true, right: false });
}

#[test]
fn mouse_state_reset_and_any() {
    let mut s = MouseState::default();
    s.down.set_button(&MouseButton::Right, true);
    s.dragging.set_button(&MouseButton::Right, true);
    assert!(s.any_down());
    assert!(s.any_drag());
    s.reset_key(MouseButton::Left);
    assert!(s.any_drag());
    s.reset_key(MouseButton::Right);
    assert!(!s.any_down());
    assert!(!s.any_drag());
}

#[test]
fn press_cycle_split_over_frames() {
    let mut m = EventMediator::new();
    let first = m.pump_events(vec![down(MouseButton::Left)]);
    assert!(!first.contains(&Event::Click { mouse_btn: MouseButton::Left }));
    let second = m.pump_events(vec![motion(4, 5), motion(6, 7)]);
    assert_eq!(
        second.get(&Event::DragStart { mouse_btn: MouseButton::Left }),
        Some(Some(EventData::FCoordinate { x: 4, y: 5 }))
    );
    assert_eq!(
        second.get(&Event::Drag { mouse_btn: MouseButton::Left }),
        Some(Some(EventData::Difference { x_rel: 1, y_rel: 2, x: 6, y: 7 }))
    );
    let third = m.pump_events(vec![motion(8, 9), up(MouseButton::Left)]);
    assert!(!third.contains(&Event::DragStart { mouse_btn: MouseButton::Left }));
    assert!(third.contains(&Event::DragEnd { mouse_btn: MouseButton::Left }));
    assert!(!third.contains(&Event::Click { mouse_btn: MouseButton::Left }));
}
