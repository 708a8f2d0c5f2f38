use desktop_gremlin::behavior::{CommonBehavior, ContextData, GremlinClick, GremlinDrag};
use desktop_gremlin::events::{EventMediator, MouseButton, RawEvent};
use desktop_gremlin::gremlin::{AnimationProperties, DesktopGremlin, Gremlin};
use desktop_gremlin::render::{load_sheet, GremlinRender, Resolution};

struct Rig {
    app: DesktopGremlin,
    render: GremlinRender,
    mediator: EventMediator,
    common: CommonBehavior,
    drag: GremlinDrag,
    click: GremlinClick,
    next_texture: u64,
    decoded: usize,
}

impl Rig {
    fn new(animations: &[(&str, u32)]) -> Rig {
        let mut app = DesktopGremlin::new((0, 0), (50, 50));
        let mut g = Gremlin::new("Test".to_string());
        for (name, count) in animations {
            g.insert_animation(AnimationProperties::new(name.to_string(), *count));
        }
        app.current_gremlin = Some(g);
        let mut common = *CommonBehavior::new();
        common.on_setup(&mut app);
        Rig {
            app,
            render: GremlinRender::new(),
            mediator: EventMediator::new(),
            common,
            drag: *GremlinDrag::new(),
            click: *GremlinClick::new(),
            next_texture: 1,
            decoded: 0,
        }
    }

    /// One frame: the scheduler resolves a task, the frame is shown, then the
    /// behaviors see this frame's events.
    fn frame(&mut self, raws: Vec<RawEvent>) {
        if let Resolution::Decode(props) = self.render.begin_frame(&mut self.app) {
            let image = image::DynamicImage::new_rgba8(500, 100);
            let (animator, _sheet) = load_sheet(props, image, self.app.window_size).unwrap();
            self.render.finish_decode(&mut self.app, animator, self.next_texture);
            self.next_texture += 1;
            self.decoded += 1;
        }
        self.render.present_frame(&mut self.app);
        let context = ContextData { events: self.mediator.pump_events(raws) };
        self.common.on_update(&mut self.app, &context);
        self.drag.on_update(&mut self.app, &context);
        self.click.on_update(&mut self.app, &context);
    }

    fn frames(&mut self, n: usize) {
        for _ in 0..n {
            self.frame(vec![]);
        }
    }

    fn showing(&self) -> String {
        let g = self.app.current_gremlin.as_ref().unwrap();
        g.animator.as_ref().unwrap().animation_properties.animation_name.clone()
    }

    fn frame_index(&self) -> u32 {
        self.app.current_gremlin.as_ref().unwrap().animator.as_ref().unwrap().current_frame
    }
}

#[test]
fn intro_then_idle_loops() {
    let mut rig = Rig::new(&[("INTRO", 8), ("IDLE", 4), ("OUTRO", 6)]);
    rig.frame(vec![]);
    assert_eq!(rig.showing(), "INTRO");
    assert!(!rig.app.should_check_for_action);
    rig.frames(6);
    assert_eq!(rig.showing(), "INTRO");
    assert_eq!(rig.frame_index(), 7);
    rig.frame(vec![]);
    // frame 7 is the last of INTRO, so the ready flag is set
    assert!(rig.app.should_check_for_action);
    assert_eq!(rig.frame_index(), 0);
    rig.frame(vec![]);
    assert_eq!(rig.showing(), "IDLE");
    for _ in 0..20 {
        rig.frame(vec![]);
        assert_eq!(rig.showing(), "IDLE");
    }
    assert!(!rig.app.should_exit);
    assert_eq!(rig.decoded, 2);
}

#[test]
fn click_reacts_then_idle_resumes() {
    let mut rig = Rig::new(&[("INTRO", 8), ("IDLE", 4), ("OUTRO", 6), ("CLICK", 3)]);
    rig.frames(12);
    assert_eq!(rig.showing(), "IDLE");
    rig.frame(vec![
        RawEvent::MouseButtonDown { mouse_btn: MouseButton::Left, x: 1, y: 1 },
        RawEvent::MouseButtonUp { mouse_btn: MouseButton::Left, x: 1, y: 1 },
    ]);
    assert_eq!(rig.showing(), "IDLE");
    rig.frame(vec![]);
    assert_eq!(rig.showing(), "CLICK");
    // IDLE was sent after the interrupt: it waits in the channel, then in the queue
    assert_eq!(rig.app.task_channel.len(), 1);
    rig.frame(vec![]);
    assert_eq!(rig.showing(), "CLICK");
    assert_eq!(rig.app.task_queue.len(), 1);
    rig.frame(vec![]);
    assert!(rig.app.should_check_for_action);
    rig.frame(vec![]);
    assert_eq!(rig.showing(), "IDLE");
    // IDLE came back from the cache, not from a new decode
    assert_eq!(rig.decoded, 3);
}

#[test]
fn quit_during_drag_plays_outro_and_exits() {
    let mut rig = Rig::new(&[("INTRO", 8), ("IDLE", 4), ("OUTRO", 6), ("GRAB", 5), ("PAT", 2)]);
    rig.frames(3);
    rig.frame(vec![
        RawEvent::MouseButtonDown { mouse_btn: MouseButton::Left, x: 10, y: 10 },
        RawEvent::MouseMotion { x: 12, y: 10, xrel: 2, yrel: 0 },
    ]);
    rig.frame(vec![]);
    assert_eq!(rig.showing(), "GRAB");
    assert!(rig.app.task_queue.is_empty());
    rig.frame(vec![RawEvent::Quit]);
    assert_eq!(rig.showing(), "GRAB");
    rig.frame(vec![]);
    assert_eq!(rig.showing(), "OUTRO");
    for _ in 0..4 {
        rig.frame(vec![]);
        assert!(!rig.app.should_exit);
    }
    rig.frame(vec![]);
    assert!(rig.app.should_exit);
}

#[test]
fn same_animation_restarts_without_cache_traffic() {
    let mut rig = Rig::new(&[("INTRO", 8), ("IDLE", 4)]);
    rig.frames(3);
    assert_eq!(rig.frame_index(), 3);
    let cache_before: Vec<(String, u64)> =
        rig.render.texture_cache.data.iter().map(|e| (e.0.clone(), e.1 .1)).collect();
    let texture = rig.render.gremlin_texture;
    rig.app.task_channel.send(desktop_gremlin::gremlin::GremlinTask::PlayInterrupt("INTRO".to_string()));
    let r = rig.render.begin_frame(&mut rig.app);
    assert!(matches!(r, Resolution::Restarted));
    assert_eq!(rig.frame_index(), 0);
    assert_eq!(rig.render.gremlin_texture, texture);
    let cache_after: Vec<(String, u64)> =
        rig.render.texture_cache.data.iter().map(|e| (e.0.clone(), e.1 .1)).collect();
    assert_eq!(cache_before, cache_after);
    assert!(!rig.app.should_check_for_action);
}

#[test]
fn unknown_or_empty_animation_changes_nothing() {
    let mut rig = Rig::new(&[("INTRO", 8), ("EMPTY", 0)]);
    rig.frame(vec![]);
    rig.app.task_channel.send(desktop_gremlin::gremlin::GremlinTask::PlayInterrupt("NOPE".to_string()));
    assert!(matches!(rig.render.begin_frame(&mut rig.app), Resolution::Unchanged));
    rig.app.task_channel.send(desktop_gremlin::gremlin::GremlinTask::PlayInterrupt("EMPTY".to_string()));
    assert!(matches!(rig.render.begin_frame(&mut rig.app), Resolution::Unchanged));
    assert_eq!(rig.showing(), "INTRO");
}
