use desktop_gremlin::gremlin::{DesktopGremlin, GremlinTask};

fn play(n: &str) -> GremlinTask {
    GremlinTask::Play(n.to_string())
}

fn interrupt(n: &str) -> GremlinTask {
    GremlinTask::PlayInterrupt(n.to_string())
}

fn queue(app: &DesktopGremlin) -> Vec<GremlinTask> {
    app.task_queue.iter().cloned().collect()
}

#[test]
fn plain_tasks_are_queued_and_popped_when_ready() {
    let mut app = DesktopGremlin::new((0, 0), (100, 100));
    app.task_channel.send(play("A"));
    app.task_channel.send(play("B"));
    assert_eq!(app.next_task(), Some(play("A")));
    assert_eq!(queue(&app), vec![play("B")]);
    assert_eq!(app.task_channel.len(), 0);
}

#[test]
fn closed_gate_keeps_the_queue() {
    let mut app = DesktopGremlin::new((0, 0), (100, 100));
    app.should_check_for_action = false;
    app.task_channel.send(play("A"));
    assert_eq!(app.next_task(), None);
    assert_eq!(queue(&app), vec![play("A")]);
}

#[test]
fn interrupt_discards_queued_tasks_and_stops_the_drain() {
    let mut app = DesktopGremlin::new((0, 0), (100, 100));
    app.should_check_for_action = false;
    for n in ["A", "B", "C"] {
        app.task_channel.send(play(n));
    }
    assert_eq!(app.next_task(), None);
    assert_eq!(queue(&app).len(), 3);
    app.task_channel.send(play("D"));
    app.task_channel.send(interrupt("X"));
    app.task_channel.send(play("E"));
    app.task_channel.send(interrupt("Y"));
    assert_eq!(app.next_task(), Some(interrupt("X")));
    assert!(queue(&app).is_empty());
    assert_eq!(app.task_channel.len(), 2);
    // the next drain stops at the second interrupt and keeps nothing of the first queue
    assert_eq!(app.next_task(), Some(interrupt("Y")));
    assert!(queue(&app).is_empty());
    app.task_channel.send(play("F"));
    assert_eq!(app.next_task(), None);
    assert_eq!(queue(&app), vec![play("F")]);
}

#[test]
fn discarded_tasks_do_not_come_back() {
    let mut app = DesktopGremlin::new((0, 0), (100, 100));
    app.should_check_for_action = false;
    app.task_channel.send(play("A"));
    app.task_channel.send(play("B"));
    app.next_task();
    app.task_channel.send(interrupt("X"));
    app.task_channel.send(play("C"));
    assert_eq!(app.next_task(), Some(interrupt("X")));
    app.should_check_for_action = true;
    assert_eq!(app.next_task(), Some(play("C")));
    assert_eq!(app.next_task(), None);
    assert!(queue(&app).is_empty());
}

#[test]
fn tasks_compare_by_kind_and_name() {
    assert_eq!(play("A"), play("A"));
    assert_ne!(play("A"), interrupt("A"));
    assert_ne!(play("A"), play("B"));
    assert!(interrupt("A").is_interrupting());
    assert_eq!(interrupt("Z").animation_name(), "Z");
}
