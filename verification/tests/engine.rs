use sqstransfer::engine::{Engine, EngineAction, Slot};

#[test]
fn fresh_engine_has_one_open_slot_per_worker() {
    let engine = Engine::start(3);
    assert_eq!(engine.workers(), 3);
    for worker in 0..3 {
        assert_eq!(engine.slot(worker), Slot { signalled: false, outcome: None });
    }
    assert_eq!(engine.total(), 0);
}

#[test]
fn workers_are_joined_in_order_before_the_finish() {
    let mut engine = Engine::start(3);
    let counts = [10usize, 0, 15];
    let mut joined = vec![];
    loop {
        match engine.next_action() {
            EngineAction::Join { worker } => {
                assert!(engine.can_join(worker, counts[worker]));
                engine = engine.joined(worker, counts[worker]);
                joined.push(worker);
            }
            EngineAction::Finish { transferred } => {
                assert_eq!(transferred, 25);
                break;
            }
            EngineAction::Signal { .. } => panic!("no shutdown was asked for"),
        }
    }
    assert_eq!(joined, vec![0, 1, 2]);
    assert_eq!(engine.total(), 25);
    assert_eq!(engine.next_action(), EngineAction::Finish { transferred: 25 });
}

#[test]
fn finish_is_never_called_for_while_a_worker_runs() {
    for workers in 1..=8usize {
        let mut engine = Engine::start(workers);
        let mut active = workers;
        loop {
            match engine.next_action() {
                EngineAction::Join { worker } => {
                    assert!(active > 0);
                    active -= 1;
                    engine = engine.joined(worker, worker + 1);
                }
                EngineAction::Finish { transferred } => {
                    assert_eq!(active, 0);
                    assert_eq!(transferred, workers * (workers + 1) / 2);
                    break;
                }
                EngineAction::Signal { .. } => panic!("no shutdown was asked for"),
            }
        }
    }
}

#[test]
fn pool_without_workers_finishes_at_once() {
    let engine = Engine::start(0);
    assert_eq!(engine.next_action(), EngineAction::Finish { transferred: 0 });
    assert_eq!(engine.shut_down().next_action(), EngineAction::Finish { transferred: 0 });
}

#[test]
fn shutdown_signals_every_worker_then_joins_every_worker() {
    let mut engine = Engine::start(3).shut_down();
    let mut actions = vec![];
    loop {
        let action = engine.next_action();
        actions.push(action);
        match action {
            EngineAction::Signal { worker } => engine = engine.signalled(worker),
            EngineAction::Join { worker } => engine = engine.joined(worker, 4),
            EngineAction::Finish { .. } => break,
        }
    }
    assert_eq!(
        actions,
        vec![
            EngineAction::Signal { worker: 0 },
            EngineAction::Signal { worker: 1 },
            EngineAction::Signal { worker: 2 },
            EngineAction::Join { worker: 0 },
            EngineAction::Join { worker: 1 },
            EngineAction::Join { worker: 2 },
            EngineAction::Finish { transferred: 12 },
        ]
    );
}

#[test]
fn shutdown_after_some_joins_still_signals_all_and_joins_the_rest() {
    let mut engine = Engine::start(3);
    engine = engine.joined(0, 5);
    engine = engine.shut_down();
    let mut actions = vec![];
    loop {
        let action = engine.next_action();
        actions.push(action);
        match action {
            EngineAction::Signal { worker } => engine = engine.signalled(worker),
            EngineAction::Join { worker } => engine = engine.joined(worker, 1),
            EngineAction::Finish { .. } => break,
        }
    }
    assert_eq!(
        actions,
        vec![
            EngineAction::Signal { worker: 0 },
            EngineAction::Signal { worker: 1 },
            EngineAction::Signal { worker: 2 },
            EngineAction::Join { worker: 1 },
            EngineAction::Join { worker: 2 },
            EngineAction::Finish { transferred: 7 },
        ]
    );
    assert_eq!(engine.slot(0), Slot { signalled: true, outcome: Some(5) });
}

#[test]
fn reports_out_of_order_are_kept() {
    let mut engine = Engine::start(3);
    engine = engine.joined(1, 9);
    assert_eq!(engine.next_action(), EngineAction::Join { worker: 0 });
    engine = engine.joined(0, 1);
    assert_eq!(engine.next_action(), EngineAction::Join { worker: 2 });
    engine = engine.shut_down().signalled(2);
    assert_eq!(engine.next_action(), EngineAction::Signal { worker: 0 });
    assert_eq!(engine.total(), 10);
}

#[test]
fn signalling_twice_changes_nothing_more() {
    let engine = Engine::start(2).shut_down().signalled(0).signalled(0);
    assert_eq!(engine.slot(0), Slot { signalled: true, outcome: None });
    assert_eq!(engine.next_action(), EngineAction::Signal { worker: 1 });
}

#[test]
fn join_is_refused_where_it_cannot_be_recorded() {
    let engine = Engine::start(2).joined(0, usize::MAX - 1);
    assert!(!engine.can_join(0, 0));
    assert!(!engine.can_join(2, 0));
    assert!(engine.can_join(1, 1));
    assert!(!engine.can_join(1, 2));
    assert_eq!(engine.joined(1, 1).total(), usize::MAX);
}
