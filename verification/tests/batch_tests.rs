use std::cell::Cell;
use std::rc::Rc;

use grok2api::common::batch_tasks::{
    stream_start, stream_step, BatchTask, StreamInput, StreamItem, TaskEvent, TaskRegistry,
    TaskStatus, SUBSCRIBER_BUFFER, TASK_EXPIRY_SECS,
};
use grok2api::common::string_map::StringMap;
use grok2api::services::grok::batch::{run_in_batches, BatchAction, BatchRun};

fn items(n: usize) -> Vec<String> {
    (0..n).map(|i| format!("item-{i}")).collect()
}

fn summary_ok() -> serde_json::Value {
    let mut map = serde_json::Map::new();
    map.insert("summary".to_string(), serde_json::Value::String("ok".to_string()));
    serde_json::Value::Object(map)
}

#[test]
fn string_map_behaves_like_a_map() {
    let mut m: StringMap<i32> = StringMap::new();
    assert_eq!(m.len(), 0);
    assert!(!m.contains_key("a"));
    m.insert("a", 1);
    m.insert("b", 2);
    m.insert("a", 3);
    assert_eq!(m.len(), 2);
    assert_eq!(m.get("a"), Some(&3));
    assert_eq!(m.get("b"), Some(&2));
    assert_eq!(m.get("c"), None);
    assert_eq!(m.key_at(0), "a");
    assert_eq!(m.value_at(1), &2);
    match m.get_mut("b") {
        Some(v) => *v = 20,
        None => panic!("b is in the map"),
    }
    assert_eq!(m.get("b"), Some(&20));
    assert!(m.remove("a"));
    assert!(!m.remove("a"));
    assert_eq!(m.len(), 1);
    assert_eq!(m.key_at(0), "b");
}

#[test]
fn run_in_batches_covers_every_item() {
    let results = run_in_batches(
        items(10),
        |item: String| -> Result<usize, String> { Ok(item.len()) },
        2,
        3,
        None::<fn(String, bool)>,
        None::<fn() -> bool>,
    );
    assert_eq!(results.len(), 10);
    for i in 0..10 {
        assert_eq!(results.get(&format!("item-{i}")), Some(&Ok(6)));
    }
}

#[test]
fn run_in_batches_never_exceeds_the_ceiling() {
    let in_flight = Rc::new(Cell::new(0usize));
    let peak = Rc::new(Cell::new(0usize));
    let f = in_flight.clone();
    let p = peak.clone();
    let g = in_flight.clone();
    let results = run_in_batches(
        items(10),
        move |_item: String| -> Result<(), String> {
            f.set(f.get() + 1);
            if f.get() > p.get() {
                p.set(f.get());
            }
            Ok(())
        },
        2,
        4,
        Some(move |_item: String, _ok: bool| {
            g.set(g.get() - 1);
        }),
        None::<fn() -> bool>,
    );
    assert_eq!(results.len(), 10);
    assert!(peak.get() >= 1);
    assert!(peak.get() <= 2);
    assert_eq!(in_flight.get(), 0);
}

#[test]
fn run_in_batches_stops_at_a_chunk_boundary() {
    let asked = Rc::new(Cell::new(0usize));
    let a = asked.clone();
    let results = run_in_batches(
        items(10),
        |_item: String| -> Result<u8, String> { Ok(1) },
        2,
        5,
        None::<fn(String, bool)>,
        Some(move || {
            a.set(a.get() + 1);
            a.get() >= 2
        }),
    );
    assert_eq!(results.len(), 5);
    assert_eq!(asked.get(), 2);
    for i in 0..5 {
        assert!(results.contains_key(&format!("item-{i}")));
    }
    assert!(!results.contains_key("item-5"));
}

#[test]
fn run_in_batches_cancelled_at_once_does_nothing() {
    let results = run_in_batches(
        items(4),
        |_item: String| -> Result<u8, String> { Ok(1) },
        2,
        2,
        None::<fn(String, bool)>,
        Some(|| true),
    );
    assert_eq!(results.len(), 0);
}

#[test]
fn run_in_batches_keeps_going_after_a_failure() {
    let calls = Rc::new(Cell::new(0usize));
    let oks = Rc::new(Cell::new(0usize));
    let c = calls.clone();
    let o = oks.clone();
    let results = run_in_batches(
        items(4),
        |item: String| -> Result<String, String> {
            if item == "item-1" {
                Err("boom".to_string())
            } else {
                Ok(item)
            }
        },
        0,
        0,
        Some(move |_item: String, ok: bool| {
            c.set(c.get() + 1);
            if ok {
                o.set(o.get() + 1);
            }
        }),
        None::<fn() -> bool>,
    );
    assert_eq!(results.len(), 4);
    assert_eq!(results.get("item-1"), Some(&Err("boom".to_string())));
    assert_eq!(results.get("item-2"), Some(&Ok("item-2".to_string())));
    assert_eq!(calls.get(), 4);
    assert_eq!(oks.get(), 3);
}

#[test]
fn run_in_batches_on_nothing() {
    let results = run_in_batches(
        Vec::new(),
        |_item: String| -> Result<u8, String> { Ok(1) },
        2,
        2,
        None::<fn(String, bool)>,
        None::<fn() -> bool>,
    );
    assert_eq!(results.len(), 0);
}

#[test]
fn batch_run_bounds_concurrency_when_driven_by_hand() {
    let mut run: BatchRun<u32> = BatchRun::new(items(10), 2, 5);
    assert_eq!(run.len(), 10);
    let mut running: Vec<usize> = Vec::new();
    let mut checks = 0;
    let mut launched = 0;
    loop {
        assert!(run.in_flight() <= 2);
        assert_eq!(run.in_flight(), running.len());
        match run.next_action() {
            BatchAction::CheckCancel => {
                assert_eq!(run.in_flight(), 0);
                assert_eq!(launched % 5, 0);
                checks += 1;
                run.on_cancel_checked(false);
            },
            BatchAction::Launch(i) => {
                assert_eq!(run.item(i), &format!("item-{i}"));
                assert!(!run.is_running(i));
                run.on_launched();
                assert!(run.is_running(i));
                running.push(i);
                launched += 1;
            },
            BatchAction::Wait => {
                assert!(!running.is_empty());
                let i = running.pop().unwrap();
                let ok = run.on_completed(i, if i % 2 == 0 { Ok(i as u32) } else { Err("odd".to_string()) });
                assert_eq!(ok, i % 2 == 0);
                assert!(!run.is_running(i));
            },
            BatchAction::Finish => break,
        }
    }
    assert_eq!(checks, 2);
    assert_eq!(launched, 10);
    assert!(!run.is_cancelled());
    assert_eq!(run.results().len(), 10);
    let results = run.into_results();
    assert_eq!(results.get("item-4"), Some(&Ok(4)));
    assert_eq!(results.get("item-7"), Some(&Err("odd".to_string())));
}

#[test]
fn batch_run_cancel_before_second_chunk() {
    let mut run: BatchRun<u32> = BatchRun::new(items(10), 2, 5);
    let mut running: Vec<usize> = Vec::new();
    let mut checks = 0;
    loop {
        match run.next_action() {
            BatchAction::CheckCancel => {
                checks += 1;
                run.on_cancel_checked(checks == 2);
            },
            BatchAction::Launch(i) => {
                run.on_launched();
                running.insert(0, i);
            },
            BatchAction::Wait => {
                let i = running.pop().unwrap();
                run.on_completed(i, Ok(0));
            },
            BatchAction::Finish => break,
        }
    }
    assert!(run.is_cancelled());
    assert_eq!(run.results().len(), 5);
}

#[test]
fn batch_run_counts_zero_limits_as_one() {
    let mut run: BatchRun<u32> = BatchRun::new(items(2), 0, 0);
    assert_eq!(run.next_action(), BatchAction::CheckCancel);
    run.on_cancel_checked(false);
    assert_eq!(run.next_action(), BatchAction::Launch(0));
    run.on_launched();
    assert_eq!(run.next_action(), BatchAction::Wait);
    run.on_completed(0, Ok(1));
    assert_eq!(run.next_action(), BatchAction::CheckCancel);
}

#[test]
fn task_scenario_three_records_then_finish() {
    let mut task = BatchTask::new(3);
    assert_eq!(task.status(), TaskStatus::Running);
    assert!(task.final_event().is_none());
    assert!(!task.id().is_empty());
    assert!(task.created_at() > 1_500_000_000_000);
    task.record(true, None, None, None);
    task.record(true, None, None, None);
    task.record(true, None, None, None);
    task.finish(summary_ok(), None);
    let snap = task.snapshot();
    assert_eq!(snap.counters.processed, 3);
    assert_eq!(snap.counters.total, 3);
    assert_eq!(snap.counters.ok, 3);
    assert_eq!(snap.counters.fail, 0);
    assert_eq!(snap.status, TaskStatus::Done);
    assert_eq!(snap.status.word(), "done");
    assert_eq!(&snap.task_id, task.id());
    let final_event = task.final_event().unwrap();
    assert_eq!(final_event.event_type(), "done");
    assert!(final_event.is_terminal());
    match final_event {
        TaskEvent::Done { result, counters, warning, task_id } => {
            assert_eq!(result, summary_ok());
            assert_eq!(counters.processed, 3);
            assert!(warning.is_none());
            assert_eq!(&task_id, task.id());
        },
        _ => panic!("the final event of a finished task is a done event"),
    }
    let mut rx = task.attach();
    assert!(task.final_event().is_some());
    assert_eq!(task.final_event().unwrap().event_type(), "done");
    assert!(rx.try_recv().is_err());
    assert_eq!(task.result(), &Some(summary_ok()));
}

#[test]
fn task_publishes_progress_to_subscribers() {
    let mut task = BatchTask::new_at("t-1".to_string(), 2, 10);
    let mut first = task.attach();
    let mut second = task.attach();
    assert_eq!(task.subscriber_count(), 2);
    task.record(
        false,
        Some(serde_json::Value::String("tok".to_string())),
        None,
        Some("bad".to_string()),
    );
    for rx in [&mut first, &mut second] {
        match rx.try_recv().unwrap() {
            TaskEvent::Progress { task_id, counters, item, detail, error } => {
                assert_eq!(task_id, "t-1");
                assert_eq!(counters.total, 2);
                assert_eq!(counters.processed, 1);
                assert_eq!(counters.ok, 0);
                assert_eq!(counters.fail, 1);
                assert_eq!(item, Some(serde_json::Value::String("tok".to_string())));
                assert!(detail.is_none());
                assert_eq!(error.as_deref(), Some("bad"));
            },
            _ => panic!("a record is told as progress"),
        }
    }
    task.fail_task("gone wrong".to_string());
    match first.try_recv().unwrap() {
        TaskEvent::Error { message, .. } => assert_eq!(message, "gone wrong"),
        _ => panic!("a failure is told as an error"),
    }
    assert_eq!(task.status(), TaskStatus::Error);
    assert_eq!(task.error().as_deref(), Some("gone wrong"));
    assert_eq!(task.final_event().unwrap().event_type(), "error");
}

#[test]
fn task_drops_subscribers_that_are_gone_or_full() {
    let mut task = BatchTask::new_at("t-2".to_string(), 1000, 10);
    let gone = task.attach();
    let mut slow = task.attach();
    drop(gone);
    task.record(true, None, None, None);
    assert_eq!(task.subscriber_count(), 1);
    for _ in 1..SUBSCRIBER_BUFFER {
        task.record(true, None, None, None);
    }
    assert_eq!(task.subscriber_count(), 1);
    task.record(true, None, None, None);
    assert_eq!(task.subscriber_count(), 0);
    assert_eq!(task.counters().processed, SUBSCRIBER_BUFFER + 1);
    let mut received = 0;
    while slow.try_recv().is_ok() {
        received += 1;
    }
    assert_eq!(received, SUBSCRIBER_BUFFER);
}

#[test]
fn task_cancel_is_cooperative() {
    let mut task = BatchTask::new_at("t-3".to_string(), 5, 10);
    assert!(!task.is_cancelled());
    task.cancel();
    assert!(task.is_cancelled());
    assert_eq!(task.status(), TaskStatus::Running);
    assert!(task.final_event().is_none());
    task.finish_cancelled();
    assert_eq!(task.status(), TaskStatus::Cancelled);
    assert_eq!(task.final_event().unwrap().event_type(), "cancelled");
}

#[test]
fn task_stays_in_its_final_state() {
    let mut task = BatchTask::new_at("t-4".to_string(), 1, 10);
    task.finish(summary_ok(), Some("careful".to_string()));
    assert_eq!(task.warning().as_deref(), Some("careful"));
    let mut rx = task.attach();
    task.fail_task("late".to_string());
    task.finish_cancelled();
    task.finish(serde_json::Value::Null, None);
    assert_eq!(task.status(), TaskStatus::Done);
    assert!(task.error().is_none());
    assert_eq!(task.result(), &Some(summary_ok()));
    assert_eq!(task.final_event().unwrap().event_type(), "done");
    assert!(rx.try_recv().is_err());
}

#[test]
fn stream_of_a_running_task() {
    let mut task = BatchTask::new_at("t-5".to_string(), 2, 10);
    let start = stream_start(&task);
    assert!(!start.stop);
    assert_eq!(start.emits.len(), 1);
    match &start.emits[0] {
        StreamItem::Snapshot(s) => {
            assert_eq!(s.task_id, "t-5");
            assert_eq!(s.status, TaskStatus::Running);
        },
        _ => panic!("a stream begins with the snapshot"),
    }
    let idle = stream_step(&task, StreamInput::Timeout);
    assert!(!idle.stop);
    assert_eq!(idle.emits.len(), 1);
    assert!(matches!(idle.emits[0], StreamItem::Heartbeat));
    let mut rx = task.attach();
    task.record(true, None, None, None);
    let step = stream_step(&task, StreamInput::Event(rx.try_recv().unwrap()));
    assert!(!step.stop);
    assert_eq!(step.emits.len(), 1);
    task.finish_cancelled();
    let last = stream_step(&task, StreamInput::Event(rx.try_recv().unwrap()));
    assert!(last.stop);
    assert!(matches!(&last.emits[0], StreamItem::Event(TaskEvent::Cancelled { .. })));
    let closed = stream_step(&task, StreamInput::Closed);
    assert!(closed.stop);
    assert!(closed.emits.is_empty());
}

#[test]
fn stream_of_a_finished_task_replays_the_outcome() {
    let mut task = BatchTask::new_at("t-6".to_string(), 0, 10);
    task.finish(summary_ok(), None);
    let start = stream_start(&task);
    assert!(start.stop);
    assert_eq!(start.emits.len(), 2);
    assert!(matches!(&start.emits[0], StreamItem::Snapshot(_)));
    assert!(matches!(&start.emits[1], StreamItem::Event(TaskEvent::Done { .. })));
    let late = stream_step(&task, StreamInput::Timeout);
    assert!(late.stop);
    assert_eq!(late.emits.len(), 2);
    assert!(matches!(late.emits[0], StreamItem::Heartbeat));
    assert!(matches!(&late.emits[1], StreamItem::Event(TaskEvent::Done { .. })));
}

#[test]
fn registry_creates_finds_and_deletes() {
    let mut reg = TaskRegistry::new();
    assert_eq!(reg.len(), 0);
    let a = reg.create_task(3);
    let b = reg.create_task(4);
    assert_ne!(a, b);
    assert_eq!(reg.len(), 2);
    assert_eq!(reg.get_task(&a).unwrap().counters().total, 3);
    assert_eq!(reg.get_task(&b).unwrap().counters().total, 4);
    assert!(reg.get_task("nope").is_none());
    match reg.get_task_mut(&a) {
        Some(t) => t.record(true, None, None, None),
        None => panic!("task a is registered"),
    }
    assert_eq!(reg.get_task(&a).unwrap().counters().processed, 1);
    assert!(reg.get_task_mut("nope").is_none());
    assert!(reg.delete_task(&a));
    assert!(!reg.delete_task(&a));
    assert_eq!(reg.len(), 1);
    reg.insert_task(BatchTask::new_at(b.clone(), 9, 1));
    assert_eq!(reg.len(), 1);
    assert_eq!(reg.get_task(&b).unwrap().counters().total, 9);
    assert_eq!(TASK_EXPIRY_SECS, 300);
}

#[test]
fn task_progress_event_carries_the_running_counters() {
    let mut task = BatchTask::new_at("t-9".to_string(), 2, 10);
    let event = task.progress(false, None, None, Some("boom".to_string()));
    match event {
        TaskEvent::Progress { task_id, counters, item, detail, error } => {
            assert_eq!(task_id, "t-9");
            assert_eq!((counters.total, counters.processed), (2, 1));
            assert_eq!((counters.ok, counters.fail), (0, 1));
            assert!(item.is_none() && detail.is_none());
            assert_eq!(error.as_deref(), Some("boom"));
        },
        _ => panic!("one more item makes a progress event"),
    }
    assert_eq!(task.snapshot().counters.processed, 1);
    assert_eq!(task.status(), TaskStatus::Running);
    assert!(task.final_event().is_none());
}

#[test]
fn publish_drops_the_subscriber_that_is_gone_and_keeps_the_other() {
    let mut task = BatchTask::new_at("t-7".to_string(), 3, 10);
    let gone = task.attach();
    let mut kept = task.attach();
    drop(gone);
    task.record(true, None, None, None);
    assert_eq!(task.subscriber_count(), 1);
    task.record(false, None, None, None);
    assert_eq!(task.subscriber_count(), 1);
    let first = kept.try_recv().unwrap();
    let second = kept.try_recv().unwrap();
    match (first, second) {
        (
            TaskEvent::Progress { counters: a, .. },
            TaskEvent::Progress { counters: b, .. },
        ) => {
            assert_eq!((a.processed, a.ok, a.fail), (1, 1, 0));
            assert_eq!((b.processed, b.ok, b.fail), (2, 1, 1));
        },
        _ => panic!("two items make two progress events, in their order"),
    }
    assert!(kept.try_recv().is_err());
    assert_eq!(task.status(), TaskStatus::Running);
    assert_eq!(task.snapshot().counters.processed, 2);
}

#[test]
fn publish_drops_the_subscriber_whose_channel_is_full() {
    let mut task = BatchTask::new_at("t-8".to_string(), 1000, 10);
    let mut slow = task.attach();
    for _ in 0..200 {
        task.record(true, None, None, None);
    }
    assert_eq!(task.subscriber_count(), 1);
    let mut quick = task.attach();
    task.record(true, None, None, None);
    assert_eq!(task.subscriber_count(), 1);
    match quick.try_recv().unwrap() {
        TaskEvent::Progress { counters, .. } => assert_eq!(counters.processed, 201),
        _ => panic!("the subscriber with room receives the event"),
    }
    let mut seen = 0;
    while let Ok(event) = slow.try_recv() {
        seen += 1;
        match event {
            TaskEvent::Progress { counters, .. } => assert_eq!(counters.processed, seen),
            _ => panic!("only progress was published"),
        }
    }
    assert_eq!(seen, 200);
    task.record(true, None, None, None);
    assert!(slow.try_recv().is_err());
    assert!(quick.try_recv().is_ok());
    assert_eq!(task.snapshot().counters.processed, 202);
}

#[test]
fn retain_delivered_keeps_the_flagged_subscribers_in_order() {
    let mut task = BatchTask::new_at("t-6".to_string(), 3, 10);
    let mut a = task.attach();
    let mut b = task.attach();
    let mut c = task.attach();
    task.retain_delivered(&vec![true, false, true]);
    assert_eq!(task.subscriber_count(), 2);
    task.record(true, None, None, None);
    assert!(a.try_recv().is_ok());
    assert!(b.try_recv().is_err());
    assert!(c.try_recv().is_ok());
    task.retain_delivered(&vec![false, true]);
    task.record(true, None, None, None);
    assert!(a.try_recv().is_err());
    assert!(c.try_recv().is_ok());
    task.retain_delivered(&vec![false]);
    assert_eq!(task.subscriber_count(), 0);
    task.retain_delivered(&Vec::new());
    assert_eq!(task.snapshot().counters.processed, 2);
}
