use fanout_join::message::thread_message;
use fanout_join::runner::{Action, Event, Outcome, Runner};
use fanout_join::NTHREADS;

struct Trace {
    lines: Vec<String>,
    done: Vec<bool>,
    joined: Vec<u32>,
    steps: usize,
}

/// Drives a run over `n` units in one thread, the unit `fault_at` (if any)
/// ending in a fault instead of completing.
fn drive(n: u32, fault_at: Option<u32>) -> Trace {
    let mut runner = Runner::new(n);
    let mut trace = Trace {
        lines: Vec::new(),
        done: vec![false; n as usize],
        joined: Vec::new(),
        steps: 0,
    };
    loop {
        assert!(trace.steps <= 2 * n as usize, "the run did not return in time");
        match runner.next_action() {
            Action::Spawn(i) => {
                if fault_at != Some(i) {
                    trace.lines.push(thread_message(i));
                    trace.done[i as usize] = true;
                }
                runner.record(Event::Started);
            }
            Action::Join(i) => {
                trace.joined.push(i);
                let outcome = if fault_at == Some(i) {
                    Outcome::Faulted
                } else {
                    Outcome::Completed
                };
                runner.record(Event::Finished(outcome));
            }
            Action::Return => break,
        }
        trace.steps += 1;
    }
    assert!(runner.is_finished());
    trace
}

fn sorted_indices(lines: &[String]) -> Vec<u32> {
    let mut v: Vec<u32> = lines
        .iter()
        .map(|l| {
            l.strip_prefix("this is thread number ")
                .expect("line has the message prefix")
                .parse()
                .expect("line ends in a number")
        })
        .collect();
    v.sort();
    v
}

#[test]
fn ten_units_each_index_once() {
    let t = drive(NTHREADS, None);
    assert_eq!(t.lines.len(), 10);
    assert_eq!(sorted_indices(&t.lines), (0..10).collect::<Vec<u32>>());
    assert_eq!(t.joined, (0..10).collect::<Vec<u32>>());
    assert_eq!(t.steps, 20);
}

#[test]
fn zero_units_return_at_once() {
    let t = drive(0, None);
    assert!(t.lines.is_empty());
    assert!(t.joined.is_empty());
    assert_eq!(t.steps, 0);
    let runner = Runner::new(0);
    assert_eq!(runner.next_action(), Action::Return);
    assert!(runner.is_finished());
}

#[test]
fn one_unit_one_line() {
    let t = drive(1, None);
    assert_eq!(t.lines, vec!["this is thread number 0".to_string()]);
    assert_eq!(t.joined, vec![0]);
    assert_eq!(t.steps, 2);
}

#[test]
fn all_units_done_when_run_returns() {
    let t = drive(7, None);
    assert!(t.done.iter().all(|d| *d));
    assert_eq!(t.joined, (0..7).collect::<Vec<u32>>());
}

#[test]
fn fault_in_one_unit_is_contained() {
    let t = drive(10, Some(4));
    for (i, d) in t.done.iter().enumerate() {
        assert_eq!(*d, i != 4);
    }
    assert_eq!(t.joined, (0..10).collect::<Vec<u32>>());
    assert_eq!(t.steps, 20);
}

#[test]
fn faulted_and_completed_joins_move_the_same() {
    let mut a = Runner::new(2);
    let mut b = Runner::new(2);
    for r in [&mut a, &mut b] {
        r.record(Event::Started);
        r.record(Event::Started);
    }
    a.record(Event::Finished(Outcome::Faulted));
    b.record(Event::Finished(Outcome::Completed));
    assert_eq!(a.next_action(), Action::Join(1));
    assert_eq!(b.next_action(), Action::Join(1));
}

#[test]
fn unanswering_event_changes_nothing() {
    let mut r = Runner::new(3);
    r.record(Event::Finished(Outcome::Completed));
    assert_eq!(r.next_action(), Action::Spawn(0));
    r.record(Event::Started);
    r.record(Event::Started);
    r.record(Event::Started);
    r.record(Event::Started);
    assert_eq!(r.next_action(), Action::Join(0));
}

#[test]
fn spawn_order_is_index_order() {
    let mut r = Runner::new(3);
    let mut seen = Vec::new();
    while let Action::Spawn(i) = r.next_action() {
        seen.push(i);
        r.record(Event::Started);
    }
    assert_eq!(seen, vec![0, 1, 2]);
}
