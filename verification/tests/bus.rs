use bio::bus::{received_event, EventIter};
use bio::error::BioError;
use bio::event::{exit_event, BioEvent, ExitStatus, ProcessEvent, ProcessMonitor};
use bio::text::decimal;
use std::sync::mpsc::{channel, TryRecvError};

#[test]
fn queued_events_come_out_in_order_without_waiting() {
    let (sender, receiver) = channel();
    sender.send(ProcessEvent::Output("one".to_string())).unwrap();
    sender.send(ProcessEvent::Input("two".to_string())).unwrap();
    sender.send(ProcessEvent::Terminate).unwrap();
    let mut events = EventIter::new(&receiver);
    assert_eq!(events.next(), Some(ProcessEvent::Output("one".to_string())));
    assert_eq!(events.next(), Some(ProcessEvent::Input("two".to_string())));
    assert_eq!(events.next(), Some(ProcessEvent::Terminate));
    assert_eq!(events.next(), None);
    sender.send(ProcessEvent::Error("late".to_string())).unwrap();
    assert_eq!(events.next(), Some(ProcessEvent::Error("late".to_string())));
}

#[test]
fn empty_bus_gives_nothing_at_once() {
    let (_sender, receiver) = channel::<ProcessEvent>();
    let mut events = EventIter::new(&receiver);
    assert_eq!(events.next(), None);
    assert_eq!(events.take_queued(8), vec![]);
}

#[test]
fn bus_without_producers_gives_nothing() {
    let (sender, receiver) = channel::<ProcessEvent>();
    drop(sender);
    let mut events = EventIter::new(&receiver);
    assert_eq!(events.next(), None);
}

#[test]
fn take_queued_stops_at_the_limit() {
    let (sender, receiver) = channel();
    for n in 0..5 {
        sender.send(ProcessEvent::Output(n.to_string())).unwrap();
    }
    let mut events = EventIter::new(&receiver);
    let first = events.take_queued(3);
    assert_eq!(
        first,
        vec![
            ProcessEvent::Output("0".to_string()),
            ProcessEvent::Output("1".to_string()),
            ProcessEvent::Output("2".to_string()),
        ]
    );
    let rest = events.take_queued(3);
    assert_eq!(
        rest,
        vec![ProcessEvent::Output("3".to_string()), ProcessEvent::Output("4".to_string())]
    );
    assert_eq!(events.take_queued(0), vec![]);
}

#[test]
fn poll_result_becomes_an_event_or_nothing() {
    assert_eq!(received_event(Ok(ProcessEvent::Terminate)), Some(ProcessEvent::Terminate));
    assert_eq!(received_event(Err(TryRecvError::Empty)), None);
    assert_eq!(received_event(Err(TryRecvError::Disconnected)), None);
}

#[test]
fn errors_convert_into_their_variant() {
    assert!(matches!(
        BioError::from(TryRecvError::Empty),
        BioError::RecvError(TryRecvError::Empty)
    ));
    assert!(matches!(
        BioError::from(TryRecvError::Disconnected),
        BioError::RecvError(TryRecvError::Disconnected)
    ));
    let io = std::io::Error::new(std::io::ErrorKind::Other, "boom");
    match BioError::from(io) {
        BioError::IoError(e) => assert_eq!(e.to_string(), "boom"),
        BioError::RecvError(_) => panic!("an i/o error stays one"),
    }
}

#[test]
fn exit_status_tells_code_from_no_code() {
    assert_eq!(ExitStatus::from_code(Some(0)), ExitStatus::Code(0));
    assert_eq!(ExitStatus::from_code(Some(-9)), ExitStatus::Code(-9));
    assert_eq!(ExitStatus::from_code(None), ExitStatus::Abnormal);
    assert_eq!(ExitStatus::Code(2).code(), Some(2));
    assert_eq!(ExitStatus::Abnormal.code(), None);
}

#[test]
fn relay_events_go_on_into_the_fan_in_queue() {
    assert_eq!(
        BioEvent::from_process_event(ProcessEvent::Output("o".to_string())),
        Some(BioEvent::Output("o".to_string()))
    );
    assert_eq!(
        BioEvent::from_process_event(ProcessEvent::Error("e".to_string())),
        Some(BioEvent::Error("e".to_string()))
    );
    assert_eq!(BioEvent::from_process_event(ProcessEvent::Terminate), Some(BioEvent::Terminate));
    assert_eq!(BioEvent::from_process_event(ProcessEvent::Input("i".to_string())), None);
}

#[test]
fn exit_is_handed_on_only_when_the_bus_is_empty() {
    let mut monitor = ProcessMonitor::new();
    assert_eq!(monitor.report(true, None), None);
    assert_eq!(monitor.report(false, Some(ExitStatus::Code(2))), None);
    assert_eq!(monitor.report(false, None), None);
    assert_eq!(monitor.report(true, None), Some(ExitStatus::Code(2)));
    assert_eq!(monitor.report(true, Some(ExitStatus::Abnormal)), Some(ExitStatus::Code(2)));
    let mut idle = ProcessMonitor::new();
    assert_eq!(idle.report(true, Some(ExitStatus::Abnormal)), Some(ExitStatus::Abnormal));
}

#[test]
fn monitor_keeps_the_first_status() {
    let mut monitor = ProcessMonitor::new();
    assert_eq!(monitor.poll_exit(None), None);
    assert_eq!(monitor.poll_exit(None), None);
    assert_eq!(monitor.poll_exit(Some(ExitStatus::Code(5))), Some(ExitStatus::Code(5)));
    assert_eq!(monitor.poll_exit(None), Some(ExitStatus::Code(5)));
    assert_eq!(monitor.poll_exit(Some(ExitStatus::Abnormal)), Some(ExitStatus::Code(5)));
}

#[test]
fn poll_of_the_child_becomes_a_fan_in_event() {
    assert_eq!(exit_event(Ok(None)).map(|r| r.unwrap()), None);
    assert_eq!(
        exit_event(Ok(Some(ExitStatus::Code(0)))).map(|r| r.unwrap()),
        Some(BioEvent::Terminated(ExitStatus::Code(0)))
    );
    let failed = exit_event(Err(std::io::Error::new(std::io::ErrorKind::Other, "no child")));
    match failed {
        Some(Err(e)) => assert_eq!(e.to_string(), "no child"),
        _ => panic!("the failure of the poll is handed on"),
    }
}

#[test]
fn decimal_writes_integers_as_std_does() {
    for value in [0, 1, 9, 10, 11, 99, 100, 255, 1000, -1, -10, -128, i32::MAX, i32::MIN] {
        assert_eq!(decimal(value), value.to_string());
    }
}
