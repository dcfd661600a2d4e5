use report_pipeline::consumer::{shutdown_outcome, Action, Consumer, ConsumerState};
use report_pipeline::context::Context;
use report_pipeline::global_state::{Delivery, GlobalState, Outbound, PipelineError};
use report_pipeline::report::{decimal_bytes, header, utf8_bytes, Death, Incidence, ReportItem, ReportKind};

fn incidence(name: &str, counter: usize, new_cases: u32) -> Incidence {
    Incidence {
        context_name: name.to_string(),
        counter,
        timestamp: format!("2023-06-26 {}", counter),
        new_cases,
    }
}

fn death(name: &str, counter: usize, deaths: u32) -> Death {
    Death {
        context_name: name.to_string(),
        counter,
        timestamp: format!("2023-06-26 {}", counter),
        deaths,
    }
}

/// Runs the consumer of `slot` until its channel asks it to wait or stop,
/// appending what it writes to `sink`. `fail_on` lists the indexes of
/// deliveries whose write fails.
fn run_consumer(
    state: &mut GlobalState,
    slot: usize,
    consumer: &mut Consumer,
    sink: &mut Vec<u8>,
    fail_on: &[usize],
) -> Action {
    let mut n = 0usize;
    loop {
        let d = state.take_next(slot);
        match consumer.handle(d) {
            Action::Write(bytes) => {
                let ok = !fail_on.contains(&n);
                if ok {
                    sink.extend_from_slice(&bytes);
                }
                assert_eq!(consumer.write_done(ok).is_ok(), ok);
                n += 1;
            }
            other => return other,
        }
    }
}

fn lines(sink: &[u8]) -> Vec<String> {
    String::from_utf8(sink.to_vec())
        .unwrap()
        .lines()
        .map(|l| l.to_string())
        .collect()
}

#[test]
fn test_global_state_creation() {
    let state = GlobalState::new();
    assert!(state.report_senders_is_empty());
}

#[test]
fn test_context_creation() {
    let mut state = GlobalState::new();
    let h = state.setup_report(ReportKind::Incidence).unwrap();
    assert!(matches!(state.take_next(h.slot), Delivery::Empty));
}

#[test]
fn test_setup_inc_report() {
    let mut state = GlobalState::new();
    state.setup_report(ReportKind::Incidence).unwrap();
    assert!(state.get_report_sender(ReportKind::Incidence).is_some());
    state.shutdown();
    assert!(state.report_senders_is_empty());
}

#[test]
fn test_setup_death_report() {
    let mut state = GlobalState::new();
    state.setup_report(ReportKind::Death).unwrap();
    assert!(state.get_report_sender(ReportKind::Death).is_some());
    assert!(state.get_report_sender(ReportKind::Incidence).is_none());
    state.shutdown();
    assert!(state.report_senders_is_empty());
}

#[test]
fn test_join_threads() {
    let mut state = GlobalState::new();
    let a = state.setup_report(ReportKind::Incidence).unwrap();
    let b = state.setup_report(ReportKind::Death).unwrap();
    assert!(!state.report_senders_is_empty());
    state.shutdown();
    assert!(state.report_senders_is_empty());
    let mut ca = Consumer::new(ReportKind::Incidence);
    let mut cb = Consumer::new(ReportKind::Death);
    let mut sa = Vec::new();
    let mut sb = Vec::new();
    assert!(matches!(run_consumer(&mut state, a.slot, &mut ca, &mut sa, &[]), Action::Stop));
    assert!(matches!(run_consumer(&mut state, b.slot, &mut cb, &mut sb, &[]), Action::Stop));
    assert_eq!(ca.state, ConsumerState::Terminated);
    assert_eq!(cb.state, ConsumerState::Terminated);
    assert!(sa.is_empty());
    assert!(sb.is_empty());
}

#[test]
fn test_send_report() {
    let mut state = GlobalState::new();
    let a = state.setup_report(ReportKind::Incidence).unwrap();
    let b = state.setup_report(ReportKind::Death).unwrap();
    let mut context = Context::new("Context 1".to_string());
    let mut ci = incidence("Context 1", 0, 150);
    ci.timestamp = "2023-06-26 0".to_string();
    assert_eq!(context.send_report(&mut state, ci), Ok(()));
    assert_eq!(context.send_report(&mut state, death("Context 1", 0, 5)), Ok(()));
    state.shutdown();
    let mut ca = Consumer::new(ReportKind::Incidence);
    let mut cb = Consumer::new(ReportKind::Death);
    let mut sa = Vec::new();
    let mut sb = Vec::new();
    assert!(matches!(ca.drain_into(&mut state, a.slot, &mut sa), Action::Stop));
    assert!(matches!(cb.drain_into(&mut state, b.slot, &mut sb), Action::Stop));
    assert_eq!(ca.state, ConsumerState::Terminated);
    assert_eq!(
        lines(&sa),
        vec!["context_name,counter,timestamp,new_cases", "Context 1,0,2023-06-26 0,150"]
    );
    assert_eq!(
        lines(&sb),
        vec!["context_name,counter,timestamp,deaths", "Context 1,0,2023-06-26 0,5"]
    );
}

#[test]
fn test_mult_context_prod() {
    let mut state = GlobalState::new();
    let a = state.setup_report(ReportKind::Incidence).unwrap();
    let b = state.setup_report(ReportKind::Death).unwrap();
    let mut contexts: Vec<Context> = (0..4).map(|i| Context::new(format!("Context {}", i))).collect();
    for counter in 0..4usize {
        for (i, context) in contexts.iter_mut().enumerate().rev() {
            let name = format!("Context {}", i);
            let r1 = context.send_report(&mut state, incidence(&name, counter, 150 + counter as u32));
            let r2 = context.send_report(&mut state, death(&name, counter, 5 + counter as u32));
            assert_eq!(r1, Ok(()));
            assert_eq!(r2, Ok(()));
        }
    }
    state.shutdown();
    for (slot, kind, head) in [
        (a.slot, ReportKind::Incidence, "context_name,counter,timestamp,new_cases"),
        (b.slot, ReportKind::Death, "context_name,counter,timestamp,deaths"),
    ] {
        let mut c = Consumer::new(kind);
        let mut sink = Vec::new();
        assert!(matches!(c.drain_into(&mut state, slot, &mut sink), Action::Stop));
        let ls = lines(&sink);
        assert_eq!(ls[0], head);
        assert_eq!(ls.len(), 17);
        let mut next = std::collections::HashMap::new();
        for l in ls.iter().skip(1) {
            let parts: Vec<&str> = l.split(',').collect();
            let expected = next.entry(parts[0].to_string()).or_insert(0usize);
            assert_eq!(parts[1].parse::<usize>().unwrap(), *expected);
            *expected += 1;
        }
        assert_eq!(next.len(), 4);
    }
}

#[test]
fn unregistered_kind_is_refused() {
    let mut state = GlobalState::new();
    state.setup_report(ReportKind::Incidence).unwrap();
    let mut context = Context::new("p".to_string());
    assert_eq!(
        context.send_report(&mut state, death("p", 0, 1)),
        Err(PipelineError::UnregisteredKind)
    );
    assert!(state.get_report_sender(ReportKind::Death).is_none());
    let mut c = Consumer::new(ReportKind::Incidence);
    let mut sink = Vec::new();
    assert!(matches!(run_consumer(&mut state, 0, &mut c, &mut sink, &[]), Action::Wait));
    assert!(sink.is_empty());
}

#[test]
fn second_registration_is_refused() {
    let mut state = GlobalState::new();
    let h = state.add_report(ReportKind::Incidence).unwrap();
    assert_eq!(h, Outbound { kind: ReportKind::Incidence, slot: 0 });
    assert_eq!(state.add_report(ReportKind::Incidence), Err(PipelineError::AlreadyRegistered));
    assert_eq!(state.get_report_sender(ReportKind::Incidence), Some(h));
}

#[test]
fn registering_again_after_shutdown_opens_a_new_channel() {
    let mut state = GlobalState::new();
    state.setup_report(ReportKind::Death).unwrap();
    state.shutdown();
    let h = state.setup_report(ReportKind::Death).unwrap();
    assert_eq!(h.slot, 1);
}

#[test]
fn cached_handle_sees_channel_closed() {
    let mut state = GlobalState::new();
    state.setup_report(ReportKind::Incidence).unwrap();
    let mut context = Context::new("p".to_string());
    assert_eq!(context.send_report(&mut state, incidence("p", 0, 1)), Ok(()));
    state.shutdown();
    assert_eq!(
        context.send_report(&mut state, incidence("p", 1, 2)),
        Err(PipelineError::ChannelClosed)
    );
    // The stale handle left the cache: the next attempt asks the registry.
    assert_eq!(
        context.send_report(&mut state, incidence("p", 2, 3)),
        Err(PipelineError::UnregisteredKind)
    );
    state.setup_report(ReportKind::Incidence).unwrap();
    assert_eq!(context.send_report(&mut state, incidence("p", 3, 4)), Ok(()));
    assert!(matches!(state.take_next(1), Delivery::Queued(ReportItem::Incidence(i)) if i.counter == 3));
}

#[test]
fn context_add_report_caches_the_handle() {
    let mut state = GlobalState::new();
    let mut context = Context::new("p".to_string());
    assert_eq!(context.add_report(&mut state, ReportKind::Death), Ok(()));
    assert_eq!(context.add_report(&mut state, ReportKind::Death), Err(PipelineError::AlreadyRegistered));
    assert_eq!(context.name(), "p");
    assert_eq!(context.send_report(&mut state, death("p", 0, 5)), Ok(()));
}

#[test]
fn items_of_one_producer_come_out_in_order() {
    let mut state = GlobalState::new();
    let h = state.setup_report(ReportKind::Incidence).unwrap();
    let mut context = Context::new("p".to_string());
    for k in 0..5usize {
        context.send_report(&mut state, incidence("p", k, k as u32)).unwrap();
    }
    for k in 0..5usize {
        match state.take_next(h.slot) {
            Delivery::Queued(ReportItem::Incidence(i)) => assert_eq!(i.counter, k),
            _ => panic!("expected a queued incidence"),
        }
    }
    assert!(matches!(state.take_next(h.slot), Delivery::Empty));
}

#[test]
fn nothing_is_lost_on_drain() {
    let mut state = GlobalState::new();
    let h = state.setup_report(ReportKind::Death).unwrap();
    let mut context = Context::new("p".to_string());
    for k in 0..3usize {
        context.send_report(&mut state, death("p", k, 7)).unwrap();
    }
    state.shutdown();
    for k in 0..3usize {
        match state.take_next(h.slot) {
            Delivery::Draining(ReportItem::Death(d)) => assert_eq!(d.counter, k),
            _ => panic!("expected a draining death"),
        }
    }
    assert!(matches!(state.take_next(h.slot), Delivery::Closed));
}

#[test]
fn kinds_are_isolated() {
    let mut state = GlobalState::new();
    let a = state.setup_report(ReportKind::Incidence).unwrap();
    let b = state.setup_report(ReportKind::Death).unwrap();
    let mut context = Context::new("p".to_string());
    context.send_report(&mut state, incidence("p", 0, 1)).unwrap();
    assert!(matches!(state.take_next(b.slot), Delivery::Empty));
    assert!(matches!(state.take_next(a.slot), Delivery::Queued(_)));
}

#[test]
fn shutdown_twice_is_shutdown_once() {
    let mut state = GlobalState::new();
    let h = state.setup_report(ReportKind::Incidence).unwrap();
    let mut context = Context::new("p".to_string());
    context.send_report(&mut state, incidence("p", 0, 1)).unwrap();
    state.shutdown();
    state.shutdown();
    assert!(state.report_senders_is_empty());
    assert!(matches!(state.take_next(h.slot), Delivery::Draining(_)));
    assert!(matches!(state.take_next(h.slot), Delivery::Closed));
}

#[test]
fn failed_write_loses_only_that_item() {
    let mut state = GlobalState::new();
    let h = state.setup_report(ReportKind::Incidence).unwrap();
    let mut context = Context::new("p".to_string());
    for k in 0..3usize {
        context.send_report(&mut state, incidence("p", k, 10 + k as u32)).unwrap();
    }
    state.shutdown();
    let mut c = Consumer::new(ReportKind::Incidence);
    let mut sink = Vec::new();
    assert!(matches!(run_consumer(&mut state, h.slot, &mut c, &mut sink, &[1]), Action::Stop));
    assert_eq!(
        lines(&sink),
        vec![
            "context_name,counter,timestamp,new_cases",
            "p,0,2023-06-26 0,10",
            "p,2,2023-06-26 2,12"
        ]
    );
    assert_eq!(c.written, 2);
    assert_eq!(c.failures, 1);
    assert_eq!(c.state, ConsumerState::Terminated);
}

#[test]
fn header_is_repeated_until_a_write_succeeds() {
    let mut state = GlobalState::new();
    let h = state.setup_report(ReportKind::Death).unwrap();
    let mut context = Context::new("p".to_string());
    for k in 0..2usize {
        context.send_report(&mut state, death("p", k, 1)).unwrap();
    }
    let mut c = Consumer::new(ReportKind::Death);
    let mut sink = Vec::new();
    assert!(matches!(run_consumer(&mut state, h.slot, &mut c, &mut sink, &[0]), Action::Wait));
    assert_eq!(lines(&sink), vec!["context_name,counter,timestamp,deaths", "p,1,2023-06-26 1,1"]);
    assert_eq!(c.state, ConsumerState::Running);
}

#[test]
fn fields_needing_quotes_are_quoted() {
    let mut state = GlobalState::new();
    let h = state.setup_report(ReportKind::Incidence).unwrap();
    let mut context = Context::new("a,b".to_string());
    let mut i = incidence("a,b", 0, 0);
    i.timestamp = "say \"hi\"".to_string();
    context.send_report(&mut state, i).unwrap();
    let mut c = Consumer::new(ReportKind::Incidence);
    let mut sink = Vec::new();
    run_consumer(&mut state, h.slot, &mut c, &mut sink, &[]);
    assert_eq!(lines(&sink)[1], "\"a,b\",0,\"say \"\"hi\"\"\",0");
}

#[test]
fn frame_joins_header_and_row() {
    let mut c = Consumer::new(ReportKind::Death);
    assert_eq!(c.frame(vec![1, 2], vec![3]), vec![1, 2, 3]);
    assert_eq!(c.write_done(true), Ok(()));
    assert_eq!(c.frame(vec![1, 2], vec![4]), vec![4]);
    assert_eq!(c.write_done(false), Err(PipelineError::SerializationFailed));
    assert_eq!(c.failures, 1);
    assert_eq!(c.written, 1);
    assert!(c.header_written);
}

#[test]
fn fields_follow_column_order() {
    let item = ReportItem::Death(death("x", 12, 305));
    assert_eq!(item.kind(), ReportKind::Death);
    assert_eq!(
        item.fields(),
        vec![b"x".to_vec(), b"12".to_vec(), b"2023-06-26 12".to_vec(), b"305".to_vec()]
    );
    assert_eq!(header(ReportKind::Incidence)[3], b"new_cases".to_vec());
}

#[test]
fn decimal_digits() {
    assert_eq!(decimal_bytes(0), b"0".to_vec());
    assert_eq!(decimal_bytes(4294967295), b"4294967295".to_vec());
    assert_eq!(decimal_bytes(u64::MAX), b"18446744073709551615".to_vec());
    assert_eq!(utf8_bytes("é"), vec![0xc3, 0xa9]);
}

#[test]
fn shutdown_is_complete_only_when_every_consumer_terminated() {
    assert_eq!(shutdown_outcome(&vec![]), Ok(()));
    assert_eq!(
        shutdown_outcome(&vec![ConsumerState::Terminated, ConsumerState::Terminated]),
        Ok(())
    );
    assert_eq!(
        shutdown_outcome(&vec![ConsumerState::Terminated, ConsumerState::Draining]),
        Err(PipelineError::ShutdownIncomplete)
    );
    let mut state = GlobalState::new();
    assert_eq!(state.channel_count(), 0);
    state.setup_report(ReportKind::Death).unwrap();
    state.shutdown();
    state.setup_report(ReportKind::Death).unwrap();
    assert_eq!(state.channel_count(), 2);
}
