use serve_limit::ratelimit::limiters::CONCURRENCY_LIMIT;
use serve_limit::ratelimit::scheduler::{
    registration, Event, Next, Permit, SchedMsg, Scheduler, SchedulerHandle,
};
use serve_limit::ratelimit::{ReqInfo, Wakeup};
use tokio::sync::mpsc::{unbounded_channel, UnboundedReceiver, UnboundedSender};
use tokio::sync::oneshot;

struct Held(Permit<Held>);

type Msg = SchedMsg<Held>;

fn info(size: u32) -> ReqInfo {
    ReqInfo { size }
}

fn setup() -> (Scheduler<Held>, UnboundedSender<Msg>, UnboundedReceiver<Msg>) {
    let (tx, rx) = unbounded_channel();
    (Scheduler::new(), tx, rx)
}

fn enqueue(scheduler: &mut Scheduler<Held>, seq: u64, size: u32) -> oneshot::Receiver<Held> {
    let (grant, receiver) = oneshot::channel();
    let (key, msg) = registration(seq, info(size), grant);
    assert_eq!(key, (size, seq));
    scheduler.apply(msg);
    receiver
}

fn set_ready(scheduler: &mut Scheduler<Held>, seq: u64, size: u32) {
    scheduler.apply(SchedMsg::SetReady { key: (size, seq) });
}

#[test]
fn nothing_is_ready_at_first() {
    let (mut scheduler, tx, _rx) = setup();
    assert_eq!(scheduler.next_ready(), None);
    assert_eq!(scheduler.dispatch(&tx, &Held), None);
    assert!(matches!(scheduler.take_next(0), Next::Idle));
}

#[test]
fn new_requests_wait_for_data() {
    let (mut scheduler, tx, _rx) = setup();
    let mut receiver = enqueue(&mut scheduler, 0, 10);
    assert_eq!(scheduler.dispatch(&tx, &Held), None);
    assert!(receiver.try_recv().is_err());
    set_ready(&mut scheduler, 0, 10);
    assert_eq!(scheduler.next_ready(), Some((10, 0)));
    assert_eq!(scheduler.dispatch(&tx, &Held), None);
    assert!(receiver.try_recv().is_ok());
    assert_eq!(scheduler.next_ready(), None);
}

#[test]
fn smallest_first_then_arrival_order() {
    let (mut scheduler, _tx, _rx) = setup();
    let mut receivers = Vec::new();
    for (seq, size) in [(0u64, 30u32), (1, 20), (2, 20), (3, 10)] {
        receivers.push(enqueue(&mut scheduler, seq, size));
        if seq != 3 {
            set_ready(&mut scheduler, seq, size);
        }
    }
    assert_eq!(scheduler.next_ready(), Some((20, 1)));
    let mut sizes = Vec::new();
    while let Some(key) = scheduler.next_ready() {
        sizes.push(key);
        match scheduler.take_next(0) {
            Next::Allowed(waiter) => assert!(waiter.info.size == key.0 && waiter.ready),
            _ => panic!("allowed"),
        }
    }
    assert_eq!(sizes, vec![(20, 1), (20, 2), (30, 0)]);
}

#[test]
fn removal_is_idempotent_and_late_messages_are_harmless() {
    let (mut scheduler, _tx, _rx) = setup();
    let _receiver = enqueue(&mut scheduler, 0, 10);
    set_ready(&mut scheduler, 0, 10);
    scheduler.apply(SchedMsg::Remove { key: (10, 0) });
    scheduler.apply(SchedMsg::Remove { key: (10, 0) });
    set_ready(&mut scheduler, 0, 10);
    assert_eq!(scheduler.next_ready(), None);
}

#[test]
fn handlers_that_gave_up_cost_nothing() {
    let (mut scheduler, tx, mut rx) = setup();
    for seq in 0..1000u64 {
        drop(enqueue(&mut scheduler, seq, 10));
        set_ready(&mut scheduler, seq, 10);
    }
    assert_eq!(scheduler.dispatch(&tx, &Held), None);
    assert_eq!(scheduler.next_ready(), None);
    assert!(rx.try_recv().is_err());
}

#[test]
fn commit_consumes_capacity_unless_closed() {
    let (mut scheduler, _tx, _rx) = setup();
    let large = 250_000_000;
    let _receiver = enqueue(&mut scheduler, 0, large);
    set_ready(&mut scheduler, 0, large);
    assert!(!scheduler.commit(0, &info(large), true));
    assert!(scheduler.commit(0, &info(large), false));
    assert!(matches!(
        scheduler.take_next(0),
        Next::Blocked(Wakeup::After(2_000_000_000))
    ));
    assert_eq!(scheduler.next_ready(), Some((large, 0)));
    assert!(matches!(scheduler.take_next(2_000_000_000), Next::Allowed(_)));
}

#[test]
fn settling_gives_the_permit_of_the_request() {
    let (mut scheduler, tx, mut rx) = setup();
    let large = 250_000_000;
    let mut receiver = enqueue(&mut scheduler, 0, large);
    set_ready(&mut scheduler, 0, large);
    let waiter = match scheduler.take_next(0) {
        Next::Allowed(waiter) => waiter,
        _ => panic!("allowed"),
    };
    let (grant, permit) = scheduler.settle(0, waiter, false, &tx).unwrap();
    assert!(matches!(permit.end_msg(), SchedMsg::End { info: ReqInfo { size: 250_000_000 } }));
    assert!(grant.send(Held(permit)).is_ok());
    let held = receiver.try_recv().ok().unwrap();
    assert!(rx.try_recv().is_err());
    drop(held);
    assert!(matches!(rx.try_recv(), Ok(SchedMsg::End { info: ReqInfo { size: 250_000_000 } })));
    assert!(rx.try_recv().is_err());
    // The grant was charged.
    let _next = enqueue(&mut scheduler, 1, large);
    set_ready(&mut scheduler, 1, large);
    assert!(matches!(scheduler.take_next(0), Next::Blocked(Wakeup::After(2_000_000_000))));
}

#[test]
fn settling_for_a_handler_that_gave_up_gives_nothing() {
    let (mut scheduler, tx, mut rx) = setup();
    let large = 250_000_000;
    for seq in 0..2 {
        let _receiver = enqueue(&mut scheduler, seq, large);
        set_ready(&mut scheduler, seq, large);
        match scheduler.take_next(0) {
            Next::Allowed(waiter) => assert!(scheduler.settle(0, waiter, true, &tx).is_none()),
            _ => panic!("allowed"),
        }
    }
    assert!(rx.try_recv().is_err());
}

#[test]
fn permits_carry_the_requests_that_were_granted() {
    let (mut scheduler, tx, _rx) = setup();
    let mut receivers = Vec::new();
    for (seq, size) in [(0u64, 30u32), (1, 10), (2, 20)] {
        receivers.push((size, enqueue(&mut scheduler, seq, size)));
        set_ready(&mut scheduler, seq, size);
    }
    assert_eq!(scheduler.dispatch(&tx, &Held), None);
    for (size, receiver) in &mut receivers {
        match receiver.try_recv().ok().unwrap().0.end_msg() {
            SchedMsg::End { info } => assert_eq!(info.size, *size),
            _ => panic!("the end of a serve"),
        }
    }
}

#[test]
fn a_registration_is_served_at_most_once() {
    let (mut scheduler, tx, _rx) = setup();
    let mut receiver = enqueue(&mut scheduler, 0, 10);
    set_ready(&mut scheduler, 0, 10);
    assert_eq!(scheduler.dispatch(&tx, &Held), None);
    assert!(receiver.try_recv().is_ok());
    // Marked again, it does not wait any more.
    set_ready(&mut scheduler, 0, 10);
    assert_eq!(scheduler.next_ready(), None);
    // Registered again, it has to be marked again.
    let _again = enqueue(&mut scheduler, 0, 10);
    assert_eq!(scheduler.next_ready(), None);
    set_ready(&mut scheduler, 0, 10);
    assert_eq!(scheduler.next_ready(), Some((10, 0)));
    // Removed, it is gone, and the mark with it; the others stay.
    let _other = enqueue(&mut scheduler, 1, 10);
    set_ready(&mut scheduler, 1, 10);
    scheduler.apply(SchedMsg::Remove { key: (10, 0) });
    assert_eq!(scheduler.next_ready(), Some((10, 1)));
}

#[test]
fn concurrency_cap_holds_until_a_permit_is_dropped() {
    let (mut scheduler, tx, mut rx) = setup();
    let mut receivers = Vec::new();
    for seq in 0..(CONCURRENCY_LIMIT as u64 + 5) {
        receivers.push(enqueue(&mut scheduler, seq, 1));
        set_ready(&mut scheduler, seq, 1);
    }
    let wakeup = scheduler.dispatch(&tx, &Held);
    assert!(wakeup.is_some());
    let mut held: Vec<Held> = receivers.iter_mut().filter_map(|r| r.try_recv().ok()).collect();
    assert_eq!(held.len(), CONCURRENCY_LIMIT);
    assert!(rx.try_recv().is_err());
    // An hour later the rates allow more, but the cap does not.
    let hour = 3_600_000_000_000;
    assert!(matches!(scheduler.take_next(hour), Next::Blocked(Wakeup::Never)));
    held.pop();
    let msg = rx.try_recv().ok().unwrap();
    assert!(matches!(msg, SchedMsg::End { info: ReqInfo { size: 1 } }));
    assert!(scheduler.accepts(&msg));
    assert!(scheduler.on_event(Event::Message(msg)));
    assert!(matches!(scheduler.take_next(hour), Next::Allowed(_)));
}

#[test]
fn permit_that_nobody_receives_releases_its_serve() {
    let (mut scheduler, tx, mut rx) = setup();
    let receiver = enqueue(&mut scheduler, 0, 7);
    set_ready(&mut scheduler, 0, 7);
    assert_eq!(scheduler.dispatch(&tx, &Held), None);
    drop(receiver);
    assert!(matches!(rx.try_recv(), Ok(SchedMsg::End { info: ReqInfo { size: 7 } })));
}

#[test]
fn blocked_request_stays_in_the_queue() {
    let (mut scheduler, tx, _rx) = setup();
    let _first = enqueue(&mut scheduler, 0, 249_000_000);
    let mut second = enqueue(&mut scheduler, 1, 250_000_000);
    set_ready(&mut scheduler, 0, 249_000_000);
    set_ready(&mut scheduler, 1, 250_000_000);
    match scheduler.dispatch(&tx, &Held) {
        Some(Wakeup::After(nanos)) => assert!(nanos > 0 && nanos <= 1_992_000_000),
        _ => panic!("blocked"),
    }
    assert_eq!(scheduler.next_ready(), Some((250_000_000, 1)));
    assert!(second.try_recv().is_err());
}

#[test]
fn blocked_next_request_means_that_all_are_blocked() {
    let (mut scheduler, _tx, _rx) = setup();
    assert!(scheduler.commit(0, &info(250_000_000), false));
    let mut receivers = Vec::new();
    for (seq, size) in [(0u64, 3000u32), (1, 1000), (2, 2000)] {
        receivers.push(enqueue(&mut scheduler, seq, size));
        set_ready(&mut scheduler, seq, size);
    }
    for (key, nanos) in [((1000, 1), 8_000), ((2000, 2), 16_000), ((3000, 0), 24_000)] {
        assert_eq!(scheduler.next_ready(), Some(key));
        match scheduler.take_next(0) {
            Next::Blocked(wakeup) => assert_eq!(wakeup, Wakeup::After(nanos)),
            _ => panic!("blocked"),
        }
        scheduler.apply(SchedMsg::Remove { key });
    }
    assert!(matches!(scheduler.take_next(0), Next::Idle));
}

#[test]
fn enqueueing_the_same_key_replaces_the_request() {
    let (mut scheduler, tx, _rx) = setup();
    let mut first = enqueue(&mut scheduler, 0, 10);
    set_ready(&mut scheduler, 0, 10);
    let _second = enqueue(&mut scheduler, 0, 10);
    assert_eq!(scheduler.dispatch(&tx, &Held), None);
    assert!(matches!(first.try_recv(), Err(oneshot::error::TryRecvError::Closed)));
}

#[test]
fn events_drive_the_scheduler() {
    let (mut scheduler, _tx, _rx) = setup();
    assert!(scheduler.on_event(Event::Woken));
    assert!(!scheduler.on_event(Event::Closed));
    assert!(scheduler.on_event(Event::Message(SchedMsg::Remove { key: (1, 1) })));
}

#[test]
fn handle_sends_messages_in_order() {
    let (tx, mut rx) = unbounded_channel::<Msg>();
    let handle = SchedulerHandle::new(tx);
    let (first, _receiver) = handle.enqueue(info(5));
    let (second, _other) = handle.enqueue(info(3));
    second.set_ready();
    drop(first);
    drop(second);
    assert!(matches!(
        rx.try_recv(),
        Ok(SchedMsg::Enqueue { seq: 0, info: ReqInfo { size: 5 }, .. })
    ));
    assert!(matches!(
        rx.try_recv(),
        Ok(SchedMsg::Enqueue { seq: 1, info: ReqInfo { size: 3 }, .. })
    ));
    assert!(matches!(rx.try_recv(), Ok(SchedMsg::SetReady { key: (3, 1) })));
    assert!(matches!(rx.try_recv(), Ok(SchedMsg::Remove { key: (5, 0) })));
    assert!(matches!(rx.try_recv(), Ok(SchedMsg::Remove { key: (3, 1) })));
    assert!(rx.try_recv().is_err());
}

#[test]
fn registering_gives_ticket_and_message_of_one_key() {
    let (tx, mut rx) = unbounded_channel::<Msg>();
    let handle = SchedulerHandle::new(tx);
    for seq in [0u64, 7, u64::MAX] {
        let (grant, _receiver) = oneshot::channel();
        let (ticket, msg) = handle.register(seq, info(5), grant);
        match msg {
            SchedMsg::Enqueue { seq: drawn, info, .. } => {
                assert_eq!((info.size, drawn), (5, seq));
            }
            _ => panic!("a registration"),
        }
        match ticket.ready_msg() {
            SchedMsg::SetReady { key } => assert_eq!(key, (5, seq)),
            _ => panic!("a mark"),
        }
        match ticket.remove_msg() {
            SchedMsg::Remove { key } => assert_eq!(key, (5, seq)),
            _ => panic!("a removal"),
        }
        // Nothing is sent before the ticket is dropped.
        assert!(rx.try_recv().is_err());
        drop(ticket);
        match rx.try_recv() {
            Ok(SchedMsg::Remove { key }) => assert_eq!(key, (5, seq)),
            _ => panic!("a removal"),
        }
    }
}

#[test]
fn handle_without_a_scheduler_sends_into_the_void() {
    let (tx, rx) = unbounded_channel::<Msg>();
    drop(rx);
    let handle = SchedulerHandle::new(tx);
    let (ticket, mut receiver) = handle.enqueue(info(5));
    ticket.set_ready();
    assert!(matches!(receiver.try_recv(), Err(oneshot::error::TryRecvError::Closed)));
}

#[test]
fn whole_round_trip() {
    let (tx, mut rx) = unbounded_channel::<Msg>();
    let handle = SchedulerHandle::new(tx.clone());
    let mut scheduler = Scheduler::new();
    let (ticket, mut receiver) = handle.enqueue(info(5));
    ticket.set_ready();
    while let Ok(msg) = rx.try_recv() {
        scheduler.apply(msg);
    }
    assert_eq!(scheduler.dispatch(&tx, &Held), None);
    let held = receiver.try_recv().ok().unwrap();
    drop(ticket);
    drop(held.0);
    assert!(matches!(rx.try_recv(), Ok(SchedMsg::Remove { key: (5, 0) })));
    assert!(matches!(rx.try_recv(), Ok(SchedMsg::End { info: ReqInfo { size: 5 } })));
}
