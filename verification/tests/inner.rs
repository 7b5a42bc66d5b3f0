//! State of a pool.

use pgdog::net::BackendKeyData;
use pgdog::pool::error::Error;
use pgdog::pool::inner::{Inner, ShouldCreate, Waiter};
use pgdog::pool::taken::{Mapping, Request, Taken};
use pgdog::server::connection::{ConnectReason, DisconnectReason, Server};
use pgdog::server::stats::{Counts, State};
use pgdog::time::{Duration, Instant};
use tokio::sync::oneshot::channel;

fn key(n: i32) -> BackendKeyData {
    BackendKeyData { pid: n, secret: n }
}

fn server(n: i32) -> Box<Server> {
    let mut server = Server::default();
    server.id = key(n);
    Box::new(server)
}

fn request(n: i32) -> Request {
    Request::unrouted(key(n), now())
}

fn now() -> Instant {
    Instant::default()
}

fn after(secs: u64) -> Instant {
    now().later(Duration::from_secs(secs))
}

/// A pool that handed out the connection with this number.
fn handed_out(inner: &mut Inner, n: i32) -> Box<Server> {
    inner.taken.take(&Mapping { client: key(1000 + n), server: key(n) }).unwrap();
    server(n)
}

#[test]
fn test_default_state() {
    let inner = Inner::default();

    assert_eq!(inner.idle(), 0);
    assert_eq!(inner.checked_out(), 0);
    assert_eq!(inner.total(), 0);
    assert!(!inner.online);
    assert!(!inner.paused);
}

#[test]
fn test_offline_pool_behavior() {
    let mut inner = Inner::default();
    let server = handed_out(&mut inner, 1);

    let result = inner.maybe_check_in(server, now(), Counts::default(), false).unwrap();

    assert!(!result.server_error);
    assert_eq!(inner.idle(), 0);
    assert_eq!(inner.total(), 0);
    assert!(result.closed.is_some());
}

#[test]
fn test_paused_pool_behavior() {
    let mut inner = Inner::default();
    inner.online = true;
    inner.paused = true;
    let server = handed_out(&mut inner, 1);

    inner.maybe_check_in(server, now(), Counts::default(), false).unwrap();

    assert_eq!(inner.total(), 0);
}

#[test]
fn test_draining_pool_behavior() {
    let mut inner = Inner::default();
    inner.online = true;
    inner.draining = true;
    inner.config.min = 2;
    inner.config.max = 5;
    let server = handed_out(&mut inner, 1);

    inner.maybe_check_in(server, now(), Counts::default(), false).unwrap();

    assert_eq!(inner.idle(), 0);
    assert_eq!(inner.total(), 0);
    assert_eq!(inner.should_create(), ShouldCreate::No);
}

#[test]
fn test_online_pool_accepts_connections() {
    let mut inner = Inner::default();
    inner.online = true;
    inner.paused = false;
    let server = handed_out(&mut inner, 1);

    let result = inner.maybe_check_in(server, now(), Counts::default(), false).unwrap();

    assert!(!result.server_error);
    assert_eq!(inner.idle(), 1);
    assert_eq!(inner.total(), 1);
}

#[test]
fn test_server_error_handling() {
    let mut inner = Inner::default();
    inner.online = true;
    let mut server = handed_out(&mut inner, 1);
    server.stats.state = State::Error;
    assert_eq!(inner.checked_out(), 1);

    let result = inner.maybe_check_in(server, now(), Counts::default(), false).unwrap();
    assert!(result.server_error);

    assert!(inner.taken.is_empty());
    assert_eq!(inner.idle(), 0);
}

#[test]
fn test_should_create_with_waiting_clients() {
    let mut inner = Inner::default();
    inner.online = true;
    inner.config.max = 5;
    inner.config.min = 1;
    inner.waiting.push_back(Waiter { request: request(1), tx: channel().0 });

    assert_eq!(inner.idle(), 0);
    assert!(matches!(
        inner.should_create(),
        ShouldCreate::Yes {
            reason: ConnectReason::ClientWaiting,
            min: 1,
            max: 5,
            idle: 0,
            taken: 0,
            waiting: 1,
        }
    ));
    assert_eq!(
        inner.should_create().to_string(),
        "reason=client waiting, min=1, max=5, idle=0, taken=0, waiting=1"
    );
}

#[test]
fn test_should_create_below_minimum() {
    let mut inner = Inner::default();
    inner.online = true;
    inner.config.min = 2;
    inner.config.max = 5;

    assert!(inner.total() < inner.min());
    assert!(inner.total() < inner.max());
    assert!(matches!(
        inner.should_create(),
        ShouldCreate::Yes {
            reason: ConnectReason::BelowMin,
            min: 2,
            max: 5,
            idle: 0,
            taken: 0,
            waiting: 0,
        }
    ));
}

#[test]
fn test_should_not_create_at_max() {
    let mut inner = Inner::default();
    inner.online = true;
    inner.config.max = 3;

    assert!(!inner.full());

    inner.idle_connections.push(server(1));
    inner.idle_connections.push(server(2));
    inner.taken.take(&Mapping { client: key(10), server: key(3) }).unwrap();

    assert_eq!(inner.idle(), 2);
    assert_eq!(inner.checked_out(), 1);
    assert_eq!(inner.total(), inner.config.max);
    assert!(inner.full());
    assert_eq!(inner.should_create(), ShouldCreate::No);
}

#[test]
fn test_close_idle_respects_minimum() {
    let mut inner = Inner::default();
    inner.config.min = 2;
    inner.config.max = 3;
    inner.config.idle_timeout = Duration::from_millis(5_000);

    inner.idle_connections.push(server(1));
    inner.idle_connections.push(server(2));
    inner.idle_connections.push(server(3));

    inner.close_idle(now());
    assert_eq!(inner.idle(), inner.config.max);

    for _ in 0..10 {
        inner.close_idle(after(6));
    }
    assert_eq!(inner.idle(), inner.config.min);

    inner.config.min = 1;
    inner.close_idle(after(6));
    assert_eq!(inner.idle(), inner.config.min);
}

#[test]
fn test_close_old_ignores_minimum() {
    let mut inner = Inner::default();
    inner.online = true;
    inner.config.min = 1;
    inner.config.max_age = Duration::from_millis(60_000);
    let server = handed_out(&mut inner, 1);

    inner.maybe_check_in(server, now(), Counts::default(), false).unwrap();
    assert_eq!(inner.idle(), 1);

    inner.close_old(after(59));
    assert_eq!(inner.idle(), 1);

    let closed = inner.close_old(after(61));
    assert_eq!(inner.idle(), 0);
    assert_eq!(closed.len(), 1);
    assert_eq!(closed[0].disconnect_reason, Some(DisconnectReason::Old));
}

#[test]
fn test_connection_lifecycle() {
    let mut inner = Inner::default();

    assert_eq!(inner.total(), 0);

    inner.taken.take(&Mapping::default()).unwrap();
    assert_eq!(inner.total(), 1);
    assert_eq!(inner.checked_out(), 1);

    inner.taken.clear();
    assert_eq!(inner.total(), 0);
    assert_eq!(inner.checked_out(), 0);
}

#[test]
fn test_max_age_enforcement_on_checkin() {
    let mut inner = Inner::default();
    inner.online = true;
    inner.config.max_age = Duration::from_millis(60_000);
    let server = handed_out(&mut inner, 1);

    inner.maybe_check_in(server, after(61), Counts::default(), false).unwrap();

    assert_eq!(inner.total(), 0);
}

#[test]
fn test_peer_lookup() {
    let mut inner = Inner::default();
    let client_id = key(1);
    let server_id = key(2);

    assert_eq!(inner.peer(&client_id), None);

    inner.taken.take(&Mapping { client: client_id, server: server_id }).unwrap();

    assert_eq!(inner.peer(&client_id), Some(server_id));
}

#[test]
fn test_taken_server_returns_server_when_mapped() {
    let mut taken = Taken::new();
    let client_id = key(1);
    let server_id = key(2);

    assert_eq!(taken.server(&client_id), None);

    taken.take(&Mapping { client: client_id, server: server_id }).unwrap();
    assert_eq!(taken.server(&client_id), Some(server_id));

    assert_eq!(taken.server(&key(3)), None);

    // Taken and checked in again, nothing is left.
    assert!(taken.check_in(&server_id).is_ok());
    assert!(taken.is_empty());
}

#[test]
fn test_can_remove() {
    let mut inner = Inner::default();
    inner.config.min = 2;
    inner.config.max = 5;

    assert_eq!(inner.can_remove(), 0);

    inner.idle_connections.push(server(1));
    assert_eq!(inner.can_remove(), 0);

    inner.idle_connections.push(server(2));
    assert_eq!(inner.can_remove(), 0);

    inner.idle_connections.push(server(3));
    assert_eq!(inner.can_remove(), 1);
}

#[test]
fn test_take_connection() {
    let mut inner = Inner::default();
    let request = request(1);

    assert!(inner.take(&request).unwrap().is_none());

    inner.idle_connections.push(server(1));
    let server = inner.take(&request);
    assert!(server.unwrap().is_some());
    assert_eq!(inner.idle(), 0);
    assert_eq!(inner.checked_out(), 1);
}

#[test]
fn test_put_connection_with_waiter() {
    let mut inner = Inner::default();
    let (tx, mut rx) = channel();

    inner.waiting.push_back(Waiter { request: request(1), tx });

    inner.put(server(7), now()).unwrap();

    assert_eq!(inner.idle(), 0);
    assert_eq!(inner.checked_out(), 1);
    assert!(inner.waiting.is_empty());

    let received = rx.try_recv().unwrap().unwrap();
    assert_eq!(*received.id(), key(7));
}

#[test]
fn test_put_connection_no_waiters() {
    let mut inner = Inner::default();

    inner.put(server(1), now()).unwrap();

    assert_eq!(inner.idle(), 1);
    assert_eq!(inner.checked_out(), 0);
    assert!(inner.waiting.is_empty());
}

#[test]
fn test_dump_idle() {
    let mut inner = Inner::default();
    inner.idle_connections.push(server(1));
    inner.idle_connections.push(server(2));

    assert_eq!(inner.idle(), 2);
    let closed = inner.dump_idle();
    assert_eq!(inner.idle(), 0);
    assert_eq!(closed.len(), 2);
    assert_eq!(closed[0].disconnect_reason, Some(DisconnectReason::Offline));
}

#[test]
fn test_remove_waiter() {
    let mut inner = Inner::default();
    let target_id = key(2);
    for n in 1..4 {
        inner.waiting.push_back(Waiter { request: request(n), tx: channel().0 });
    }

    assert_eq!(inner.waiting.len(), 3);
    inner.remove_waiter(&target_id);
    assert_eq!(inner.waiting.len(), 2);
    assert!(inner.waiting.iter().all(|w| w.request.id != target_id));
}

#[test]
fn test_close_waiters() {
    let mut inner = Inner::default();
    let (tx1, mut rx1) = channel();
    let (tx2, mut rx2) = channel();

    inner.waiting.push_back(Waiter { request: request(1), tx: tx1 });
    inner.waiting.push_back(Waiter { request: request(2), tx: tx2 });

    assert_eq!(inner.waiting.len(), 2);
    inner.close_waiters(Error::CheckoutTimeout);
    assert_eq!(inner.waiting.len(), 0);

    assert_eq!(rx1.try_recv().unwrap().unwrap_err(), Error::CheckoutTimeout);
    assert_eq!(rx2.try_recv().unwrap().unwrap_err(), Error::CheckoutTimeout);
}

#[test]
fn test_should_create_for_waiting_clients_even_above_minimum() {
    let mut inner = Inner::default();
    inner.online = true;
    inner.config.min = 1;
    inner.config.max = 5;

    inner.taken.take(&Mapping { client: key(1), server: key(2) }).unwrap();
    inner.taken.take(&Mapping { client: key(3), server: key(4) }).unwrap();
    inner.waiting.push_back(Waiter { request: request(5), tx: channel().0 });

    assert!(inner.total() > inner.min());
    assert!(inner.total() < inner.max());
    assert_eq!(inner.idle(), 0);
    assert!(!inner.waiting.is_empty());
    assert!(matches!(
        inner.should_create(),
        ShouldCreate::Yes {
            reason: ConnectReason::ClientWaiting,
            min: 1,
            max: 5,
            idle: 0,
            taken: 2,
            waiting: 1,
        }
    ));
}

#[test]
fn test_should_not_create_offline() {
    let mut inner = Inner::default();
    inner.online = false;
    inner.config.min = 2;

    assert!(inner.total() < inner.min());
    assert_eq!(inner.should_create(), ShouldCreate::No);
}

#[test]
fn test_merge_taken() {
    let mut inner = Inner::default();
    let mapping = Mapping { client: key(1), server: key(2) };

    assert_eq!(inner.checked_out(), 0);

    let mut taken = Taken::new();
    taken.take(&mapping).unwrap();

    inner.merge_taken(taken);
    assert_eq!(inner.checked_out(), 1);
}

#[test]
fn test_put_connection_skips_dropped_waiters() {
    let mut inner = Inner::default();
    let (tx1, rx1) = channel();
    let (tx2, rx2) = channel();
    let (tx3, mut rx3) = channel();

    inner.waiting.push_back(Waiter { request: request(1), tx: tx1 });
    inner.waiting.push_back(Waiter { request: request(2), tx: tx2 });
    inner.waiting.push_back(Waiter { request: request(3), tx: tx3 });

    drop(rx1);
    drop(rx2);

    assert_eq!(inner.waiting.len(), 3);

    inner.put(server(1), now()).unwrap();

    assert_eq!(inner.waiting.len(), 0);
    assert_eq!(inner.checked_out(), 1);
    assert_eq!(inner.idle(), 0);
    assert_eq!(inner.peer(&key(3)), Some(key(1)));

    assert!(rx3.try_recv().is_ok());
}

#[test]
fn test_put_connection_all_waiters_dropped() {
    let mut inner = Inner::default();
    let (tx1, rx1) = channel();
    let (tx2, rx2) = channel();

    inner.waiting.push_back(Waiter { request: request(1), tx: tx1 });
    inner.waiting.push_back(Waiter { request: request(2), tx: tx2 });

    drop(rx1);
    drop(rx2);

    assert_eq!(inner.waiting.len(), 2);

    inner.put(server(1), now()).unwrap();

    assert_eq!(inner.waiting.len(), 0);
    assert_eq!(inner.idle(), 1);
    assert_eq!(inner.checked_out(), 0);
}

#[test]
fn test_same_client_checks_out_two_connections() {
    let mut inner = Inner::default();
    inner.online = true;
    inner.config.max = 2;
    inner.config.min = 0;

    inner.idle_connections.push(server(1));
    inner.idle_connections.push(server(2));

    assert_eq!(inner.idle(), 2);
    assert_eq!(inner.checked_out(), 0);
    assert_eq!(inner.total(), 2);

    let request = Request::unrouted(key(9), now());

    let conn1 = inner.take(&request).unwrap().expect("should get connection");
    assert_eq!(inner.idle(), 1);
    assert_eq!(inner.checked_out(), 1);
    assert_eq!(inner.total(), 2);

    let conn2 = inner.take(&request).unwrap().expect("should get connection");
    assert_eq!(inner.idle(), 0);
    assert_eq!(inner.checked_out(), 2);
    assert_eq!(inner.total(), 2);

    assert_ne!(conn1.id(), conn2.id());

    inner.maybe_check_in(conn1, now(), Counts::default(), false).unwrap();
    assert_eq!(inner.idle(), 1);
    assert_eq!(inner.checked_out(), 1);
    assert_eq!(inner.total(), 2);

    inner.maybe_check_in(conn2, now(), Counts::default(), false).unwrap();
    assert_eq!(inner.idle(), 2);
    assert_eq!(inner.checked_out(), 0);
    assert_eq!(inner.total(), 2);

    let idle_ids: Vec<BackendKeyData> = inner.idle_conns().iter().map(|s| *s.id()).collect();
    assert!(idle_ids.contains(&key(1)));
    assert!(idle_ids.contains(&key(2)));
}

#[test]
fn strangers_are_not_taken_in() {
    let mut inner = Inner::default();
    inner.online = true;
    let err = inner.maybe_check_in(server(1), now(), Counts::default(), false).unwrap_err();
    assert_eq!(err, Error::UntrackedConnCheckin(key(1)));
    assert_eq!(inner.total(), 0);
}

#[test]
fn moved_pools_forward_connections() {
    let mut inner = Inner::default();
    inner.online = true;
    let server = handed_out(&mut inner, 1);
    inner.idle_connections.push(self::server(2));
    let (idle, taken) = inner.move_conns_to(42);
    assert_eq!(idle.len(), 1);
    assert_eq!(taken.len(), 1);
    assert_eq!(inner.total(), 0);

    let result = inner.maybe_check_in(server, now(), Counts::default(), false).unwrap();
    let forward = result.forward.unwrap();
    assert_eq!(forward.pool, 42);
    assert_eq!(*forward.server.id(), key(1));
    assert_eq!(inner.total(), 0);
}

#[test]
fn first_come_first_served() {
    let mut inner = Inner::default();
    let (tx1, mut rx1) = channel();
    let (tx2, mut rx2) = channel();
    inner.waiting.push_back(Waiter { request: request(1), tx: tx1 });
    inner.waiting.push_back(Waiter { request: request(2), tx: tx2 });
    inner.put(server(1), after(2)).unwrap();
    assert!(rx1.try_recv().is_ok());
    assert!(rx2.try_recv().is_err());
    assert_eq!(inner.waiting.len(), 1);
    assert_eq!(inner.counts.server_assignment_count, 1);
    assert_eq!(inner.counts.wait_time, Duration::from_secs(2));
}

#[test]
fn connections_are_in_one_place() {
    let mut inner = Inner::default();
    inner.online = true;
    for n in 1..4 {
        inner.put(server(n), now()).unwrap();
    }
    let places = |inner: &Inner, n: i32| {
        inner.idle_conns().iter().filter(|c| *c.id() == key(n)).count()
            + inner.checked_out_server_ids().iter().filter(|id| **id == key(n)).count()
    };
    let conn = inner.take(&request(100)).unwrap().unwrap();
    let taken = conn.id().pid;
    for n in 1..4 {
        assert_eq!(places(&inner, n), 1);
    }
    inner.maybe_check_in(conn, now(), Counts::default(), false).unwrap();
    for n in 1..4 {
        assert_eq!(places(&inner, n), 1);
    }
    let mut conn = inner.take(&request(101)).unwrap().unwrap();
    assert_eq!(conn.id().pid, taken);
    conn.stats_mut().state(State::Error);
    inner.maybe_check_in(conn, now(), Counts::default(), false).unwrap();
    assert_eq!(places(&inner, taken), 0);
}

#[test]
fn pools_grow_to_their_limit() {
    let mut inner = Inner::default();
    inner.online = true;
    inner.config.min = 3;
    inner.config.max = 3;
    let mut made = 0;
    while inner.should_create().yes() {
        made += 1;
        inner.put(server(made), now()).unwrap();
    }
    assert_eq!(made, 3);
    assert_eq!(inner.total(), 3);
}

#[test]
fn the_first_client_is_offered_a_connection() {
    let mut inner = Inner::default();
    inner.online = true;
    inner.waiting.push_back(Waiter { request: request(1), tx: channel().0 });
    inner.waiting.push_back(Waiter { request: request(2), tx: channel().0 });
    let (waiter, sent) = inner.next_offer(server(7));
    assert_eq!(waiter.request.id, key(1));
    assert_eq!(sent.unwrap().id, key(7));
    assert_eq!(inner.waiting.len(), 1);

    // The client is gone, and the connection comes back.
    let back = inner.offered(&waiter.request, key(7), Err(Ok(server(7))), after(1));
    assert_eq!(back.unwrap().id, key(7));
    assert_eq!(inner.checked_out(), 0);
    assert_eq!(inner.counts.server_assignment_count, 0);

    // The next one is still there.
    let (waiter, sent) = inner.next_offer(server(7));
    assert_eq!(waiter.request.id, key(2));
    assert!(sent.is_ok());
    assert!(inner.offered(&waiter.request, key(7), Ok(()), after(1)).is_none());
    assert_eq!(inner.checked_out(), 1);
    assert_eq!(inner.peer(&key(2)), Some(key(7)));
    assert_eq!(inner.counts.server_assignment_count, 1);
    assert_eq!(inner.counts.wait_time, Duration::from_secs(1));
}

#[test]
fn the_first_client_is_refused() {
    let mut inner = Inner::default();
    inner.waiting.push_back(Waiter { request: request(1), tx: channel().0 });
    inner.waiting.push_back(Waiter { request: request(2), tx: channel().0 });
    let (waiter, sent) = inner.next_refusal(Error::Offline);
    assert_eq!(waiter.request.id, key(1));
    assert!(matches!(sent, Err(Error::Offline)));
    assert_eq!(inner.waiting.len(), 1);
}
