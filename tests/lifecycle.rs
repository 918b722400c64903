use mg::{MgConn, MgEvent, MgFlag, MgIo, MgMgr, MgStatus};

const MS: u64 = 1_000_000;
const SEC: u64 = 1_000_000_000;

type Report = (u128, MgEvent, MgStatus);

/// Runs one tick at `now`, answering each connection's outside work with
/// `outcome`, and returns the events in order, closes last.
fn tick<F: Fn(&MgConn, MgIo) -> bool>(mgr: &mut MgMgr, now: u64, outcome: F) -> Vec<Report> {
    let mut reports = Vec::new();
    let mut expired: Vec<usize> = Vec::new();
    for index in 0..mgr.len() {
        let io = mgr.conn(index).io();
        let ok = match io {
            MgIo::Idle => false,
            _ => outcome(mgr.conn(index), io),
        };
        if let Some((ev, st)) = mgr.handle_conn(index, now, ok, &mut expired) {
            reports.push((mgr.conn(index).id(), ev, st));
        }
    }
    for c in mgr.remove_expired_tasks(&expired) {
        reports.push((c.id(), MgEvent::EvClose, MgStatus::MgOk));
    }
    reports
}

fn ids(mgr: &MgMgr) -> Vec<u128> {
    let mut v: Vec<u128> = (0..mgr.len()).map(|i| mgr.conn(i).id()).collect();
    v.sort();
    v
}

#[test]
fn one_shot_timer_fires_once_then_closes() {
    let mut mgr = MgMgr::new();
    let id = mgr.add_timer(true, 100 * MS, 0);
    assert!(tick(&mut mgr, 50 * MS, |_, _| true).is_empty());
    assert!(tick(&mut mgr, 100 * MS, |_, _| true).is_empty());
    let r = tick(&mut mgr, 150 * MS, |_, _| true);
    assert_eq!(
        r,
        vec![
            (id, MgEvent::EvTimer, MgStatus::MgOk),
            (id, MgEvent::EvClose, MgStatus::MgOk)
        ]
    );
    assert_eq!(mgr.len(), 0);
    assert!(tick(&mut mgr, 10 * SEC, |_, _| true).is_empty());
}

#[test]
fn periodic_timer_keeps_its_interval_and_stays() {
    let mut mgr = MgMgr::new();
    let id = mgr.add_timer(false, 1 * SEC, 0);
    let mut fired: Vec<u64> = Vec::new();
    let mut now: u64 = 0;
    while now <= 10 * SEC {
        for (rid, ev, st) in tick(&mut mgr, now, |_, _| true) {
            assert_eq!(rid, id);
            assert_eq!(ev, MgEvent::EvTimer);
            assert_eq!(st, MgStatus::MgOk);
            fired.push(now);
        }
        now += 50 * MS;
    }
    assert_eq!(fired.len(), 9);
    assert_eq!(fired[0], 1050 * MS);
    for w in fired.windows(2) {
        assert!(w[1] - w[0] >= 1 * SEC);
    }
    assert_eq!(mgr.len(), 1);
    mgr.conn_mut(0).close_now();
    assert_eq!(
        tick(&mut mgr, now, |_, _| true),
        vec![(id, MgEvent::EvClose, MgStatus::MgOk)]
    );
    assert_eq!(mgr.len(), 0);
}

#[test]
fn failed_connect_reports_error_then_close() {
    let mut mgr = MgMgr::new();
    let id = mgr.add_tcp_conn("localhost", 1);
    assert_eq!(mgr.conn(0).io(), MgIo::Connect);
    let r = tick(&mut mgr, 0, |_, _| false);
    assert_eq!(
        r,
        vec![
            (id, MgEvent::EvConnect, MgStatus::TCPConnectionError),
            (id, MgEvent::EvClose, MgStatus::MgOk)
        ]
    );
    assert_eq!(mgr.len(), 0);
    assert!(tick(&mut mgr, 1, |_, _| true).is_empty());
}

#[test]
fn whole_send_reports_send_then_waits_for_data() {
    let mut mgr = MgMgr::new();
    let id = mgr.add_tcp_conn("localhost", 1234);
    assert_eq!(
        tick(&mut mgr, 0, |_, _| true),
        vec![(id, MgEvent::EvConnect, MgStatus::MgOk)]
    );
    assert!(mgr.conn(0).is_connected());
    assert_eq!(mgr.conn(0).flag(), MgFlag::MgStart);
    mgr.conn_mut(0).send(5, Some(5));
    assert_eq!(mgr.conn(0).flag(), MgFlag::MgSent);
    assert_eq!(
        tick(&mut mgr, 1, |_, _| false),
        vec![(id, MgEvent::EvSend, MgStatus::MgOk)]
    );
    assert_eq!(mgr.conn(0).flag(), MgFlag::MgWaitForData);
    assert_eq!(mgr.conn(0).io(), MgIo::Peek);
    assert!(tick(&mut mgr, 2, |_, _| false).is_empty());
    assert_eq!(
        tick(&mut mgr, 3, |_, _| true),
        vec![(id, MgEvent::EvRecv, MgStatus::MgOk)]
    );
    assert_eq!(mgr.conn(0).flag(), MgFlag::MgWaitForData);
}

#[test]
fn partial_send_reports_write_error_and_stays() {
    let mut mgr = MgMgr::new();
    let id = mgr.add_tcp_conn("localhost", 1234);
    tick(&mut mgr, 0, |_, _| true);
    mgr.conn_mut(0).send(5, Some(3));
    assert_eq!(mgr.conn(0).flag(), MgFlag::MgWriteError);
    for now in 1..4 {
        assert_eq!(
            tick(&mut mgr, now, |_, _| true),
            vec![(id, MgEvent::EvSend, MgStatus::TCPWriteError)]
        );
    }
    assert_eq!(mgr.len(), 1);
    mgr.conn_mut(0).send(5, None);
    assert_eq!(mgr.conn(0).flag(), MgFlag::MgWriteError);
}

#[test]
fn close_now_while_waiting_for_data() {
    let mut mgr = MgMgr::new();
    let id = mgr.add_tcp_conn("localhost", 1234);
    tick(&mut mgr, 0, |_, _| true);
    mgr.conn_mut(0).send(1, Some(1));
    tick(&mut mgr, 1, |_, _| true);
    assert_eq!(mgr.conn(0).flag(), MgFlag::MgWaitForData);
    mgr.conn_mut(0).close_now();
    mgr.conn_mut(0).send(1, Some(1));
    assert_eq!(mgr.conn(0).flag(), MgFlag::MgCloseNow);
    assert_eq!(mgr.conn(0).io(), MgIo::Idle);
    assert_eq!(
        tick(&mut mgr, 2, |_, _| true),
        vec![(id, MgEvent::EvClose, MgStatus::MgOk)]
    );
    assert_eq!(mgr.len(), 0);
    assert!(tick(&mut mgr, 3, |_, _| true).is_empty());
}

#[test]
fn closing_a_subset_leaves_its_complement() {
    let mut mgr = MgMgr::new();
    let mut all = Vec::new();
    for i in 0..7u64 {
        if i % 2 == 0 {
            all.push(mgr.add_timer(false, 10 * SEC, 0));
        } else {
            all.push(mgr.add_tcp_conn("localhost", 1234));
        }
    }
    let closed = [0usize, 3, 5, 6];
    for &i in closed.iter() {
        mgr.conn_mut(i).close_now();
    }
    let r = tick(&mut mgr, 1, |_, _| true);
    let mut closes: Vec<u128> = r
        .iter()
        .filter(|x| x.1 == MgEvent::EvClose)
        .map(|x| x.0)
        .collect();
    closes.sort();
    let mut want_closed: Vec<u128> = closed.iter().map(|&i| all[i]).collect();
    want_closed.sort();
    assert_eq!(closes, want_closed);
    let mut want: Vec<u128> = (0..7).filter(|i| !closed.contains(i)).map(|i| all[i]).collect();
    want.sort();
    assert_eq!(ids(&mgr), want);
}

#[test]
fn one_shot_five_second_timer_on_fifty_ms_ticks() {
    let mut mgr = MgMgr::new();
    let id = mgr.add_timer(true, 5 * SEC, 0);
    let mut seen: Vec<(u64, MgEvent)> = Vec::new();
    let mut now: u64 = 0;
    while now <= 20 * SEC {
        for (rid, ev, st) in tick(&mut mgr, now, |_, _| true) {
            assert_eq!(rid, id);
            assert_eq!(st, MgStatus::MgOk);
            seen.push((now, ev));
        }
        now += 50 * MS;
    }
    assert_eq!(seen.len(), 2);
    assert_eq!(seen[0].1, MgEvent::EvTimer);
    assert!(seen[0].0 >= 5 * SEC && seen[0].0 <= 5 * SEC + 50 * MS);
    assert_eq!(seen[1], (seen[0].0, MgEvent::EvClose));
}

#[test]
fn removal_ignores_order_repeats_and_out_of_range() {
    let mut mgr = MgMgr::new();
    let a = mgr.add_timer(false, SEC, 0);
    let b = mgr.add_timer(false, SEC, 0);
    let c = mgr.add_timer(false, SEC, 0);
    let d = mgr.add_timer(false, SEC, 0);
    let removed = mgr.remove_expired_tasks(&vec![3, 0, 3, 9]);
    let mut gone: Vec<u128> = removed.iter().map(|c| c.id()).collect();
    gone.sort();
    let mut want = vec![a, d];
    want.sort();
    assert_eq!(gone, want);
    let mut left = vec![b, c];
    left.sort();
    assert_eq!(ids(&mgr), left);
}
