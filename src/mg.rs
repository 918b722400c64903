use vstd::prelude::*;
use vstd::seq_lib::*;

use crate::conn::{later, mark, step, ConnState, MgConn, MgNotice};
use crate::ev::{MgConnType, MgFlag};

verus! {

broadcast use vstd::seq_lib::group_to_multiset_ensures;

/// The registry: connections in the order in which the sweep visits them.
pub struct MgMgr {
    conns: Vec<MgConn>,
}

impl View for MgMgr {
    type V = Seq<ConnState>;

    closed spec fn view(&self) -> Seq<ConnState> {
        self.conns@.map_values(|c: MgConn| c@)
    }
}

/// The states of `s` at positions that `ex` does not name, in order.
pub open spec fn kept(s: Seq<ConnState>, ex: Seq<usize>) -> Seq<ConnState>
    decreases s.len(),
{
    if s.len() == 0 {
        Seq::empty()
    } else {
        let rest = kept(s.drop_last(), ex);
        if ex.contains((s.len() - 1) as usize) {
            rest
        } else {
            rest.push(s.last())
        }
    }
}

/// The states of `s` at positions that `ex` names, in order.
pub open spec fn dropped(s: Seq<ConnState>, ex: Seq<usize>) -> Seq<ConnState>
    decreases s.len(),
{
    if s.len() == 0 {
        Seq::empty()
    } else {
        let rest = dropped(s.drop_last(), ex);
        if ex.contains((s.len() - 1) as usize) {
            rest.push(s.last())
        } else {
            rest
        }
    }
}

/// A new timer: due `interval` after `now`.
pub open spec fn timer_state(once: bool, interval: u64, now: u64, id: u128) -> ConnState {
    ConnState {
        host: Seq::empty(),
        port: 0,
        conn_type: MgConnType::Timer,
        fire_time: later(now, interval),
        interval,
        once,
        connected: false,
        flag: MgFlag::MgStart,
        id,
    }
}

/// A new TCP connection to `host:port`, not yet attempted.
pub open spec fn tcp_state(host: Seq<char>, port: u16, id: u128) -> ConnState {
    ConnState {
        host,
        port,
        conn_type: MgConnType::TCP,
        fire_time: 0,
        interval: 0,
        once: false,
        connected: false,
        flag: MgFlag::MgStart,
        id,
    }
}

/// Moving the last element into position `i` and dropping the last keeps
/// every element but the one at `i`.
proof fn lemma_swap_remove_multiset<A>(s: Seq<A>, i: int)
    requires
        0 <= i < s.len(),
    ensures
        s.update(i, s.last()).drop_last().to_multiset() == s.to_multiset().remove(s[i]),
{
    let t = s.update(i, s.last()).drop_last();
    if i == s.len() - 1 {
        assert(t =~= s.remove(i));
    } else {
        assert(t.len() == s.len() - 1);
        let x = s.remove(i).drop_last();
        assert(t.remove(i) =~= x);
        assert(s.remove(i) =~= x.push(s.last()));
        assert(t[i] == s.last());
        assert(t.contains(t[i]));
        assert(t.to_multiset().count(t[i]) > 0);
        assert(t.remove(i).to_multiset() == t.to_multiset().remove(t[i]));
        assert(t.to_multiset() =~= x.to_multiset().insert(s.last()));
        assert(s.remove(i).to_multiset() == s.to_multiset().remove(s[i]));
    }
}

/// A sequence from position `i` is its element at `i` followed by the rest.
proof fn lemma_skip_multiset<A>(s: Seq<A>, i: int)
    requires
        0 <= i < s.len(),
    ensures
        s.skip(i).to_multiset() == s.skip(i + 1).to_multiset().insert(s[i]),
{
    let u = s.skip(i);
    assert(u.remove(0) =~= s.skip(i + 1));
    assert(u.remove(0).to_multiset() == u.to_multiset().remove(u[0]));
}

/// An element of `kept(s, ex)` is an element of `s` at a position that `ex`
/// does not name, and every such element is kept.
pub proof fn lemma_kept_contains(s: Seq<ConnState>, ex: Seq<usize>, x: ConnState)
    ensures
        kept(s, ex).contains(x) <==> exists|i: int|
            0 <= i < s.len() && !ex.contains(i as usize) && s[i] == x,
    decreases s.len(),
{
    if s.len() > 0 {
        let t = s.drop_last();
        let m = s.len() - 1;
        lemma_kept_contains(t, ex, x);
        if kept(s, ex).contains(x) {
            if kept(t, ex).contains(x) {
                let i = choose|i: int| 0 <= i < t.len() && !ex.contains(i as usize) && t[i] == x;
                assert(s[i] == x);
            } else {
                let w = choose|w: int| 0 <= w < kept(s, ex).len() && kept(s, ex)[w] == x;
                assert(kept(s, ex) == kept(t, ex).push(s.last()));
                if w < kept(t, ex).len() {
                    assert(kept(t, ex)[w] == x);
                }
                assert(s[m] == x);
            }
        }
        if exists|i: int| 0 <= i < s.len() && !ex.contains(i as usize) && s[i] == x {
            let i = choose|i: int| 0 <= i < s.len() && !ex.contains(i as usize) && s[i] == x;
            if i == m {
                assert(kept(s, ex) == kept(t, ex).push(s.last()));
                assert(kept(s, ex)[kept(t, ex).len() as int] == x);
            } else {
                assert(t[i] == x);
                let w = choose|w: int| 0 <= w < kept(t, ex).len() && kept(t, ex)[w] == x;
                if !ex.contains(m as usize) {
                    assert(kept(s, ex)[w] == x);
                }
            }
        }
    }
}

/// An element of `dropped(s, ex)` is an element of `s` at a position that
/// `ex` names.
pub proof fn lemma_dropped_contains(s: Seq<ConnState>, ex: Seq<usize>, x: ConnState)
    ensures
        dropped(s, ex).contains(x) ==> exists|i: int|
            0 <= i < s.len() && ex.contains(i as usize) && s[i] == x,
    decreases s.len(),
{
    if s.len() > 0 {
        let t = s.drop_last();
        let m = s.len() - 1;
        lemma_dropped_contains(t, ex, x);
        if dropped(s, ex).contains(x) {
            if dropped(t, ex).contains(x) {
                let i = choose|i: int| 0 <= i < t.len() && ex.contains(i as usize) && t[i] == x;
                assert(s[i] == x);
            } else {
                let w = choose|w: int| 0 <= w < dropped(s, ex).len() && dropped(s, ex)[w] == x;
                assert(dropped(s, ex) == dropped(t, ex).push(s.last()));
                if w < dropped(t, ex).len() {
                    assert(dropped(t, ex)[w] == x);
                }
                assert(s[m] == x);
            }
        }
    }
}

/// No two connections of `s` share an identifier.
pub open spec fn distinct_ids(s: Seq<ConnState>) -> bool {
    forall|a: int, b: int| 0 <= a < s.len() && 0 <= b < s.len() && a != b ==> s[a].id != s[b].id
}

/// With distinct identifiers, the connection at position `i` is handed back
/// exactly once when `ex` names its position and not at all otherwise.
pub proof fn lemma_dropped_count(s: Seq<ConnState>, ex: Seq<usize>, i: int)
    requires
        distinct_ids(s),
        0 <= i < s.len(),
    ensures
        dropped(s, ex).to_multiset().count(s[i]) == (if ex.contains(i as usize) {
            1nat
        } else {
            0nat
        }),
    decreases s.len(),
{
    let t = s.drop_last();
    let m = s.len() - 1;
    if i == m {
        lemma_dropped_contains(t, ex, s[i]);
        assert(!dropped(t, ex).contains(s[i]));
    } else {
        lemma_dropped_count(t, ex, i);
        assert(s[m] != s[i]);
        assert(t[i] == s[i]);
    }
}

/// Some connection of `s` carries `id`.
pub open spec fn has_id(s: Seq<ConnState>, id: u128) -> bool {
    exists|j: int| 0 <= j < s.len() && s[j].id == id
}

/// Some connection of `s` at a position that `ex` does not name carries `id`.
pub open spec fn has_unnamed_id(s: Seq<ConnState>, ex: Seq<usize>, id: u128) -> bool {
    exists|i: int| 0 <= i < s.len() && !ex.contains(i as usize) && s[i].id == id
}

/// Whatever order compaction leaves them in, the identifiers that survive a
/// removal are exactly those of the connections whose positions were not
/// named.
pub proof fn lemma_survivors(before: Seq<ConnState>, ex: Seq<usize>, after: Seq<ConnState>)
    requires
        after.to_multiset() == kept(before, ex).to_multiset(),
    ensures
        forall|id: u128| #[trigger] has_id(after, id) <==> has_unnamed_id(before, ex, id),
{
    assert forall|id: u128| #[trigger] has_id(after, id) <==> has_unnamed_id(before, ex, id) by {
        if has_id(after, id) {
            let j = choose|j: int| 0 <= j < after.len() && after[j].id == id;
            let x = after[j];
            assert(after.contains(x));
            assert(kept(before, ex).to_multiset().count(x) > 0);
            lemma_kept_contains(before, ex, x);
            let i = choose|i: int| 0 <= i < before.len() && !ex.contains(i as usize) && before[i] == x;
            assert(before[i].id == id);
        }
        if has_unnamed_id(before, ex, id) {
            let i = choose|i: int| 0 <= i < before.len() && !ex.contains(i as usize) && before[i].id == id;
            let x = before[i];
            lemma_kept_contains(before, ex, x);
            assert(after.to_multiset().count(x) > 0);
            let j = choose|j: int| 0 <= j < after.len() && after[j] == x;
            assert(after[j].id == id);
        }
    }
}

/// With distinct identifiers, a connection whose position is named is handed
/// back exactly once, for its close, and none that survives carries its
/// identifier; one whose position is not named is not handed back.
pub proof fn lemma_expired_leaves(
    before: Seq<ConnState>,
    ex: Seq<usize>,
    after: Seq<ConnState>,
    removed: Seq<ConnState>,
    i: int,
)
    requires
        distinct_ids(before),
        0 <= i < before.len(),
        after.to_multiset() == kept(before, ex).to_multiset(),
        removed.to_multiset() == dropped(before, ex).to_multiset(),
    ensures
        removed.to_multiset().count(before[i]) == (if ex.contains(i as usize) {
            1nat
        } else {
            0nat
        }),
        ex.contains(i as usize) ==> forall|j: int|
            0 <= j < after.len() ==> #[trigger] after[j].id != before[i].id,
{
    lemma_dropped_count(before, ex, i);
    lemma_survivors(before, ex, after);
    if ex.contains(i as usize) {
        assert forall|j: int| 0 <= j < after.len() implies #[trigger] after[j].id != before[i].id by {
            if after[j].id == before[i].id {
                let id = before[i].id;
                assert(has_id(after, id));
                let k = choose|k: int| 0 <= k < before.len() && !ex.contains(k as usize) && before[k].id == id;
                assert(k != i);
            }
        }
    }
}

impl MgMgr {
    /// An empty registry.
    pub fn new() -> (r: MgMgr)
        ensures
            r@ == Seq::<ConnState>::empty(),
    {
        let r = MgMgr { conns: Vec::new() };
        assert(r@ =~= Seq::<ConnState>::empty());
        r
    }

    pub fn len(&self) -> (r: usize)
        ensures
            r == self@.len(),
    {
        self.conns.len()
    }

    /// The connection at position `index`.
    pub fn conn(&self, index: usize) -> (r: &MgConn)
        requires
            index < self@.len(),
        ensures
            r@ == self@[index as int],
    {
        &self.conns[index]
    }

    /// The connection at position `index`, for the owner to change in place.
    pub fn conn_mut(&mut self, index: usize) -> (r: &mut MgConn)
        requires
            index < old(self)@.len(),
        ensures
            r@ == old(self)@[index as int],
            final(self)@ == old(self)@.update(index as int, final(r)@),
    {
        &mut self.conns[index]
    }

    /// Registers a timer that first falls due `interval` after `now`; nothing
    /// fires now. Returns its identifier.
    pub fn add_timer(&mut self, once: bool, interval: u64, now: u64) -> (id: u128)
        ensures
            final(self)@ == old(self)@.push(timer_state(once, interval, now, id)),
    {
        let conn = MgConn::new("", 0, MgConnType::Timer, once, now.saturating_add(interval), interval);
        let id = conn.id();
        proof {
            reveal_strlit("");
            assert(""@ =~= Seq::<char>::empty());
        }
        self.conns.push(conn);
        assert(self@ =~= old(self)@.push(timer_state(once, interval, now, id)));
        id
    }

    /// Registers a TCP connection to `host:port`; the attempt is made on the
    /// first tick. Returns its identifier.
    pub fn add_tcp_conn(&mut self, host: &str, port: u16) -> (id: u128)
        ensures
            final(self)@ == old(self)@.push(tcp_state(host@, port, id)),
    {
        let conn = MgConn::new(host, port, MgConnType::TCP, false, 0, 0);
        let id = conn.id();
        self.conns.push(conn);
        assert(self@ =~= old(self)@.push(tcp_state(host@, port, id)));
        id
    }

    /// The sweep's handling of the connection at `index` at instant `now`,
    /// given the outcome of the outside work that it asked for.
    pub fn handle_conn(&mut self, index: usize, now: u64, io_ok: bool, expired: &mut Vec<usize>) -> (r:
        Option<MgNotice>)
        requires
            index < old(self)@.len(),
        ensures
            final(self)@ == old(self)@.update(
                index as int,
                step(old(self)@[index as int], now, io_ok).0,
            ),
            r == step(old(self)@[index as int], now, io_ok).1,
            final(expired)@ == mark(
                old(expired)@,
                index,
                step(old(self)@[index as int], now, io_ok).2,
            ),
    {
        let r = self.conns[index].handle(index, now, io_ok, expired);
        assert(self@ =~= old(self)@.update(index as int, step(old(self)@[index as int], now, io_ok).0));
        r
    }

    /// Removes every connection whose position `expired` names, each by
    /// moving the last one into its place; returns the removed ones, whose
    /// close the owner reports. Positions out of range are ignored.
    pub fn remove_expired_tasks(&mut self, expired: &Vec<usize>) -> (removed: Vec<MgConn>)
        ensures
            final(self)@.to_multiset() == kept(old(self)@, expired@).to_multiset(),
            removed@.map_values(|c: MgConn| c@).to_multiset() == dropped(
                old(self)@,
                expired@,
            ).to_multiset(),
    {
        let n = self.conns.len();
        let mut marks: Vec<bool> = Vec::new();
        let mut i: usize = 0;
        while i < n
            invariant
                i <= n,
                marks@.len() == i,
                forall|j: int| 0 <= j < i ==> !marks@[j],
            decreases n - i,
        {
            marks.push(false);
            i += 1;
        }
        let mut k: usize = 0;
        while k < expired.len()
            invariant
                k <= expired@.len(),
                marks@.len() == n,
                forall|j: int|
                    0 <= j < n ==> (#[trigger] marks@[j] <==> expired@.subrange(0, k as int).contains(
                        j as usize,
                    )),
            decreases expired@.len() - k,
        {
            let e = expired[k];
            let ghost prev = marks@;
            if e < n {
                marks.set(e, true);
            }
            assert forall|j: int| 0 <= j < n implies (#[trigger] marks@[j]
                <==> expired@.subrange(0, k + 1).contains(j as usize)) by {
                let p = expired@.subrange(0, k as int);
                assert(expired@.subrange(0, k + 1) =~= p.push(e));
                assert(prev[j] <==> p.contains(j as usize));
                if j as usize == e {
                    assert(p.push(e)[k as int] == e);
                }
                if p.contains(j as usize) {
                    let w = choose|w: int| 0 <= w < p.len() && p[w] == j as usize;
                    assert(p.push(e)[w] == j as usize);
                }
                if expired@.subrange(0, k + 1).contains(j as usize) && j as usize != e {
                    let q = expired@.subrange(0, k + 1);
                    let w = choose|w: int| 0 <= w < q.len() && q[w] == j as usize;
                    assert(p[w] == j as usize);
                }
            }
            k += 1;
        }
        assert(expired@.subrange(0, expired@.len() as int) =~= expired@);
        let ghost ex = expired@;
        let ghost v0 = old(self)@;
        let mut removed: Vec<MgConn> = Vec::new();
        let mut idx: usize = n;
        assert(v0.take(n as int) =~= v0);
        assert(self@.skip(n as int) =~= Seq::<ConnState>::empty());
        assert(removed@.map_values(|c: MgConn| c@) =~= Seq::<ConnState>::empty());
        while idx > 0
            invariant
                idx <= n,
                n == v0.len(),
                marks@.len() == n,
                forall|j: int| 0 <= j < n ==> (#[trigger] marks@[j] <==> ex.contains(j as usize)),
                idx <= self@.len(),
                forall|j: int| 0 <= j < idx ==> #[trigger] self@[j] == v0[j],
                kept(v0, ex).to_multiset() == kept(v0.take(idx as int), ex).to_multiset().add(
                    self@.skip(idx as int).to_multiset(),
                ),
                dropped(v0, ex).to_multiset() == dropped(v0.take(idx as int), ex).to_multiset().add(
                    removed@.map_values(|c: MgConn| c@).to_multiset(),
                ),
            decreases idx,
        {
            idx -= 1;
            let ghost cur = self@;
            let ghost rv = removed@.map_values(|c: MgConn| c@);
            proof {
                assert(v0.take(idx + 1).drop_last() =~= v0.take(idx as int));
                assert(v0.take(idx + 1).last() == v0[idx as int]);
                lemma_skip_multiset(cur, idx as int);
            }
            if marks[idx] {
                let c = self.conns.swap_remove(idx);
                removed.push(c);
                proof {
                    let u = cur.skip(idx as int);
                    assert(self@ =~= cur.update(idx as int, cur.last()).drop_last());
                    assert(self@.skip(idx as int) =~= u.update(0, u.last()).drop_last());
                    lemma_swap_remove_multiset(u, 0);
                    assert(removed@.map_values(|c: MgConn| c@) =~= rv.push(v0[idx as int]));
                    assert(self@.skip(idx as int).to_multiset() =~= cur.skip(idx + 1).to_multiset());
                    assert(dropped(v0.take(idx + 1), ex) == dropped(v0.take(idx as int), ex).push(
                        v0[idx as int],
                    ));
                    assert(kept(v0.take(idx + 1), ex) == kept(v0.take(idx as int), ex));
                    assert(dropped(v0, ex).to_multiset() =~= dropped(
                        v0.take(idx as int),
                        ex,
                    ).to_multiset().add(removed@.map_values(|c: MgConn| c@).to_multiset()));
                }
            } else {
                proof {
                    assert(kept(v0.take(idx + 1), ex) == kept(v0.take(idx as int), ex).push(
                        v0[idx as int],
                    ));
                    assert(dropped(v0.take(idx + 1), ex) == dropped(v0.take(idx as int), ex));
                    assert(kept(v0, ex).to_multiset() =~= kept(
                        v0.take(idx as int),
                        ex,
                    ).to_multiset().add(self@.skip(idx as int).to_multiset()));
                }
            }
        }
        proof {
            assert(v0.take(0) =~= Seq::<ConnState>::empty());
            assert(self@.skip(0) =~= self@);
            assert(kept(v0.take(0), ex) =~= Seq::<ConnState>::empty());
            assert(dropped(v0.take(0), ex) =~= Seq::<ConnState>::empty());
            assert(kept(v0, ex).to_multiset() =~= self@.to_multiset());
            assert(dropped(v0, ex).to_multiset() =~= removed@.map_values(|c: MgConn| c@).to_multiset());
        }
        removed
    }
}

impl Default for MgMgr {
    fn default() -> (r: MgMgr)
        ensures
            r@ == Seq::<ConnState>::empty(),
    {
        MgMgr::new()
    }
}

} // verus!
