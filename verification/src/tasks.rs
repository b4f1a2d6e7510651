//! Background tasks: how they are started, and the pacing of timed work.
use vstd::prelude::*;
use std::sync::Arc;
use crate::clock::now_timestamp;
use crate::env::BotEnv;

verus! {

/// A task that runs in the background, in the bot's environment.
pub trait RunsTask {
    /// Runs the task.
    fn start(self, env: Arc<BotEnv>);
}

/// Starts background tasks, each with the bot's environment.
pub struct TaskManager {
    env: Arc<BotEnv>,
}

impl TaskManager {
    /// The environment the tasks are started with.
    pub closed spec fn environment(&self) -> Arc<BotEnv> {
        self.env
    }

    /// A manager that starts tasks with `env`.
    pub fn new(env: Arc<BotEnv>) -> (m: TaskManager)
        ensures
            m.environment() == env,
    {
        TaskManager { env }
    }

    /// The environment the tasks are started with.
    pub fn env(&self) -> (e: &Arc<BotEnv>)
        ensures
            *e == self.environment(),
    {
        &self.env
    }
}

/// Where the wait for a timestamp is counted from: the last timestamp waited for, or the
/// time the pacing started when there is none yet.
pub open spec fn anchor(now: i64, last: i64) -> i64 {
    if last == 0 {
        now
    } else {
        last
    }
}

/// Whether waiting for `ts` can be computed without overflow.
pub open spec fn step_fits(now: i64, last: i64, ts: i64) -> bool {
    ts <= now || i64::MIN <= ts - anchor(now, last) <= i64::MAX
}

/// The wait before an item stamped `ts`, and the last timestamp afterwards: nothing for an
/// item that is due already; otherwise the time from the anchor to `ts`.
pub open spec fn wait_step(now: i64, last: i64, ts: i64) -> (i64, i64) {
    if ts <= now {
        (0, last)
    } else {
        ((ts - anchor(now, last)) as i64, ts)
    }
}

/// Paces items stamped with times: each item comes with how long to wait before handling it,
/// so that, waits taken one after another, each item is handled at its time.
pub struct Wait<T> {
    inner: T,
    now: i64,
    last: i64,
}

impl<T> Wait<T> {
    /// The source of the items.
    pub closed spec fn source(&self) -> T {
        self.inner
    }

    /// When the pacing started.
    pub closed spec fn started(&self) -> i64 {
        self.now
    }

    /// The last timestamp waited for, or zero.
    pub closed spec fn last_stamp(&self) -> i64 {
        self.last
    }

    /// Pacing for the items of `inner`, starting now: the start is a clock reading, so it is
    /// not negative, and the pacing laws below hold of it.
    pub fn new(inner: T) -> (w: Wait<T>)
        ensures
            w.source() == inner,
            w.started() >= 0,
            w.last_stamp() == 0,
    {
        let now = now_timestamp();
        Wait { inner, now, last: 0 }
    }

    /// Pacing for the items of `inner`, starting at `now`.
    pub fn starting_at(inner: T, now: i64) -> (w: Wait<T>)
        ensures
            w.source() == inner,
            w.started() == now,
            w.last_stamp() == 0,
    {
        Wait { inner, now, last: 0 }
    }

    /// The source of the items, to take the next one from.
    pub fn inner_mut(&mut self) -> (r: &mut T)
        ensures
            *r == old(self).source(),
            final(self).source() == *final(r),
            final(self).started() == old(self).started(),
            final(self).last_stamp() == old(self).last_stamp(),
    {
        &mut self.inner
    }

    /// Whether the wait before an item stamped `ts` can be computed without overflow.
    pub fn can_schedule(&self, ts: i64) -> (res: bool)
        ensures
            res == step_fits(self.started(), self.last_stamp(), ts),
    {
        if ts <= self.now {
            return true;
        }
        let a = if self.last == 0 { self.now } else { self.last };
        (ts as i128) - (a as i128) <= (i64::MAX as i128) && (ts as i128) - (a as i128) >= (i64::MIN as i128)
    }

    /// How long to wait before the item stamped `item.0`, with the item's payload.
    pub fn schedule<R>(&mut self, item: (i64, R)) -> (res: (i64, R))
        requires
            step_fits(old(self).started(), old(self).last_stamp(), item.0),
        ensures
            res.1 == item.1,
            (res.0, final(self).last_stamp()) == wait_step(
                old(self).started(),
                old(self).last_stamp(),
                item.0,
            ),
            final(self).started() == old(self).started(),
            final(self).source() == old(self).source(),
    {
        if item.0 <= self.now {
            return (0, item.1);
        }
        if self.last == 0 {
            self.last = self.now;
        }
        let wait = item.0 - self.last;
        self.last = self.last + wait;
        (wait, item.1)
    }
}

/// The waits for the stamps `ts`, one after another, and the last timestamp afterwards.
pub open spec fn waits(now: i64, last: i64, ts: Seq<i64>) -> (Seq<i64>, i64)
    decreases ts.len(),
{
    if ts.len() == 0 {
        (Seq::empty(), last)
    } else {
        let (ws, l) = waits(now, last, ts.drop_last());
        let (w, l2) = wait_step(now, l, ts.last());
        (ws.push(w), l2)
    }
}

/// The sum of the waits.
pub open spec fn total(ws: Seq<i64>) -> int
    decreases ws.len(),
{
    if ws.len() == 0 {
        0
    } else {
        total(ws.drop_last()) + ws.last()
    }
}

proof fn lemma_waits_len(now: i64, last: i64, ts: Seq<i64>)
    ensures
        waits(now, last, ts).0.len() == ts.len(),
    decreases ts.len(),
{
    if ts.len() > 0 {
        lemma_waits_len(now, last, ts.drop_last());
    }
}

proof fn lemma_waits_prefix(now: i64, last: i64, ts: Seq<i64>, k: int)
    requires
        0 <= k <= ts.len(),
    ensures
        waits(now, last, ts.take(k)).0 == waits(now, last, ts).0.take(k),
    decreases ts.len(),
{
    lemma_waits_len(now, last, ts);
    if k < ts.len() {
        lemma_waits_prefix(now, last, ts.drop_last(), k);
        assert(ts.drop_last().take(k) == ts.take(k));
        lemma_waits_len(now, last, ts.drop_last());
        assert(waits(now, last, ts).0.take(k) == waits(now, last, ts.drop_last()).0.take(k));
    } else {
        assert(ts.take(k) == ts);
        assert(waits(now, last, ts).0.take(k) == waits(now, last, ts).0);
    }
}

/// Pacing that starts at a time that is not negative, with no timestamp waited for yet, hands
/// out waits that add up to the time from the start to the item's stamp for every item not
/// yet due: waited one after another, the waits bring each such item exactly to its time.
pub proof fn lemma_waits_reach_stamps(now: i64, ts: Seq<i64>)
    requires
        now >= 0,
    ensures
        waits(now, 0, ts).0.len() == ts.len(),
        forall|i: int|
            0 <= i < ts.len() && ts[i] > now ==> now + total(
                #[trigger] waits(now, 0, ts).0.take(i + 1),
            ) == ts[i],
    decreases ts.len(),
{
    lemma_waits_len(now, 0, ts);
    lemma_waits_progress(now, ts);
    if ts.len() > 0 {
        lemma_waits_reach_stamps(now, ts.drop_last());
        let ws = waits(now, 0, ts).0;
        assert forall|i: int| 0 <= i < ts.len() && ts[i] > now implies now + total(
            #[trigger] waits(now, 0, ts).0.take(i + 1),
        ) == ts[i] by {
            if i < ts.len() - 1 {
                lemma_waits_prefix(now, 0, ts, i + 1);
                lemma_waits_prefix(now, 0, ts.drop_last(), i + 1);
                assert(ts.drop_last().take(i + 1) == ts.take(i + 1));
                assert(ts.drop_last()[i] == ts[i]);
            } else {
                assert(ws.take(i + 1) == ws);
                lemma_waits_progress(now, ts.drop_last());
            }
        }
    }
}

/// The last timestamp of a pacing that started with none is zero or one of the stamps.
proof fn lemma_waits_last_is_stamp(now: i64, ts: Seq<i64>)
    ensures
        waits(now, 0, ts).1 != 0 ==> exists|j: int| 0 <= j < ts.len() && #[trigger] ts[j] == waits(now, 0, ts).1,
    decreases ts.len(),
{
    if ts.len() > 0 {
        lemma_waits_last_is_stamp(now, ts.drop_last());
        let l0 = waits(now, 0, ts.drop_last()).1;
        if ts.last() <= now && l0 != 0 {
            let j = choose|j: int| 0 <= j < ts.drop_last().len() && #[trigger] ts.drop_last()[j] == l0;
            assert(ts[j] == l0);
        } else if ts.last() > now {
            assert(ts[ts.len() - 1] == ts.last());
        }
    }
}

/// Pacing items whose stamps do not decrease, from a start that is not negative, never hands
/// out a negative wait.
pub proof fn lemma_waits_nonnegative(now: i64, ts: Seq<i64>)
    requires
        now >= 0,
        forall|i: int, j: int| 0 <= i <= j < ts.len() ==> ts[i] <= ts[j],
    ensures
        waits(now, 0, ts).0.len() == ts.len(),
        forall|i: int| 0 <= i < ts.len() ==> #[trigger] waits(now, 0, ts).0[i] >= 0,
    decreases ts.len(),
{
    lemma_waits_len(now, 0, ts);
    if ts.len() > 0 {
        let rest = ts.drop_last();
        lemma_waits_nonnegative(now, rest);
        lemma_waits_last_is_stamp(now, rest);
        lemma_waits_progress(now, rest);
        let (ws0, l0) = waits(now, 0, rest);
        let t = ts.last();
        let (w, l) = wait_step(now, l0, t);
        assert(waits(now, 0, ts).0 == ws0.push(w));
        if t > now && l0 != 0 {
            let j = choose|j: int| 0 <= j < rest.len() && #[trigger] rest[j] == l0;
            assert(ts[j] == l0);
            assert(ts[j] <= ts[ts.len() - 1]);
            assert(0 <= t - l0 <= i64::MAX);
            assert(w == t - l0);
        } else if t > now {
            assert(0 < t - now <= i64::MAX);
            assert(w == t - now);
        }
        assert(w >= 0);
        assert forall|i: int| 0 <= i < ts.len() implies #[trigger] waits(now, 0, ts).0[i] >= 0 by {
            if i < ts.len() - 1 {
                assert(waits(now, 0, ts).0[i] == ws0[i]);
            }
        }
    }
}

/// How far the pacing has got: the last timestamp is zero while no item was in the future,
/// and otherwise the stamp of the last item that was, with the waits adding up to it.
proof fn lemma_waits_progress(now: i64, ts: Seq<i64>)
    requires
        now >= 0,
    ensures
        ({
            let (ws, l) = waits(now, 0, ts);
            &&& l == 0 ==> total(ws) == 0
            &&& l != 0 ==> l > now && now + total(ws) == l
        }),
    decreases ts.len(),
{
    if ts.len() > 0 {
        lemma_waits_progress(now, ts.drop_last());
        let (ws0, l0) = waits(now, 0, ts.drop_last());
        let t = ts.last();
        let (w, l) = wait_step(now, l0, t);
        let ws = ws0.push(w);
        assert(waits(now, 0, ts) == (ws, l));
        assert(ws.drop_last() == ws0);
        assert(total(ws) == total(ws0) + w);
        if t > now {
            let a = anchor(now, l0);
            assert(a >= 0);
            assert(w == t - a);
        }
    }
}

} // verus!
