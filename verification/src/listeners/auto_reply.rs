//! Automatic replies: messages the bot sends when a member joins or writes in a channel,
//! at most once per delay for each member and reply.
use vstd::prelude::*;
use crate::clock::now_timestamp;
use crate::text::{replace_all, replace_text};

verus! {

/// An automatic reply, as configured for a server.
pub struct AutoReply {
    pub id: i32,
    /// The channel the reply is sent to.
    pub channel_id: u64,
    /// The reply's text; `{mention}` in it stands for the member's mention.
    pub message: String,
    /// The seconds that must pass before the same member gets the reply again.
    pub delay: i32,
}

/// What a reply's filters say about the member.
pub enum FilterVerdict {
    /// The reply has no filters.
    Unfiltered,
    /// The reply's filters could not be read; the reply is treated as unfiltered.
    Invalid,
    /// Every filter matches the member.
    Matched,
    /// Some filter does not match the member.
    Rejected,
}

/// A message to send.
pub struct Outgoing {
    pub channel_id: u64,
    pub description: String,
}

/// A message to send, as values.
pub struct OutgoingValue {
    pub channel_id: u64,
    pub description: Seq<char>,
}

impl View for Outgoing {
    type V = OutgoingValue;

    open spec fn view(&self) -> OutgoingValue {
        OutgoingValue { channel_id: self.channel_id, description: self.description@ }
    }
}

/// The message a reply sends to the member with the given mention.
pub open spec fn reply_text(message: Seq<char>, mention: Seq<char>) -> Seq<char> {
    replace_all(message, "{mention}"@, mention)
}

/// One remembered send: when `user_id` last got reply `reply_id`.
pub struct SendEntry {
    pub user_id: u64,
    pub reply_id: i32,
    pub last: i64,
}

/// The key of a member and a reply.
pub type SendKey = (u64, i32);

/// The key of an entry.
pub open spec fn key_of(e: SendEntry) -> SendKey {
    (e.user_id, e.reply_id)
}

/// No key occurs twice.
pub open spec fn unique_keys(e: Seq<SendEntry>) -> bool {
    forall|i: int, j: int| 0 <= i < j < e.len() ==> key_of(e[i]) != key_of(e[j])
}

/// The times the entries remember, by key.
pub open spec fn entries_map(e: Seq<SendEntry>) -> Map<SendKey, i64> {
    Map::new(
        |k: SendKey| exists|i: int| 0 <= i < e.len() && key_of(#[trigger] e[i]) == k,
        |k: SendKey| e[choose|i: int| 0 <= i < e.len() && key_of(#[trigger] e[i]) == k].last,
    )
}

proof fn lemma_entries_map_at(e: Seq<SendEntry>, i: int)
    requires
        unique_keys(e),
        0 <= i < e.len(),
    ensures
        entries_map(e).contains_key(key_of(e[i])),
        entries_map(e)[key_of(e[i])] == e[i].last,
{
    let k = key_of(e[i]);
    let c = choose|c: int| 0 <= c < e.len() && key_of(#[trigger] e[c]) == k;
    if c != i {
        if c < i {
            assert(key_of(e[c]) != key_of(e[i]));
        } else {
            assert(key_of(e[i]) != key_of(e[c]));
        }
    }
}

proof fn lemma_entries_map_update(e: Seq<SendEntry>, i: int, t: i64)
    requires
        unique_keys(e),
        0 <= i < e.len(),
    ensures
        unique_keys(e.update(i, SendEntry { last: t, ..e[i] })),
        entries_map(e.update(i, SendEntry { last: t, ..e[i] })) == entries_map(e).insert(key_of(e[i]), t),
{
    let f = e.update(i, SendEntry { last: t, ..e[i] });
    assert forall|a: int, b: int| 0 <= a < b < f.len() implies key_of(f[a]) != key_of(f[b]) by {
        assert(key_of(f[a]) == key_of(e[a]));
        assert(key_of(f[b]) == key_of(e[b]));
    }
    let m = entries_map(e).insert(key_of(e[i]), t);
    assert forall|k: SendKey| #![auto] entries_map(f).contains_key(k) == m.contains_key(k) by {
        if entries_map(f).contains_key(k) {
            let c = choose|c: int| 0 <= c < f.len() && key_of(#[trigger] f[c]) == k;
            assert(key_of(e[c]) == k);
        }
        if entries_map(e).contains_key(k) {
            let c = choose|c: int| 0 <= c < e.len() && key_of(#[trigger] e[c]) == k;
            assert(key_of(f[c]) == k);
        }
        if k == key_of(e[i]) {
            assert(key_of(f[i]) == k);
        }
    }
    assert forall|k: SendKey| #[trigger] entries_map(f).contains_key(k) implies entries_map(f)[k] == m[k] by {
        let c = choose|c: int| 0 <= c < f.len() && key_of(#[trigger] f[c]) == k;
        lemma_entries_map_at(f, c);
        if c == i {
        } else {
            assert(f[c] == e[c]);
            lemma_entries_map_at(e, c);
        }
    }
    assert(entries_map(f) =~= m);
}

proof fn lemma_entries_map_push(e: Seq<SendEntry>, n: SendEntry)
    requires
        unique_keys(e),
        !entries_map(e).contains_key(key_of(n)),
    ensures
        unique_keys(e.push(n)),
        entries_map(e.push(n)) == entries_map(e).insert(key_of(n), n.last),
{
    let f = e.push(n);
    assert forall|a: int, b: int| 0 <= a < b < f.len() implies key_of(f[a]) != key_of(f[b]) by {
        if b == e.len() {
            assert(f[a] == e[a]);
        }
    }
    let m = entries_map(e).insert(key_of(n), n.last);
    assert forall|k: SendKey| #![auto] entries_map(f).contains_key(k) == m.contains_key(k) by {
        if entries_map(f).contains_key(k) {
            let c = choose|c: int| 0 <= c < f.len() && key_of(#[trigger] f[c]) == k;
            if c < e.len() {
                assert(f[c] == e[c]);
            }
        }
        if entries_map(e).contains_key(k) {
            let c = choose|c: int| 0 <= c < e.len() && key_of(#[trigger] e[c]) == k;
            assert(f[c] == e[c]);
        }
        if k == key_of(n) {
            assert(f[e.len() as int] == n);
        }
    }
    assert forall|k: SendKey| #[trigger] entries_map(f).contains_key(k) implies entries_map(f)[k] == m[k] by {
        let c = choose|c: int| 0 <= c < f.len() && key_of(#[trigger] f[c]) == k;
        lemma_entries_map_at(f, c);
        if c < e.len() {
            assert(f[c] == e[c]);
            lemma_entries_map_at(e, c);
        }
    }
    assert(entries_map(f) =~= m);
}

/// When each member last got each reply.
pub struct SendLog {
    entries: Vec<SendEntry>,
}

/// The last send time of `key` in `m`, zero where there is none.
pub open spec fn last_send(m: Map<SendKey, i64>, key: SendKey) -> i64 {
    if m.contains_key(key) {
        m[key]
    } else {
        0
    }
}

/// Whether a reply with `delay` is due for `key` at time `now`: its last send plus the delay
/// lies before `now`.
pub open spec fn due(m: Map<SendKey, i64>, key: SendKey, delay: i32, now: i64) -> bool {
    last_send(m, key) + delay < now
}

/// The log after a reply was considered for `key`, whether or not it was sent: an entry with
/// time zero is made for a key that had none.
pub open spec fn touched(m: Map<SendKey, i64>, key: SendKey) -> Map<SendKey, i64> {
    if m.contains_key(key) {
        m
    } else {
        m.insert(key, 0)
    }
}

impl SendLog {
    /// No member and reply are remembered twice.
    #[verifier::type_invariant]
    spec fn well_formed(self) -> bool {
        unique_keys(self.entries@)
    }

    /// The remembered sends.
    pub closed spec fn sends(&self) -> Map<SendKey, i64> {
        entries_map(self.entries@)
    }

    /// An empty log.
    pub fn new() -> (l: SendLog)
        ensures
            l.sends() == Map::<SendKey, i64>::empty(),
    {
        let l = SendLog { entries: Vec::new() };
        assert(l.sends() =~= Map::<SendKey, i64>::empty());
        l
    }

    fn find(&self, key: SendKey) -> (res: Option<usize>)
        ensures
            match res {
                Some(i) => i < self.entries@.len() && key_of(self.entries@[i as int]) == key,
                None => !self.sends().contains_key(key),
            },
    {
        let mut i: usize = 0;
        while i < self.entries.len()
            invariant
                i <= self.entries@.len(),
                forall|j: int| 0 <= j < i ==> key_of(#[trigger] self.entries@[j]) != key,
            decreases self.entries@.len() - i,
        {
            if self.entries[i].user_id == key.0 && self.entries[i].reply_id == key.1 {
                return Some(i);
            }
            i = i + 1;
        }
        None
    }

    /// The last send time of `key`, where there is one.
    pub fn get(&self, key: SendKey) -> (res: Option<i64>)
        ensures
            match res {
                Some(t) => self.sends().contains_key(key) && self.sends()[key] == t,
                None => !self.sends().contains_key(key),
            },
    {
        proof {
            use_type_invariant(self);
        }
        match self.find(key) {
            Some(i) => {
                proof {
                    lemma_entries_map_at(self.entries@, i as int);
                }
                Some(self.entries[i].last)
            },
            None => None,
        }
    }

    /// Remembers that `key` was last sent at `t`.
    pub fn set(&mut self, key: SendKey, t: i64)
        ensures
            final(self).sends() == old(self).sends().insert(key, t),
    {
        proof {
            use_type_invariant(&*self);
        }
        let ghost old_entries = self.entries@;
        let found = self.find(key);
        let mut entries = Vec::new();
        std::mem::swap(&mut entries, &mut self.entries);
        assert(entries@ == old_entries);
        match found {
            Some(i) => {
                let e = SendEntry { user_id: key.0, reply_id: key.1, last: t };
                proof {
                    lemma_entries_map_update(old_entries, i as int, t);
                    assert(e == SendEntry { last: t, ..old_entries[i as int] });
                }
                entries.set(i, e);
            },
            None => {
                let e = SendEntry { user_id: key.0, reply_id: key.1, last: t };
                proof {
                    lemma_entries_map_push(old_entries, e);
                }
                entries.push(e);
            },
        }
        self.entries = entries;
    }
}

/// The log after a reply with `delay` was considered for `key` at time `now_check` and, if due,
/// sent at `now_sent`; and whether it was sent.
pub open spec fn consider(
    m: Map<SendKey, i64>,
    key: SendKey,
    delay: i32,
    now_check: i64,
    now_sent: i64,
) -> (Map<SendKey, i64>, bool) {
    if due(m, key, delay, now_check) {
        (m.insert(key, now_sent), true)
    } else {
        (touched(m, key), false)
    }
}

/// After a reply was sent to a member at `t`, it is not sent to them again at any time up to
/// `t` plus its delay.
pub proof fn lemma_no_resend_within_delay(
    m: Map<SendKey, i64>,
    key: SendKey,
    delay: i32,
    now_check: i64,
    t: i64,
    later: i64,
    later_sent: i64,
)
    requires
        consider(m, key, delay, now_check, t).1,
        later <= t + delay,
    ensures
        !consider(consider(m, key, delay, now_check, t).0, key, delay, later, later_sent).1,
{
    let m2 = consider(m, key, delay, now_check, t).0;
    assert(m2.contains_key(key) && m2[key] == t);
}

/// `out` are the messages of the replies at the increasing indices `idx`, none of them
/// rejected by its filters.
pub open spec fn sent_as(
    idx: Seq<int>,
    out: Seq<Outgoing>,
    replies: Seq<AutoReply>,
    verdicts: Seq<FilterVerdict>,
    mention: Seq<char>,
) -> bool {
    &&& idx.len() == out.len()
    &&& forall|a: int, b: int| 0 <= a < b < idx.len() ==> idx[a] < idx[b]
    &&& forall|k: int| 0 <= k < idx.len() ==> 0 <= #[trigger] idx[k] < replies.len()
    &&& forall|k: int| 0 <= k < idx.len() ==> !(verdicts[#[trigger] idx[k]] is Rejected)
    &&& forall|k: int|
        0 <= k < idx.len() ==> (#[trigger] out[k])@ == (OutgoingValue {
            channel_id: replies[idx[k]].channel_id,
            description: reply_text(replies[idx[k]].message@, mention),
        })
}

/// One reply considered for member `user` with the clock read as `c` for the check and `s`
/// for the send: the log afterwards and the message sent, if any. A reply whose filters reject
/// the member leaves the log as it was.
pub open spec fn reply_step(
    m: Map<SendKey, i64>,
    r: AutoReply,
    v: FilterVerdict,
    user: u64,
    mention: Seq<char>,
    c: i64,
    s: i64,
) -> (Map<SendKey, i64>, Option<OutgoingValue>) {
    if v is Rejected {
        (m, None)
    } else {
        let (m2, sent) = consider(m, (user, r.id), r.delay, c, s);
        (
            m2,
            if sent {
                Some(
                    OutgoingValue {
                        channel_id: r.channel_id,
                        description: reply_text(r.message@, mention),
                    },
                )
            } else {
                None
            },
        )
    }
}

/// The rate limit as `receive` applies it: once a reply was sent to a member with the clock
/// read as `s`, considering it again for them with the clock read at most its delay later
/// sends nothing and leaves the log as it is, whatever its filters say.
pub proof fn lemma_reply_not_resent(
    m: Map<SendKey, i64>,
    r: AutoReply,
    v: FilterVerdict,
    v2: FilterVerdict,
    user: u64,
    mention: Seq<char>,
    c: i64,
    s: i64,
    c2: i64,
    s2: i64,
)
    requires
        reply_step(m, r, v, user, mention, c, s).1 is Some,
        c2 <= s + r.delay,
    ensures
        reply_step(reply_step(m, r, v, user, mention, c, s).0, r, v2, user, mention, c2, s2) == (
            reply_step(m, r, v, user, mention, c, s).0,
            None::<OutgoingValue>,
        ),
{
    let m2 = reply_step(m, r, v, user, mention, c, s).0;
    assert(m2.contains_key((user, r.id)) && m2[(user, r.id)] == s);
}

/// The other half of the rate limit: once a reply was sent to a member with the clock read
/// as `c` (and so remembered at `c`), considering it again with the clock past `c` plus its
/// delay sends it again, unless its filters reject the member, and remembers the new reading.
pub proof fn lemma_reply_resent_after_delay(
    m: Map<SendKey, i64>,
    r: AutoReply,
    v: FilterVerdict,
    v2: FilterVerdict,
    user: u64,
    mention: Seq<char>,
    c: i64,
    c2: i64,
)
    requires
        reply_step(m, r, v, user, mention, c, c).1 is Some,
        !(v2 is Rejected),
        c + r.delay < c2,
    ensures
        reply_step(reply_step(m, r, v, user, mention, c, c).0, r, v2, user, mention, c2, c2).1 is Some,
        reply_step(reply_step(m, r, v, user, mention, c, c).0, r, v2, user, mention, c2, c2).0[(user, r.id)] == c2,
{
    let m2 = reply_step(m, r, v, user, mention, c, c).0;
    assert(m2.contains_key((user, r.id)) && m2[(user, r.id)] == c);
}

/// The first `n` replies considered in order, the `i`-th with the clock read as `checks[i]`
/// and `sents[i]`: the log afterwards and the messages sent, in order.
pub open spec fn replies_fold(
    m: Map<SendKey, i64>,
    replies: Seq<AutoReply>,
    verdicts: Seq<FilterVerdict>,
    user: u64,
    mention: Seq<char>,
    checks: Seq<i64>,
    sents: Seq<i64>,
    n: int,
) -> (Map<SendKey, i64>, Seq<OutgoingValue>)
    decreases n,
{
    if n <= 0 {
        (m, Seq::empty())
    } else {
        let (m1, out) = replies_fold(m, replies, verdicts, user, mention, checks, sents, n - 1);
        let (m2, o) = reply_step(
            m1,
            replies[n - 1],
            verdicts[n - 1],
            user,
            mention,
            checks[n - 1],
            sents[n - 1],
        );
        (
            m2,
            match o {
                Some(x) => out.push(x),
                None => out,
            },
        )
    }
}

proof fn lemma_replies_fold_prefix(
    m: Map<SendKey, i64>,
    replies: Seq<AutoReply>,
    verdicts: Seq<FilterVerdict>,
    user: u64,
    mention: Seq<char>,
    checks: Seq<i64>,
    sents: Seq<i64>,
    c: i64,
    s: i64,
    n: int,
)
    requires
        n <= checks.len(),
        n <= sents.len(),
    ensures
        replies_fold(m, replies, verdicts, user, mention, checks.push(c), sents.push(s), n)
            == replies_fold(m, replies, verdicts, user, mention, checks, sents, n),
    decreases n,
{
    if n > 0 {
        lemma_replies_fold_prefix(m, replies, verdicts, user, mention, checks, sents, c, s, n - 1);
        assert(checks.push(c)[n - 1] == checks[n - 1]);
        assert(sents.push(s)[n - 1] == sents[n - 1]);
    }
}

/// The messages as values.
pub open spec fn outgoing_values(v: Seq<Outgoing>) -> Seq<OutgoingValue> {
    v.map_values(|o: Outgoing| o@)
}

/// Whether `t` can be a reading of the clock: one is never negative.
pub open spec fn clock_reading(t: i64) -> bool {
    t >= 0
}

/// Replies to a member by the rules of the auto-reply listener.
pub struct AutoReplyListener {
    pub last_sends: SendLog,
}

impl AutoReplyListener {
    /// A listener that has sent nothing yet.
    pub fn new() -> (l: AutoReplyListener)
        ensures
            l.last_sends.sends() == Map::<SendKey, i64>::empty(),
    {
        AutoReplyListener { last_sends: SendLog::new() }
    }

    /// Considers each reply in turn for member `user_id`, whose mention is `mention`, with the
    /// time read from the clock once per reply, and gives the messages to send, in order. A
    /// reply that is sent is remembered at the reading it was found due at. `verdicts[i]` is
    /// what the filters of `replies[i]` say about the member.
    pub fn receive(
        &mut self,
        replies: &Vec<AutoReply>,
        verdicts: &Vec<FilterVerdict>,
        user_id: u64,
        mention: &str,
    ) -> (res: Vec<Outgoing>)
        requires
            replies@.len() == verdicts@.len(),
        ensures
            exists|checks: Seq<i64>|
                checks.len() == replies@.len() && (forall|j: int| 0 <= j < checks.len() ==> #[trigger] checks[j] >= 0)
                    && #[trigger] replies_fold(
                    old(self).last_sends.sends(),
                    replies@,
                    verdicts@,
                    user_id,
                    mention@,
                    checks,
                    checks,
                    replies@.len() as int,
                ) == (final(self).last_sends.sends(), outgoing_values(res@)),
            exists|idx: Seq<int>|
                sent_as(idx, res@, replies@, verdicts@, mention@),
            replies@.len() == 1 && !(verdicts@[0] is Rejected) ==> exists|c: i64| {
                let key = (user_id, replies@[0].id);
                let last = if old(self).last_sends.sends().contains_key(key) {
                    old(self).last_sends.sends()[key]
                } else {
                    0
                };
                &&& #[trigger] clock_reading(c)
                &&& res@.len() <= 1
                &&& (res@.len() == 1) == (last + replies@[0].delay < c)
                &&& final(self).last_sends.sends().contains_key(key)
                &&& final(self).last_sends.sends()[key] == (if res@.len() == 1 {
                    c
                } else {
                    last
                })
            },
            forall|i: int|
                0 <= i < replies@.len() && !(verdicts@[i] is Rejected) ==> final(self).last_sends.sends().contains_key(
                    (user_id, #[trigger] replies@[i].id),
                ),
            forall|k: SendKey|
                k.0 != user_id ==> (#[trigger] final(self).last_sends.sends().contains_key(k)
                    == old(self).last_sends.sends().contains_key(k) && (old(
                    self,
                ).last_sends.sends().contains_key(k) ==> final(self).last_sends.sends()[k] == old(
                    self,
                ).last_sends.sends()[k])),
    {
        let mut res: Vec<Outgoing> = Vec::new();
        let ghost mut idx: Seq<int> = Seq::empty();
        let ghost mut checks: Seq<i64> = Seq::empty();
        let ghost mut sents: Seq<i64> = Seq::empty();
        let mut i: usize = 0;
        while i < replies.len()
            invariant
                i <= replies@.len(),
                checks.len() == i,
                sents == checks,
                forall|j: int| 0 <= j < checks.len() ==> #[trigger] checks[j] >= 0,
                replies_fold(
                    old(self).last_sends.sends(),
                    replies@,
                    verdicts@,
                    user_id,
                    mention@,
                    checks,
                    sents,
                    i as int,
                ) == (self.last_sends.sends(), outgoing_values(res@)),
                replies@.len() == verdicts@.len(),
                sent_as(idx, res@, replies@, verdicts@, mention@),
                forall|k: int| 0 <= k < idx.len() ==> idx[k] < i,
                forall|j: int|
                    0 <= j < i && !(verdicts@[j] is Rejected) ==> self.last_sends.sends().contains_key(
                        (user_id, #[trigger] replies@[j].id),
                    ),
                forall|k: SendKey|
                    k.0 != user_id ==> (#[trigger] self.last_sends.sends().contains_key(k)
                        == old(self).last_sends.sends().contains_key(k) && (old(
                        self,
                    ).last_sends.sends().contains_key(k) ==> self.last_sends.sends()[k] == old(
                        self,
                    ).last_sends.sends()[k])),
            decreases replies@.len() - i,
        {
            // One reading serves the check and the record: the message goes out only after
            // `receive` returns, so no later reading inside it would be the time of the send.
            let now_check = now_timestamp();
            let now_sent = now_check;
            let ghost prev = self.last_sends.sends();
            let ghost prev_out = outgoing_values(res@);
            let out = self.consider_reply(&replies[i], &verdicts[i], user_id, mention, now_check, now_sent);
            proof {
                lemma_replies_fold_prefix(
                    old(self).last_sends.sends(),
                    replies@,
                    verdicts@,
                    user_id,
                    mention@,
                    checks,
                    sents,
                    now_check,
                    now_sent,
                    i as int,
                );
                checks = checks.push(now_check);
                sents = sents.push(now_sent);
                let step = reply_step(
                    prev,
                    replies@[i as int],
                    verdicts@[i as int],
                    user_id,
                    mention@,
                    now_check,
                    now_sent,
                );
                assert(step.0 == self.last_sends.sends());
                assert(step.1 == match out {
                    Some(o) => Some(o@),
                    None => None::<OutgoingValue>,
                });
                let key = (user_id, replies@[i as int].id);
                assert forall|j: int|
                    0 <= j < i + 1 && !(verdicts@[j] is Rejected) implies self.last_sends.sends().contains_key(
                        (user_id, #[trigger] replies@[j].id),
                    ) by {
                    if j < i {
                        assert(prev.contains_key((user_id, replies@[j].id)));
                    }
                }
                assert forall|k: SendKey| k.0 != user_id implies (#[trigger] self.last_sends.sends().contains_key(k)
                    == prev.contains_key(k) && (prev.contains_key(k) ==> self.last_sends.sends()[k] == prev[k])) by {
                    assert(k != key);
                }
            }
            match out {
                Some(o) => {
                    assert(!(verdicts@[i as int] is Rejected));
                    assert(o@ == (OutgoingValue {
                        channel_id: replies@[i as int].channel_id,
                        description: reply_text(replies@[i as int].message@, mention@),
                    }));
                    let ghost old_res = res@;
                    res.push(o);
                    assert(outgoing_values(res@) == outgoing_values(old_res).push(o@));
                    proof {
                        let old_idx = idx;
                        idx = idx.push(i as int);
                        assert forall|a: int, b: int| 0 <= a < b < idx.len() implies idx[a] < idx[b] by {
                            if b < old_idx.len() {
                                assert(idx[a] == old_idx[a] && idx[b] == old_idx[b]);
                            } else {
                                assert(idx[a] == old_idx[a]);
                            }
                        }
                        assert forall|k: int| 0 <= k < idx.len() implies 0 <= #[trigger] idx[k] < replies@.len()
                            && !(verdicts@[idx[k]] is Rejected) by {
                            if k < old_idx.len() {
                                assert(idx[k] == old_idx[k]);
                            }
                        }
                        assert forall|k: int| 0 <= k < idx.len() implies (#[trigger] res@[k])@ == (OutgoingValue {
                            channel_id: replies@[idx[k]].channel_id,
                            description: reply_text(replies@[idx[k]].message@, mention@),
                        }) by {
                            if k < old_idx.len() {
                                assert(res@[k] == old_res[k]);
                            }
                        }
                    }
                },
                None => {},
            }
            i = i + 1;
        }
        proof {
            if replies@.len() == 1 && !(verdicts@[0] is Rejected) {
                let key = (user_id, replies@[0].id);
                let m0 = old(self).last_sends.sends();
                let c = checks[0];
                assert(replies_fold(m0, replies@, verdicts@, user_id, mention@, checks, checks, 0) == (
                    m0,
                    Seq::<OutgoingValue>::empty(),
                ));
                let step = reply_step(m0, replies@[0], verdicts@[0], user_id, mention@, c, c);
                assert(self.last_sends.sends() == step.0);
                assert(res@.len() == outgoing_values(res@).len());
                assert(clock_reading(c));
            }
        }
        res
    }

    /// Considers one reply for member `user_id`, whose mention is `mention`: a reply whose
    /// filters reject the member is skipped; otherwise it is sent if due at `now_check`, and
    /// its send is then remembered at `now_sent`.
    pub fn consider_reply(
        &mut self,
        reply: &AutoReply,
        verdict: &FilterVerdict,
        user_id: u64,
        mention: &str,
        now_check: i64,
        now_sent: i64,
    ) -> (res: Option<Outgoing>)
        ensures
            match verdict {
                FilterVerdict::Rejected => res is None && final(self).last_sends.sends()
                    == old(self).last_sends.sends(),
                _ => {
                    let (m, sent) = consider(
                        old(self).last_sends.sends(),
                        (user_id, reply.id),
                        reply.delay,
                        now_check,
                        now_sent,
                    );
                    &&& final(self).last_sends.sends() == m
                    &&& sent == res is Some
                    &&& res matches Some(o) ==> o@ == (OutgoingValue {
                        channel_id: reply.channel_id,
                        description: reply_text(reply.message@, mention@),
                    })
                },
            },
    {
        if let FilterVerdict::Rejected = verdict {
            return None;
        }
        let key = (user_id, reply.id);
        let last = match self.last_sends.get(key) {
            Some(t) => t,
            None => {
                self.last_sends.set(key, 0);
                0
            },
        };
        if (last as i128) + (reply.delay as i128) >= (now_check as i128) {
            return None;
        }
        proof {
            reveal_strlit("{mention}");
        }
        let description = replace_text(reply.message.as_str(), "{mention}", mention);
        self.last_sends.set(key, now_sent);
        assert(final(self).last_sends.sends() =~= old(self).last_sends.sends().insert(key, now_sent));
        Some(Outgoing { channel_id: reply.channel_id, description })
    }
}

impl Default for AutoReplyListener {
    /// A listener that has sent nothing yet.
    fn default() -> (l: AutoReplyListener)
        ensures
            l.last_sends.sends() == Map::<SendKey, i64>::empty(),
    {
        AutoReplyListener::new()
    }
}

} // verus!
