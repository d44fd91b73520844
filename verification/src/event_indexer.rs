//! Bounded, queryable per-topic event logs.
//!
//! `EventIndexer` is one topic's log (oldest first) together with the topic's
//! stored retention limit. Events carry a monotonic per-topic sequence
//! number starting at 1; recording past the limit evicts the oldest events
//! (FIFO), so the retained window never exceeds the limit. The event name,
//! correlation key and payload are carried as given.
use vstd::prelude::*;

verus! {

/// Number of events retained per topic when no limit is stored.
pub const DEFAULT_MAX_EVENTS_PER_TOPIC: u32 = 256;

/// Errors of the event indexer.
#[derive(Debug, Clone, Copy, PartialEq, Eq, Structural)]
pub enum Error {
    /// A retention limit of zero.
    LimitTooSmall,
    /// A query for zero events.
    InvalidQueryLimit,
}

/// One indexed event.
#[derive(Debug, PartialEq, Eq)]
pub struct IndexedEvent<N, K, P> {
    /// Monotonic sequence number within the topic (starts at 1).
    pub seq: u32,
    /// Ledger timestamp when the event was recorded.
    pub timestamp: u64,
    /// Event name.
    pub event_name: N,
    /// Correlation key (contract id, claim id, ...).
    pub key: K,
    /// Event payload.
    pub payload: P,
}

/// One topic's retained events (oldest first) and its stored limit.
pub struct EventIndexer<N, K, P> {
    pub events: Vec<IndexedEvent<N, K, P>>,
    pub limit: Option<u32>,
}

/// The retention limit in effect.
pub open spec fn effective_limit(limit: Option<u32>) -> u32 {
    match limit {
        Some(l) => l,
        None => DEFAULT_MAX_EVENTS_PER_TOPIC,
    }
}

/// The sequence number the next recorded event receives.
pub open spec fn next_seq<N, K, P>(s: Seq<IndexedEvent<N, K, P>>) -> int {
    if s.len() == 0 {
        1
    } else {
        s.last().seq + 1
    }
}

/// Sequence numbers run consecutively from the first retained event.
pub open spec fn seqs_consecutive<N, K, P>(s: Seq<IndexedEvent<N, K, P>>) -> bool {
    &&& s.len() > 0 ==> s[0].seq >= 1
    &&& forall|i: int| 0 <= i < s.len() ==> #[trigger] s[i].seq == s[0].seq + i
}

/// The newest `limit` events of `s` (all of them when there are no more).
pub open spec fn trimmed<N, K, P>(s: Seq<IndexedEvent<N, K, P>>, limit: u32) -> Seq<
    IndexedEvent<N, K, P>,
> {
    if s.len() > limit {
        s.skip(s.len() - limit)
    } else {
        s
    }
}

/// The log after appending `e` and evicting from the front down to `limit`.
pub open spec fn recorded<N, K, P>(
    s: Seq<IndexedEvent<N, K, P>>,
    limit: u32,
    e: IndexedEvent<N, K, P>,
) -> Seq<IndexedEvent<N, K, P>> {
    trimmed(s.push(e), limit)
}

/// Dropping events from the front keeps sequence numbers consecutive.
proof fn lemma_skip_consecutive<N, K, P>(s: Seq<IndexedEvent<N, K, P>>, d: int)
    requires
        seqs_consecutive(s),
        0 <= d <= s.len(),
    ensures
        seqs_consecutive(s.skip(d)),
{
    let f = s.skip(d);
    assert forall|i: int| 0 <= i < f.len() implies #[trigger] f[i].seq == f[0].seq + i by {
        assert(f[i] == s[d + i]);
        assert(f[0] == s[d + 0]);
        assert(s[d + i].seq == s[0].seq + (d + i));
        assert(s[d + 0].seq == s[0].seq + (d + 0));
    }
    if f.len() > 0 {
        assert(f[0] == s[d + 0]);
        assert(s[d + 0].seq == s[0].seq + (d + 0));
    }
}

/// Appending the event numbered `next_seq(s)` keeps sequence numbers
/// consecutive.
proof fn lemma_push_consecutive<N, K, P>(s: Seq<IndexedEvent<N, K, P>>, e: IndexedEvent<N, K, P>)
    requires
        seqs_consecutive(s),
        e.seq == next_seq(s),
    ensures
        seqs_consecutive(s.push(e)),
{
    let appended = s.push(e);
    assert forall|i: int| 0 <= i < appended.len() implies #[trigger] appended[i].seq
        == appended[0].seq + i by {
        if i < s.len() {
            assert(appended[i] == s[i]);
            assert(s[i].seq == s[0].seq + i);
        } else if s.len() > 0 {
            assert(s[s.len() - 1].seq == s[0].seq + (s.len() - 1));
        }
    }
}

/// The events of `s` whose sequence number is at least `from_seq`, in order.
pub open spec fn matching<N, K, P>(s: Seq<IndexedEvent<N, K, P>>, from_seq: u32) -> Seq<
    IndexedEvent<N, K, P>,
>
    decreases s.len(),
{
    if s.len() == 0 {
        Seq::empty()
    } else {
        let rest = matching(s.drop_last(), from_seq);
        if s.last().seq >= from_seq {
            rest.push(s.last())
        } else {
            rest
        }
    }
}

/// The answer to a query: the first `limit` matching events.
pub open spec fn query_result<N, K, P>(
    s: Seq<IndexedEvent<N, K, P>>,
    from_seq: u32,
    limit: u32,
) -> Seq<IndexedEvent<N, K, P>> {
    let m = matching(s, from_seq);
    if m.len() <= limit {
        m
    } else {
        m.take(limit as int)
    }
}

/// The events behind a vector of references.
pub open spec fn derefs<N, K, P>(v: Seq<&IndexedEvent<N, K, P>>) -> Seq<IndexedEvent<N, K, P>> {
    v.map_values(|r: &IndexedEvent<N, K, P>| *r)
}

proof fn lemma_matching_append<N, K, P>(
    a: Seq<IndexedEvent<N, K, P>>,
    b: Seq<IndexedEvent<N, K, P>>,
    from_seq: u32,
)
    ensures
        matching(a + b, from_seq) == matching(a, from_seq) + matching(b, from_seq),
    decreases b.len(),
{
    if b.len() == 0 {
        assert(a + b =~= a);
        assert(matching(a, from_seq) + matching(b, from_seq) =~= matching(a, from_seq));
    } else {
        lemma_matching_append(a, b.drop_last(), from_seq);
        assert((a + b).drop_last() =~= a + b.drop_last());
        assert((a + b).last() == b.last());
        if b.last().seq >= from_seq {
            assert(matching(a, from_seq) + matching(b, from_seq) =~= (matching(a, from_seq)
                + matching(b.drop_last(), from_seq)).push(b.last()));
        }
    }
}

proof fn lemma_matching_members<N, K, P>(s: Seq<IndexedEvent<N, K, P>>, from_seq: u32)
    ensures
        matching(s, from_seq).len() <= s.len(),
        forall|i: int|
            0 <= i < matching(s, from_seq).len() ==> (#[trigger] matching(s, from_seq)[i]).seq
                >= from_seq,
    decreases s.len(),
{
    if s.len() > 0 {
        lemma_matching_members(s.drop_last(), from_seq);
    }
}

/// In a log with consecutive sequence numbers, matching events keep
/// strictly increasing sequence numbers, all below `bound` when every
/// retained one is.
proof fn lemma_matching_increasing<N, K, P>(s: Seq<IndexedEvent<N, K, P>>, from_seq: u32)
    requires
        seqs_consecutive(s),
    ensures
        forall|i: int, j: int|
            0 <= i < j < matching(s, from_seq).len() ==> (#[trigger] matching(s, from_seq)[i]).seq
                < (#[trigger] matching(s, from_seq)[j]).seq,
        forall|i: int|
            0 <= i < matching(s, from_seq).len() ==> (#[trigger] matching(s, from_seq)[i]).seq
                <= s[0].seq + s.len() - 1,
    decreases s.len(),
{
    if s.len() > 0 {
        let t = s.drop_last();
        assert(seqs_consecutive(t)) by {
            assert forall|i: int| 0 <= i < t.len() implies #[trigger] t[i].seq == t[0].seq + i by {
                assert(t[i] == s[i]);
                assert(s[i].seq == s[0].seq + i);
            }
            if t.len() > 0 {
                assert(t[0] == s[0]);
            }
        }
        lemma_matching_increasing(t, from_seq);
        let last = s.last();
        assert(last.seq == s[0].seq + s.len() - 1) by {
            assert(s[s.len() - 1].seq == s[0].seq + (s.len() - 1));
        }
        let mt = matching(t, from_seq);
        let ms = matching(s, from_seq);
        if t.len() > 0 {
            assert(t[0] == s[0]);
        } else {
            assert(mt =~= Seq::<IndexedEvent<N, K, P>>::empty());
        }
        assert forall|i: int| 0 <= i < mt.len() implies #[trigger] mt[i].seq < last.seq by {}
        if last.seq >= from_seq {
            assert(ms == mt.push(last));
            assert forall|i: int, j: int| 0 <= i < j < ms.len() implies (#[trigger] ms[i]).seq
                < (#[trigger] ms[j]).seq by {
                if j == mt.len() {
                    assert(ms[i] == mt[i]);
                } else {
                    assert(ms[i] == mt[i] && ms[j] == mt[j]);
                }
            }
            assert forall|i: int| 0 <= i < ms.len() implies (#[trigger] ms[i]).seq <= s[0].seq
                + s.len() - 1 by {
                if i < mt.len() {
                    assert(ms[i] == mt[i]);
                }
            }
        }
    }
}

impl<N, K, P> EventIndexer<N, K, P> {
    /// Well-formed: consecutive sequence numbers and a length that fits `u32`.
    pub open spec fn wf(&self) -> bool {
        &&& seqs_consecutive(self.events@)
        &&& self.events@.len() <= u32::MAX
    }

    /// An empty topic with no stored limit.
    pub fn new() -> (r: Self)
        ensures
            r.events@.len() == 0,
            r.limit is None,
            r.wf(),
    {
        EventIndexer { events: Vec::new(), limit: None }
    }

    /// Appends an event stamped `timestamp`, evicts the oldest events beyond
    /// the retention limit and returns the event's sequence number: one more
    /// than the newest retained event's, or 1 for an empty topic.
    pub fn record(&mut self, timestamp: u64, event_name: N, key: K, payload: P) -> (seq: u32)
        requires
            old(self).events@.len() > 0 ==> old(self).events@.last().seq < u32::MAX,
        ensures
            seq == next_seq(old(self).events@),
            final(self).events@ == recorded(
                old(self).events@,
                effective_limit(old(self).limit),
                IndexedEvent { seq, timestamp, event_name, key, payload },
            ),
            final(self).limit == old(self).limit,
            old(self).wf() ==> final(self).wf(),
    {
        let n = self.events.len();
        let seq: u32 = if n == 0 {
            1
        } else {
            self.events[n - 1].seq + 1
        };
        let ghost before = self.events@;
        let ghost e = IndexedEvent { seq, timestamp, event_name, key, payload };
        self.events.push(IndexedEvent { seq, timestamp, event_name, key, payload });
        assert(self.events@ == before.push(e));
        let limit = self.get_topic_limit();
        proof {
            if seqs_consecutive(before) {
                lemma_push_consecutive(before, e);
            }
        }
        self.trim_to(limit);
        seq
    }

    /// Events with `seq >= from_seq`, oldest first, at most `limit` of them.
    pub fn query(&self, from_seq: u32, limit: u32) -> (r: Result<Vec<&IndexedEvent<N, K, P>>, Error>)
        ensures
            limit == 0 ==> r == Err::<Vec<&IndexedEvent<N, K, P>>, Error>(Error::InvalidQueryLimit),
            limit > 0 ==> (r matches Ok(v) && derefs(v@) == query_result(
                self.events@,
                from_seq,
                limit,
            )),
    {
        if limit == 0 {
            return Err(Error::InvalidQueryLimit);
        }
        let mut result: Vec<&IndexedEvent<N, K, P>> = Vec::new();
        let mut i: usize = 0;
        while i < self.events.len() && result.len() < limit as usize
            invariant
                i <= self.events@.len(),
                result@.len() <= limit,
                derefs(result@) == matching(self.events@.take(i as int), from_seq),
            decreases self.events@.len() - i,
        {
            let event = &self.events[i];
            proof {
                let s = self.events@;
                assert(s.take(i + 1).drop_last() =~= s.take(i as int));
                assert(s.take(i + 1).last() == *event);
            }
            if event.seq >= from_seq {
                result.push(event);
                proof {
                    assert(derefs(result@) =~= matching(self.events@.take(i as int), from_seq).push(
                        *event,
                    ));
                }
            }
            i = i + 1;
        }
        proof {
            let s = self.events@;
            assert(s =~= s.take(i as int) + s.skip(i as int));
            lemma_matching_append(s.take(i as int), s.skip(i as int), from_seq);
            let m = matching(s, from_seq);
            let head = matching(s.take(i as int), from_seq);
            if i == s.len() {
                assert(s.take(i as int) =~= s);
            } else {
                assert(result@.len() == limit);
                assert(m.take(limit as int) =~= head);
            }
        }
        Ok(result)
    }

    /// The number of retained events.
    pub fn count(&self) -> (r: u32)
        requires
            self.wf(),
        ensures
            r == self.events@.len(),
    {
        self.events.len() as u32
    }

    /// The most recently recorded event, if any.
    pub fn latest(&self) -> (r: Option<&IndexedEvent<N, K, P>>)
        ensures
            self.events@.len() == 0 ==> r is None,
            self.events@.len() > 0 ==> (r matches Some(e) && *e == self.events@.last()),
    {
        let n = self.events.len();
        if n == 0 {
            None
        } else {
            Some(&self.events[n - 1])
        }
    }

    /// Drops the oldest events until at most `limit` remain.
    fn trim_to(&mut self, limit: u32)
        ensures
            final(self).events@ == trimmed(old(self).events@, limit),
            final(self).limit == old(self).limit,
            seqs_consecutive(old(self).events@) ==> seqs_consecutive(final(self).events@),
    {
        let ghost start = self.events@;
        let ghost mut dropped: int = 0;
        while self.events.len() > limit as usize
            invariant
                0 <= dropped <= start.len(),
                self.events@ == start.skip(dropped),
                self.limit == old(self).limit,
                start.len() > limit ==> dropped <= start.len() - limit,
                start.len() <= limit ==> dropped == 0,
            decreases self.events@.len(),
        {
            self.events.remove(0);
            proof {
                assert(self.events@ =~= start.skip(dropped + 1));
                dropped = dropped + 1;
            }
        }
        proof {
            if start.len() <= limit {
                assert(start.skip(0) =~= start);
            }
            if seqs_consecutive(start) {
                lemma_skip_consecutive(start, dropped);
            }
        }
    }

    /// Stores a retention limit of at least 1 and drops the oldest events
    /// beyond it, so the retained window never exceeds the limit. A limit of
    /// zero fails with `LimitTooSmall`, changing nothing.
    pub fn set_topic_limit(&mut self, limit: u32) -> (r: Result<(), Error>)
        ensures
            limit == 0 ==> r == Err::<(), Error>(Error::LimitTooSmall) && final(self).limit
                == old(self).limit && final(self).events == old(self).events,
            limit > 0 ==> r is Ok && final(self).limit == Some(limit) && final(self).events@
                == trimmed(old(self).events@, limit),
            old(self).wf() ==> final(self).wf(),
    {
        if limit == 0 {
            return Err(Error::LimitTooSmall);
        }
        self.limit = Some(limit);
        self.trim_to(limit);
        Ok(())
    }

    /// The retention limit in effect (`DEFAULT_MAX_EVENTS_PER_TOPIC` when none
    /// is stored).
    pub fn get_topic_limit(&self) -> (r: u32)
        ensures
            r == effective_limit(self.limit),
    {
        match self.limit {
            Some(l) => l,
            None => DEFAULT_MAX_EVENTS_PER_TOPIC,
        }
    }
}

/// Recording keeps the retained window within the limit; with a limit of at
/// least 1 the newest retained event is the one just recorded, and sequence
/// numbers stay consecutive.
pub proof fn law_record_bounded_window<N, K, P>(
    s: Seq<IndexedEvent<N, K, P>>,
    limit: u32,
    e: IndexedEvent<N, K, P>,
)
    requires
        seqs_consecutive(s),
        e.seq == next_seq(s),
    ensures
        recorded(s, limit, e).len() <= limit,
        limit >= 1 ==> recorded(s, limit, e).last() == e,
        seqs_consecutive(recorded(s, limit, e)),
{
    lemma_push_consecutive(s, e);
    let appended = s.push(e);
    if appended.len() > limit {
        lemma_skip_consecutive(appended, appended.len() - limit);
    }
}

/// Setting a limit shrinks the retained window to at most that limit, keeps
/// the newest events and keeps sequence numbers consecutive.
pub proof fn law_set_limit_bounded_window<N, K, P>(s: Seq<IndexedEvent<N, K, P>>, limit: u32)
    requires
        seqs_consecutive(s),
        limit >= 1,
    ensures
        trimmed(s, limit).len() <= limit,
        s.len() > 0 ==> trimmed(s, limit).last() == s.last(),
        seqs_consecutive(trimmed(s, limit)),
{
    if s.len() > limit {
        lemma_skip_consecutive(s, s.len() - limit);
    }
}

/// A query answers at most `limit` events, each at or past the cursor, in
/// strictly increasing sequence order on a well-formed log.
pub proof fn law_query_respects_cursor<N, K, P>(
    s: Seq<IndexedEvent<N, K, P>>,
    from_seq: u32,
    limit: u32,
)
    requires
        seqs_consecutive(s),
    ensures
        query_result(s, from_seq, limit).len() <= limit,
        forall|i: int|
            0 <= i < query_result(s, from_seq, limit).len() ==> (#[trigger] query_result(
                s,
                from_seq,
                limit,
            )[i]).seq >= from_seq,
        forall|i: int, j: int|
            0 <= i < j < query_result(s, from_seq, limit).len() ==> (#[trigger] query_result(
                s,
                from_seq,
                limit,
            )[i]).seq < (#[trigger] query_result(s, from_seq, limit)[j]).seq,
{
    lemma_matching_members(s, from_seq);
    lemma_matching_increasing(s, from_seq);
    let m = matching(s, from_seq);
    let q = query_result(s, from_seq, limit);
    assert forall|i: int| 0 <= i < q.len() implies #[trigger] q[i] == m[i] by {}
}

} // verus!
