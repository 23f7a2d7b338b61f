//! The content store: images, inputs, sessions and receipts, each kept under
//! an identifier together with the time at which it was stored, and dropped
//! by a sweep once it is older than the store's time to live.
//!
//! Times are nanoseconds since the store was made. Every operation that needs
//! the time exists twice: once taking the time as an argument, and once
//! reading the store's own clock. The store keeps the latest time that it has
//! read, and reads no earlier time after it.

use crate::text::trim_end_matches;
use crate::text::without_trailing;
use crate::text::CharClass;
use crate::url_resolver::BaseUrl;
use std::time::Duration;
use std::time::Instant;
use vstd::prelude::*;

verus! {

#[verifier::external_type_specification]
#[verifier::external_body]
pub struct ExInstant(std::time::Instant);

/// `Instant::now` of std: the present moment on the monotonic clock. Nothing
/// is claimed of it.
pub assume_specification[ Instant::now ]() -> (now: Instant)
;

/// `Instant::elapsed` of std: the time that has passed since `earlier`.
/// Nothing is claimed of it.
pub assume_specification[ Instant::elapsed ](earlier: &Instant) -> (passed: Duration)
;

/// `Duration::as_nanos` of std: a duration in whole nanoseconds. Nothing is
/// claimed of it.
pub assume_specification[ Duration::as_nanos ](duration: &Duration) -> (nanos: u128)
;

/// A stored value with the time at which it was stored.
#[derive(Debug)]
pub struct EntryWithTimestamp<T> {
    pub data: T,
    pub created_at: u128,
}

impl<T> EntryWithTimestamp<T> {
    /// How long the entry has been stored at the time `now`. An entry stored
    /// after `now` has age zero.
    pub open spec fn age(&self, now: u128) -> nat {
        if now >= self.created_at {
            (now - self.created_at) as nat
        } else {
            0
        }
    }

    /// Whether the entry is older than `ttl` at the time `now`.
    pub open spec fn expired(&self, ttl: u128, now: u128) -> bool {
        self.age(now) > ttl
    }

    /// An entry that holds `data`, stored at the time `now`.
    pub fn new(data: T, now: u128) -> (entry: Self)
        ensures
            entry.data == data,
            entry.created_at == now,
    {
        Self { data, created_at: now }
    }

    /// Whether the entry is older than `ttl` at the time `now`.
    pub fn is_expired(&self, ttl: u128, now: u128) -> (expired: bool)
        ensures
            expired == self.expired(ttl, now),
    {
        now >= self.created_at && now - self.created_at > ttl
    }
}

/// Where a proving session stands.
#[derive(Debug, Clone, Copy, PartialEq, Eq, Structural)]
pub enum SessionStatus {
    Running,
    Succeeded,
    Failed,
}

impl SessionStatus {
    /// A session has ended once it has succeeded or failed.
    pub open spec fn is_terminal(self) -> bool {
        self != SessionStatus::Running
    }

    /// The name under which the status goes over the wire.
    pub open spec fn wire_name(self) -> Seq<char> {
        match self {
            SessionStatus::Running => "RUNNING"@,
            SessionStatus::Succeeded => "SUCCEEDED"@,
            SessionStatus::Failed => "FAILED"@,
        }
    }

    /// The name under which the status goes over the wire.
    pub fn to_string(&self) -> (name: String)
        ensures
            name@ == self.wire_name(),
    {
        match self {
            SessionStatus::Running => String::from_str("RUNNING"),
            SessionStatus::Succeeded => String::from_str("SUCCEEDED"),
            SessionStatus::Failed => String::from_str("FAILED"),
        }
    }
}

/// No two statuses share a wire name.
pub proof fn lemma_wire_names_differ(a: SessionStatus, b: SessionStatus)
    ensures
        a.wire_name() == b.wire_name() <==> a == b,
{
    reveal_strlit("RUNNING");
    reveal_strlit("SUCCEEDED");
    reveal_strlit("FAILED");
    assert("RUNNING"@.len() == 7);
    assert("SUCCEEDED"@.len() == 9);
    assert("FAILED"@.len() == 6);
}

/// What happens to one session in the course of its life.
pub enum SessionEvent {
    /// A request handler accepted the proving request and opened the session.
    Created,
    /// The worker is done with the session's task.
    Finished { succeeded: bool },
    /// A sweep dropped the session.
    Expired,
}

/// The status that the store holds for a session once `event` has happened
/// to it.
pub open spec fn status_after(event: SessionEvent) -> Option<SessionStatus> {
    match event {
        SessionEvent::Created => Some(SessionStatus::Running),
        SessionEvent::Finished { succeeded } => Some(
            if succeeded {
                SessionStatus::Succeeded
            } else {
                SessionStatus::Failed
            },
        ),
        SessionEvent::Expired => None,
    }
}

/// The status that the store holds for a session to which `events` have
/// happened, in this order: none for a session that was never opened.
pub open spec fn status_after_all(events: Seq<SessionEvent>) -> Option<SessionStatus> {
    if events.len() == 0 {
        None
    } else {
        status_after(events.last())
    }
}

/// Whether `events` can be the life of a session: it is opened first and
/// only once, and its task is finished at most once.
pub open spec fn is_session_life(events: Seq<SessionEvent>) -> bool {
    &&& forall|i: int| 0 <= i < events.len() ==> ((#[trigger] events[i]) is Created <==> i == 0)
    &&& forall|i: int, j: int|
        0 <= i < j < events.len() && (#[trigger] events[i]) is Finished ==> !((
        #[trigger] events[j]) is Finished)
}

/// Over the life of a session, whoever looks at its status at two moments
/// finds that a status that has ended is still the same at the later moment,
/// if the session is still there, and that a session which is running at
/// the later moment was not ended at the earlier one.
pub proof fn lemma_session_ends_once(events: Seq<SessionEvent>, earlier: int, later: int)
    requires
        is_session_life(events),
        0 <= earlier <= later <= events.len(),
    ensures
        status_after_all(events.take(earlier)) is Some && status_after_all(
            events.take(earlier),
        )->0.is_terminal() && status_after_all(events.take(later)) is Some ==> status_after_all(
            events.take(later),
        ) == status_after_all(events.take(earlier)),
        status_after_all(events.take(later)) == Some(SessionStatus::Running) ==> status_after_all(
            events.take(earlier),
        ) is None || status_after_all(events.take(earlier)) == Some(SessionStatus::Running),
{
    let first = events.take(earlier);
    let second = events.take(later);
    if earlier > 0 && later > earlier {
        assert(first.last() == events[earlier - 1]);
        assert(second.last() == events[later - 1]);
        if events[earlier - 1] is Finished {
            assert(!(events[later - 1] is Finished));
            assert(!(events[later - 1] is Created));
        }
        if events[later - 1] is Created {
            assert(later - 1 == 0);
        }
    }
}

/// What the prover reports of a finished session.
#[derive(Debug, Clone, Copy, PartialEq, Eq, Structural)]
pub struct SessionStats {
    /// The number of segments of the execution.
    pub segments: usize,
    /// The cycles that the execution took in all.
    pub total_cycles: u64,
    /// The cycles that the program itself took.
    pub user_cycles: u64,
}

/// A session as the store holds it: its status, and statistics once it has
/// succeeded.
pub type Session = (SessionStatus, Option<SessionStats>);

/// One entry of a table, under its key.
struct Slot<T> {
    key: String,
    entry: EntryWithTimestamp<T>,
}

/// Entries under textual keys, each key at most once.
pub struct Table<T> {
    slots: Vec<Slot<T>>,
}

/// What a sweep at the time `now` leaves of `entries`: those that are not
/// older than `ttl`.
pub open spec fn unexpired<T>(
    entries: Map<Seq<char>, EntryWithTimestamp<T>>,
    ttl: u128,
    now: u128,
) -> Map<Seq<char>, EntryWithTimestamp<T>> {
    entries.restrict(Set::new(|key: Seq<char>| !entries[key].expired(ttl, now)))
}

/// What sweeps at the times `times`, one after the other, leave of `entries`.
pub open spec fn swept<T>(
    entries: Map<Seq<char>, EntryWithTimestamp<T>>,
    ttl: u128,
    times: Seq<u128>,
) -> Map<Seq<char>, EntryWithTimestamp<T>>
    decreases times.len(),
{
    if times.len() == 0 {
        entries
    } else {
        unexpired(swept(entries, ttl, times.drop_last()), ttl, times.last())
    }
}

impl<T> Table<T> {
    /// The table is well formed: no key stands twice.
    pub closed spec fn wf(self) -> bool {
        forall|i: int, j: int|
            0 <= i < j < self.slots.len() ==> self.slots[i].key@ != self.slots[j].key@
    }

    /// Whether slot `i` holds `key`.
    spec fn holds_at(self, key: Seq<char>, i: int) -> bool {
        0 <= i < self.slots.len() && self.slots[i].key@ == key
    }

    /// The slot that holds `key`.
    spec fn position(self, key: Seq<char>) -> int {
        choose|i: int| self.holds_at(key, i)
    }

    /// Whether some slot is `slot`.
    spec fn has(self, slot: Slot<T>) -> bool {
        exists|i: int| 0 <= i < self.slots.len() && self.slots[i] == slot
    }

    /// The entries by key.
    pub closed spec fn entries(self) -> Map<Seq<char>, EntryWithTimestamp<T>> {
        Map::new(
            |key: Seq<char>| exists|i: int| self.holds_at(key, i),
            |key: Seq<char>| self.slots[self.position(key)].entry,
        )
    }

    /// A table without entries.
    pub fn new() -> (table: Self)
        ensures
            table.wf(),
            table.entries() == Map::<Seq<char>, EntryWithTimestamp<T>>::empty(),
    {
        let table = Table { slots: Vec::new() };
        assert(table.entries() =~= Map::<Seq<char>, EntryWithTimestamp<T>>::empty());
        table
    }

    /// The slot that holds `key`, if one does.
    fn slot_of(&self, key: &String) -> (at: Option<usize>)
        ensures
            match at {
                Some(i) => self.holds_at(key@, i as int),
                None => forall|i: int| !self.holds_at(key@, i),
            },
    {
        let mut i: usize = 0;
        while i < self.slots.len()
            invariant
                i <= self.slots.len(),
                forall|j: int| 0 <= j < i ==> self.slots[j].key@ != key@,
            decreases self.slots.len() - i,
        {
            if self.slots[i].key == *key {
                return Some(i);
            }
            i = i + 1;
        }
        None
    }

    /// The entry under `key`, if there is one.
    pub fn get(&self, key: &str) -> (found: Option<&EntryWithTimestamp<T>>)
        requires
            self.wf(),
        ensures
            match found {
                Some(entry) => self.entries().contains_key(key@) && self.entries()[key@] == *entry,
                None => !self.entries().contains_key(key@),
            },
    {
        let key = String::from_str(key);
        match self.slot_of(&key) {
            Some(i) => {
                assert(self.holds_at(key@, i as int));
                assert(self.holds_at(key@, self.position(key@)));
                Some(&self.slots[i].entry)
            },
            None => None,
        }
    }

    /// Takes out the entry under `key`, if there is one.
    fn take(&mut self, key: &String) -> (taken: Option<EntryWithTimestamp<T>>)
        requires
            old(self).wf(),
        ensures
            final(self).wf(),
            final(self).entries() == old(self).entries().remove(key@),
            match taken {
                Some(taken) => old(self).entries().contains_key(key@) && old(self).entries()[key@]
                    == taken,
                None => !old(self).entries().contains_key(key@),
            },
    {
        let ghost before = *self;
        let ghost k = key@;
        match self.slot_of(key) {
            Some(i) => {
                assert(before.holds_at(k, i as int));
                assert(before.holds_at(k, before.position(k)));
                let taken = self.slots.swap_remove(i);
                proof {
                    let after = *self;
                    let last = before.slots.len() - 1;
                    assert forall|j: int| 0 <= j < after.slots.len() implies after.slots[j] == (if j
                        == i {
                        before.slots[last]
                    } else {
                        before.slots[j]
                    }) by {}
                    assert forall|a: int, b: int| 0 <= a < b < after.slots.len() implies after.slots[a].key@
                        != after.slots[b].key@ by {
                        let oa = if a == i { last } else { a };
                        let ob = if b == i { last } else { b };
                        assert(after.slots[a] == before.slots[oa]);
                        assert(after.slots[b] == before.slots[ob]);
                    }
                    assert forall|key: Seq<char>| #[trigger]
                        after.entries().contains_key(key) == before.entries().remove(
                            k,
                        ).contains_key(key) by {
                        if after.entries().contains_key(key) {
                            let p = after.position(key);
                            assert(after.holds_at(key, p));
                            let op = if p == i { last } else { p };
                            assert(after.slots[p] == before.slots[op]);
                            assert(before.holds_at(key, op));
                        } else if before.entries().contains_key(key) && key != k {
                            let p = before.position(key);
                            assert(before.holds_at(key, p));
                            let np = if p == last { i as int } else { p };
                            assert(after.slots[np] == before.slots[p]);
                            assert(after.holds_at(key, np));
                        }
                    }
                    assert forall|key: Seq<char>| #[trigger]
                        after.entries().contains_key(key) implies after.entries()[key]
                        == before.entries().remove(k)[key] by {
                        let p = after.position(key);
                        assert(after.holds_at(key, p));
                        let op = if p == i { last } else { p };
                        assert(after.slots[p] == before.slots[op]);
                        assert(before.holds_at(key, op));
                        assert(before.holds_at(key, before.position(key)));
                    }
                    assert(after.entries() =~= before.entries().remove(k));
                }
                Some(taken.entry)
            },
            None => {
                assert(before.entries() =~= before.entries().remove(k));
                None
            },
        }
    }

    /// Adds `entry` under `key`, which the table does not hold yet.
    fn add(&mut self, key: String, entry: EntryWithTimestamp<T>)
        requires
            old(self).wf(),
            !old(self).entries().contains_key(key@),
        ensures
            final(self).wf(),
            final(self).entries() == old(self).entries().insert(key@, entry),
    {
        let ghost before = *self;
        let ghost k = key@;
        self.slots.push(Slot { key, entry });
        proof {
            let after = *self;
            let last = after.slots.len() - 1;
            assert forall|a: int, b: int| 0 <= a < b < after.slots.len() implies after.slots[a].key@
                != after.slots[b].key@ by {
                assert(after.slots[a] == before.slots[a]);
                if b == last {
                    assert(!before.holds_at(k, a));
                } else {
                    assert(after.slots[b] == before.slots[b]);
                }
            }
            assert forall|key: Seq<char>| #[trigger]
                after.entries().contains_key(key) == before.entries().insert(
                    k,
                    entry,
                ).contains_key(key) by {
                if key == k {
                    assert(after.holds_at(key, last));
                } else if before.entries().contains_key(key) {
                    let p = before.position(key);
                    assert(before.holds_at(key, p));
                    assert(after.slots[p] == before.slots[p]);
                    assert(after.holds_at(key, p));
                } else if after.entries().contains_key(key) {
                    let p = after.position(key);
                    assert(after.holds_at(key, p));
                    assert(after.slots[p] == before.slots[p]);
                    assert(before.holds_at(key, p));
                }
            }
            assert forall|key: Seq<char>| #[trigger]
                after.entries().contains_key(key) implies after.entries()[key]
                == before.entries().insert(k, entry)[key] by {
                let p = after.position(key);
                assert(after.holds_at(key, p));
                if key == k {
                    assert(after.holds_at(key, last));
                } else {
                    assert(after.slots[p] == before.slots[p]);
                    assert(before.holds_at(key, p));
                    assert(before.holds_at(key, before.position(key)));
                }
            }
            assert(after.entries() =~= before.entries().insert(k, entry));
        }
    }

    /// Puts `entry` under `key`, in place of the entry that was there, which
    /// is returned.
    pub fn insert(
        &mut self,
        key: String,
        entry: EntryWithTimestamp<T>,
    ) -> (previous: Option<EntryWithTimestamp<T>>)
        requires
            old(self).wf(),
        ensures
            final(self).wf(),
            final(self).entries() == old(self).entries().insert(key@, entry),
            match previous {
                Some(previous) => old(self).entries().contains_key(key@) && old(self).entries()[key@]
                    == previous,
                None => !old(self).entries().contains_key(key@),
            },
    {
        let previous = self.take(&key);
        self.add(key, entry);
        assert(old(self).entries().remove(key@).insert(key@, entry) =~= old(self).entries().insert(
            key@,
            entry,
        ));
        previous
    }

    /// Drops the entries that are older than `ttl` at the time `now`.
    pub fn sweep(&mut self, ttl: u128, now: u128)
        requires
            old(self).wf(),
        ensures
            final(self).wf(),
            final(self).entries() == unexpired(old(self).entries(), ttl, now),
    {
        let ghost before = *self;
        let mut i: usize = 0;
        while i < self.slots.len()
            invariant
                before.wf(),
                self.wf(),
                i <= self.slots.len(),
                forall|j: int| 0 <= j < self.slots.len() ==> before.has(#[trigger] self.slots[j]),
                forall|o: int|
                    0 <= o < before.slots.len() && !before.slots[o].entry.expired(ttl, now)
                        ==> self.has(#[trigger] before.slots[o]),
                forall|j: int| 0 <= j < i ==> !(#[trigger] self.slots[j]).entry.expired(ttl, now),
            decreases self.slots.len() - i,
        {
            if self.slots[i].entry.is_expired(ttl, now) {
                let ghost earlier = *self;
                let ghost last = earlier.slots.len() - 1;
                self.slots.swap_remove(i);
                proof {
                    let later = *self;
                    assert forall|j: int| 0 <= j < later.slots.len() implies later.slots[j] == (if j
                        == i {
                        earlier.slots[last]
                    } else {
                        earlier.slots[j]
                    }) by {}
                    assert forall|a: int, b: int| 0 <= a < b < later.slots.len() implies later.slots[a].key@
                        != later.slots[b].key@ by {
                        let oa = if a == i { last } else { a };
                        let ob = if b == i { last } else { b };
                        assert(later.slots[a] == earlier.slots[oa]);
                        assert(later.slots[b] == earlier.slots[ob]);
                    }
                    assert forall|j: int| 0 <= j < later.slots.len() implies before.has(
                        #[trigger] later.slots[j],
                    ) by {
                        let oj = if j == i { last } else { j };
                        assert(later.slots[j] == earlier.slots[oj]);
                        assert(before.has(earlier.slots[oj]));
                    }
                    assert forall|o: int|
                        0 <= o < before.slots.len() && !before.slots[o].entry.expired(
                            ttl,
                            now,
                        ) implies later.has(#[trigger] before.slots[o]) by {
                        assert(earlier.has(before.slots[o]));
                        let j = choose|j: int|
                            0 <= j < earlier.slots.len() && earlier.slots[j] == before.slots[o];
                        assert(j != i);
                        let nj = if j == last { i as int } else { j };
                        assert(later.slots[nj] == earlier.slots[j]);
                    }
                    assert forall|j: int| 0 <= j < i implies !(#[trigger] later.slots[j]).entry.expired(
                        ttl,
                        now,
                    ) by {
                        assert(later.slots[j] == earlier.slots[j]);
                    }
                }
            } else {
                i = i + 1;
            }
        }
        proof {
            let after = *self;
            let target = unexpired(before.entries(), ttl, now);
            assert forall|key: Seq<char>| #[trigger]
                after.entries().contains_key(key) implies target.contains_key(key)
                && after.entries()[key] == target[key] by {
                let p = after.position(key);
                assert(after.holds_at(key, p));
                assert(before.has(after.slots[p]));
                let o = choose|o: int|
                    0 <= o < before.slots.len() && before.slots[o] == after.slots[p];
                assert(before.holds_at(key, o));
                let q = before.position(key);
                assert(before.holds_at(key, q));
                assert(q == o);
            }
            assert forall|key: Seq<char>| #[trigger]
                target.contains_key(key) implies after.entries().contains_key(key) by {
                let q = before.position(key);
                assert(before.holds_at(key, q));
                assert(after.has(before.slots[q]));
                let j = choose|j: int|
                    0 <= j < after.slots.len() && after.slots[j] == before.slots[q];
                assert(after.holds_at(key, j));
            }
            assert(after.entries() =~= target);
        }
    }
}

/// The entry that holds `data`, stored at the time `now`.
pub open spec fn stamped<T>(data: T, now: u128) -> EntryWithTimestamp<T> {
    EntryWithTimestamp { data, created_at: now }
}

/// The data that `entries` holds under `key`, if any.
pub open spec fn data_of<T>(
    entries: Map<Seq<char>, EntryWithTimestamp<T>>,
    key: Seq<char>,
) -> Option<T> {
    if entries.contains_key(key) {
        Some(entries[key].data)
    } else {
        None
    }
}

/// The bytes that `entries` holds under `key`, if any.
pub open spec fn bytes_of(
    entries: Map<Seq<char>, EntryWithTimestamp<Vec<u8>>>,
    key: Seq<char>,
) -> Option<Seq<u8>> {
    if entries.contains_key(key) {
        Some(entries[key].data@)
    } else {
        None
    }
}

/// The view of bytes that may be absent.
pub open spec fn bytes_view(bytes: Option<Vec<u8>>) -> Option<Seq<u8>> {
    match bytes {
        Some(bytes) => Some(bytes@),
        None => None,
    }
}

/// An entry that no sweep so far was late enough to drop is still there.
pub proof fn lemma_kept_until_expiry<T>(
    entries: Map<Seq<char>, EntryWithTimestamp<T>>,
    key: Seq<char>,
    data: T,
    stored: u128,
    ttl: u128,
    times: Seq<u128>,
)
    requires
        forall|i: int| 0 <= i < times.len() ==> times[i] <= stored + ttl,
    ensures
        data_of(swept(entries.insert(key, stamped(data, stored)), ttl, times), key) == Some(data),
        swept(entries.insert(key, stamped(data, stored)), ttl, times)[key] == stamped(data, stored),
    decreases times.len(),
{
    if times.len() > 0 {
        lemma_kept_until_expiry(entries, key, data, stored, ttl, times.drop_last());
    }
}

/// Sweeps add nothing: what is there after them was there before, unchanged.
pub proof fn lemma_swept_within<T>(
    entries: Map<Seq<char>, EntryWithTimestamp<T>>,
    ttl: u128,
    times: Seq<u128>,
    key: Seq<char>,
)
    requires
        swept(entries, ttl, times).contains_key(key),
    ensures
        entries.contains_key(key),
        swept(entries, ttl, times)[key] == entries[key],
        forall|i: int| 0 <= i < times.len() ==> !entries[key].expired(ttl, times[i]),
    decreases times.len(),
{
    if times.len() > 0 {
        let earlier = times.drop_last();
        lemma_swept_within(entries, ttl, earlier, key);
        assert forall|i: int| 0 <= i < times.len() implies !entries[key].expired(ttl, times[i]) by {
            if i < earlier.len() {
                assert(times[i] == earlier[i]);
            }
        }
    }
}

/// An entry is gone after the first sweep that comes more than `ttl` after
/// it was stored, and stays gone through the sweeps that follow.
pub proof fn lemma_dropped_after_expiry<T>(
    entries: Map<Seq<char>, EntryWithTimestamp<T>>,
    key: Seq<char>,
    data: T,
    stored: u128,
    ttl: u128,
    times: Seq<u128>,
    late: int,
)
    requires
        0 <= late < times.len(),
        times[late] > stored + ttl,
    ensures
        !swept(entries.insert(key, stamped(data, stored)), ttl, times).contains_key(key),
{
    let start = entries.insert(key, stamped(data, stored));
    if swept(start, ttl, times).contains_key(key) {
        lemma_swept_within(start, ttl, times, key);
        assert(!start[key].expired(ttl, times[late]));
    }
}

/// Two entries stored at the same time, in collections with the same time
/// to live, are kept or dropped together by every run of sweeps: so a
/// session and its receipt, which the worker stores at one time.
pub proof fn lemma_stored_together_swept_together<T, U>(
    first: Map<Seq<char>, EntryWithTimestamp<T>>,
    second: Map<Seq<char>, EntryWithTimestamp<U>>,
    key: Seq<char>,
    data: T,
    other: U,
    stored: u128,
    ttl: u128,
    times: Seq<u128>,
)
    ensures
        swept(first.insert(key, stamped(data, stored)), ttl, times).contains_key(key) == swept(
            second.insert(key, stamped(other, stored)),
            ttl,
            times,
        ).contains_key(key),
{
    if exists|late: int| 0 <= late < times.len() && times[late] > stored + ttl {
        let late = choose|late: int| 0 <= late < times.len() && times[late] > stored + ttl;
        lemma_dropped_after_expiry(first, key, data, stored, ttl, times, late);
        lemma_dropped_after_expiry(second, key, other, stored, ttl, times, late);
    } else {
        lemma_kept_until_expiry(first, key, data, stored, ttl, times);
        lemma_kept_until_expiry(second, key, other, stored, ttl, times);
    }
}

/// The content store.
pub struct BonsaiState {
    url: BaseUrl,
    ttl: u128,
    started: Instant,
    latest: u128,
    images: Table<Vec<u8>>,
    inputs: Table<Vec<u8>>,
    sessions: Table<Session>,
    receipts: Table<Vec<u8>>,
}

impl BonsaiState {
    /// The store is well formed: so is each of its tables.
    pub closed spec fn wf(&self) -> bool {
        &&& self.images.wf()
        &&& self.inputs.wf()
        &&& self.sessions.wf()
        &&& self.receipts.wf()
    }

    /// The URL that the store was made with.
    pub closed spec fn url(&self) -> crate::url_resolver::UrlView {
        self.url@
    }

    /// The age beyond which a sweep drops an entry, in nanoseconds.
    pub closed spec fn ttl(&self) -> u128 {
        self.ttl
    }

    /// The latest time that the store has read from its clock, in
    /// nanoseconds since the store was made: zero before the first reading.
    pub closed spec fn latest(&self) -> u128 {
        self.latest
    }

    /// The images by identifier.
    pub closed spec fn images(&self) -> Map<Seq<char>, EntryWithTimestamp<Vec<u8>>> {
        self.images.entries()
    }

    /// The inputs by identifier.
    pub closed spec fn inputs(&self) -> Map<Seq<char>, EntryWithTimestamp<Vec<u8>>> {
        self.inputs.entries()
    }

    /// The sessions by identifier.
    pub closed spec fn sessions(&self) -> Map<Seq<char>, EntryWithTimestamp<Session>> {
        self.sessions.entries()
    }

    /// The receipts by identifier.
    pub closed spec fn receipts(&self) -> Map<Seq<char>, EntryWithTimestamp<Vec<u8>>> {
        self.receipts.entries()
    }

    /// The status of the session `session_id`, if the store has the session.
    pub open spec fn status_of(&self, session_id: Seq<char>) -> Option<SessionStatus> {
        match data_of(self.sessions(), session_id) {
            Some(session) => Some(session.0),
            None => None,
        }
    }

    /// Whether `self` and `other` differ at most in the latest time read.
    pub open spec fn same_but_latest(&self, other: &Self) -> bool {
        &&& self.wf() == other.wf()
        &&& self.url() == other.url()
        &&& self.ttl() == other.ttl()
        &&& self.images() == other.images()
        &&& self.inputs() == other.inputs()
        &&& self.sessions() == other.sessions()
        &&& self.receipts() == other.receipts()
    }

    /// Whether `self` and `other` differ at most in their images.
    pub open spec fn same_but_images(&self, other: &Self) -> bool {
        &&& self.url() == other.url()
        &&& self.ttl() == other.ttl()
        &&& self.inputs() == other.inputs()
        &&& self.sessions() == other.sessions()
        &&& self.receipts() == other.receipts()
    }

    /// Whether `self` and `other` differ at most in their inputs.
    pub open spec fn same_but_inputs(&self, other: &Self) -> bool {
        &&& self.url() == other.url()
        &&& self.ttl() == other.ttl()
        &&& self.images() == other.images()
        &&& self.sessions() == other.sessions()
        &&& self.receipts() == other.receipts()
    }

    /// Whether `self` and `other` differ at most in their sessions.
    pub open spec fn same_but_sessions(&self, other: &Self) -> bool {
        &&& self.url() == other.url()
        &&& self.ttl() == other.ttl()
        &&& self.images() == other.images()
        &&& self.inputs() == other.inputs()
        &&& self.receipts() == other.receipts()
    }

    /// Whether `self` and `other` differ at most in their receipts.
    pub open spec fn same_but_receipts(&self, other: &Self) -> bool {
        &&& self.url() == other.url()
        &&& self.ttl() == other.ttl()
        &&& self.images() == other.images()
        &&& self.inputs() == other.inputs()
        &&& self.sessions() == other.sessions()
    }

    /// Whether `self` is what a sweep at the time `now` leaves of `before`.
    pub open spec fn is_swept(&self, before: &Self, now: u128) -> bool {
        &&& self.url() == before.url()
        &&& self.ttl() == before.ttl()
        &&& self.images() == unexpired(before.images(), before.ttl(), now)
        &&& self.inputs() == unexpired(before.inputs(), before.ttl(), now)
        &&& self.sessions() == unexpired(before.sessions(), before.ttl(), now)
        &&& self.receipts() == unexpired(before.receipts(), before.ttl(), now)
    }

    /// An empty store whose entries live for `ttl` nanoseconds. Its clock
    /// starts now.
    pub fn new(url: BaseUrl, ttl: u128) -> (state: Self)
        ensures
            state.wf(),
            state.url() == url@,
            state.ttl() == ttl,
            state.latest() == 0,
            state.images() == Map::<Seq<char>, EntryWithTimestamp<Vec<u8>>>::empty(),
            state.inputs() == Map::<Seq<char>, EntryWithTimestamp<Vec<u8>>>::empty(),
            state.sessions() == Map::<Seq<char>, EntryWithTimestamp<Session>>::empty(),
            state.receipts() == Map::<Seq<char>, EntryWithTimestamp<Vec<u8>>>::empty(),
    {
        Self {
            url,
            ttl,
            started: Instant::now(),
            latest: 0,
            images: Table::new(),
            inputs: Table::new(),
            sessions: Table::new(),
            receipts: Table::new(),
        }
    }

    /// Reads the store's clock, in nanoseconds since the store was made. The
    /// store never goes back in time: where the clock shows less than the
    /// latest time read, that time is read again.
    pub(crate) fn now(&mut self) -> (now: u128)
        ensures
            now >= old(self).latest(),
            final(self).latest() == now,
            final(self).same_but_latest(old(self)),
            final(self).latest() >= old(self).latest(),
    {
        let reading = self.started.elapsed().as_nanos();
        if reading > self.latest {
            self.latest = reading;
        }
        self.latest
    }

    /// Stores `image` under `image_id` at the time `now`, and returns the
    /// image that was there.
    pub fn put_image_at(
        &mut self,
        image_id: String,
        image: Vec<u8>,
        now: u128,
    ) -> (previous: Option<Vec<u8>>)
        requires
            old(self).wf(),
        ensures
            final(self).wf(),
            final(self).same_but_images(old(self)),
            final(self).latest() == old(self).latest(),
            final(self).images() == old(self).images().insert(image_id@, stamped(image, now)),
            previous == data_of(old(self).images(), image_id@),
    {
        match self.images.insert(image_id, EntryWithTimestamp::new(image, now)) {
            Some(entry) => Some(entry.data),
            None => None,
        }
    }

    /// Stores `image` under `image_id` at the present time, and returns the
    /// image that was there.
    pub fn put_image(&mut self, image_id: String, image: Vec<u8>) -> (previous: Option<Vec<u8>>)
        requires
            old(self).wf(),
        ensures
            final(self).wf(),
            final(self).same_but_images(old(self)),
            final(self).latest() >= old(self).latest(),
            final(self).images() == old(self).images().insert(
                image_id@,
                stamped(image, final(self).latest()),
            ),
            previous == data_of(old(self).images(), image_id@),
    {
        let now = self.now();
        self.put_image_at(image_id, image, now)
    }

    /// A copy of the image under `image_id`, if there is one.
    pub fn get_image(&self, image_id: &str) -> (image: Option<Vec<u8>>)
        requires
            self.wf(),
        ensures
            bytes_view(image) == bytes_of(self.images(), image_id@),
    {
        match self.images.get(image_id) {
            Some(entry) => Some(entry.data.clone()),
            None => None,
        }
    }

    /// Stores `input` under `input_id` at the time `now`, and returns the
    /// input that was there.
    pub fn put_input_at(
        &mut self,
        input_id: String,
        input: Vec<u8>,
        now: u128,
    ) -> (previous: Option<Vec<u8>>)
        requires
            old(self).wf(),
        ensures
            final(self).wf(),
            final(self).same_but_inputs(old(self)),
            final(self).latest() == old(self).latest(),
            final(self).inputs() == old(self).inputs().insert(input_id@, stamped(input, now)),
            previous == data_of(old(self).inputs(), input_id@),
    {
        match self.inputs.insert(input_id, EntryWithTimestamp::new(input, now)) {
            Some(entry) => Some(entry.data),
            None => None,
        }
    }

    /// Stores `input` under `input_id` at the present time, and returns the
    /// input that was there.
    pub fn put_input(&mut self, input_id: String, input: Vec<u8>) -> (previous: Option<Vec<u8>>)
        requires
            old(self).wf(),
        ensures
            final(self).wf(),
            final(self).same_but_inputs(old(self)),
            final(self).latest() >= old(self).latest(),
            final(self).inputs() == old(self).inputs().insert(
                input_id@,
                stamped(input, final(self).latest()),
            ),
            previous == data_of(old(self).inputs(), input_id@),
    {
        let now = self.now();
        self.put_input_at(input_id, input, now)
    }

    /// A copy of the input under `input_id`, if there is one.
    pub fn get_input(&self, input_id: &str) -> (input: Option<Vec<u8>>)
        requires
            self.wf(),
        ensures
            bytes_view(input) == bytes_of(self.inputs(), input_id@),
    {
        match self.inputs.get(input_id) {
            Some(entry) => Some(entry.data.clone()),
            None => None,
        }
    }

    /// Stores a session's status and statistics under `session_id` at the
    /// time `now`, and returns what was there.
    pub fn put_session_at(
        &mut self,
        session_id: String,
        status: SessionStatus,
        stats: Option<SessionStats>,
        now: u128,
    ) -> (previous: Option<Session>)
        requires
            old(self).wf(),
        ensures
            final(self).wf(),
            final(self).same_but_sessions(old(self)),
            final(self).latest() == old(self).latest(),
            final(self).sessions() == old(self).sessions().insert(
                session_id@,
                stamped((status, stats), now),
            ),
            previous == data_of(old(self).sessions(), session_id@),
    {
        match self.sessions.insert(session_id, EntryWithTimestamp::new((status, stats), now)) {
            Some(entry) => Some(entry.data),
            None => None,
        }
    }

    /// Stores a session's status and statistics under `session_id` at the
    /// present time, and returns what was there.
    pub fn put_session(
        &mut self,
        session_id: String,
        status: SessionStatus,
        stats: Option<SessionStats>,
    ) -> (previous: Option<Session>)
        requires
            old(self).wf(),
        ensures
            final(self).wf(),
            final(self).same_but_sessions(old(self)),
            final(self).latest() >= old(self).latest(),
            final(self).sessions() == old(self).sessions().insert(
                session_id@,
                stamped((status, stats), final(self).latest()),
            ),
            previous == data_of(old(self).sessions(), session_id@),
    {
        let now = self.now();
        self.put_session_at(session_id, status, stats, now)
    }

    /// The session under `session_id`, if there is one.
    pub fn get_session(&self, session_id: &str) -> (session: Option<&Session>)
        requires
            self.wf(),
        ensures
            match session {
                Some(session) => data_of(self.sessions(), session_id@) == Some(*session),
                None => data_of(self.sessions(), session_id@) is None,
            },
    {
        match self.sessions.get(session_id) {
            Some(entry) => Some(&entry.data),
            None => None,
        }
    }

    /// Stores `receipt` under `session_id` at the time `now`, and returns the
    /// receipt that was there.
    pub fn put_receipt_at(
        &mut self,
        session_id: String,
        receipt: Vec<u8>,
        now: u128,
    ) -> (previous: Option<Vec<u8>>)
        requires
            old(self).wf(),
        ensures
            final(self).wf(),
            final(self).same_but_receipts(old(self)),
            final(self).latest() == old(self).latest(),
            final(self).receipts() == old(self).receipts().insert(
                session_id@,
                stamped(receipt, now),
            ),
            previous == data_of(old(self).receipts(), session_id@),
    {
        match self.receipts.insert(session_id, EntryWithTimestamp::new(receipt, now)) {
            Some(entry) => Some(entry.data),
            None => None,
        }
    }

    /// Stores `receipt` under `session_id` at the present time, and returns
    /// the receipt that was there.
    pub fn put_receipt(
        &mut self,
        session_id: String,
        receipt: Vec<u8>,
    ) -> (previous: Option<Vec<u8>>)
        requires
            old(self).wf(),
        ensures
            final(self).wf(),
            final(self).same_but_receipts(old(self)),
            final(self).latest() >= old(self).latest(),
            final(self).receipts() == old(self).receipts().insert(
                session_id@,
                stamped(receipt, final(self).latest()),
            ),
            previous == data_of(old(self).receipts(), session_id@),
    {
        let now = self.now();
        self.put_receipt_at(session_id, receipt, now)
    }

    /// A copy of the receipt under `session_id`, if there is one.
    pub fn get_receipt(&self, session_id: &str) -> (receipt: Option<Vec<u8>>)
        requires
            self.wf(),
        ensures
            bytes_view(receipt) == bytes_of(self.receipts(), session_id@),
    {
        match self.receipts.get(session_id) {
            Some(entry) => Some(entry.data.clone()),
            None => None,
        }
    }

    /// The store's URL as text, without a slash at its end.
    pub fn get_url(&self) -> (text: String)
        ensures
            text@ == trim_end_matches(self.url().href, CharClass::Only('/')),
    {
        String::from_str(without_trailing(self.url.as_str(), '/'))
    }

    /// Drops from all four collections the entries that are older than the
    /// store's time to live at the time `now`.
    pub fn cleanup_expired_at(&mut self, now: u128)
        requires
            old(self).wf(),
        ensures
            final(self).wf(),
            final(self).is_swept(old(self), now),
            final(self).latest() == old(self).latest(),
    {
        let ttl = self.ttl;
        self.images.sweep(ttl, now);
        self.inputs.sweep(ttl, now);
        self.sessions.sweep(ttl, now);
        self.receipts.sweep(ttl, now);
    }

    /// Drops from all four collections the entries that are older than the
    /// store's time to live at the present time.
    pub fn cleanup_expired(&mut self)
        requires
            old(self).wf(),
        ensures
            final(self).wf(),
            final(self).latest() >= old(self).latest(),
            final(self).is_swept(old(self), final(self).latest()),
    {
        let now = self.now();
        self.cleanup_expired_at(now);
    }
}

} // verus!
