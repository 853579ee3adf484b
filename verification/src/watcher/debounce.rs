//! Coalescing of changes: of a burst of changes to one path only the last is
//! passed on, once the path has been quiet for the debounce duration.
//!
//! The debouncer keeps the books. For each change it hands out a ticket; the
//! caller cancels the timer of the ticket that the change supersedes, starts
//! one for the new ticket, and reports back when a timer has run out. A timer
//! whose ticket is no longer in the books passes nothing on.

use std::time::Duration;
use vstd::prelude::*;
use crate::watcher::event::{Change, ChangeKind};

verus! {

/// The change in flight for one path.
#[derive(Debug)]
pub struct DebounceEntry {
    /// The path that changed.
    pub path: String,
    /// The kind of the latest change to it.
    pub kind: ChangeKind,
    /// The ticket of the timer that runs for it.
    pub ticket: u64,
}

/// What to do with the timers after a change came in.
#[derive(Clone, Copy, Debug)]
pub struct Armed {
    /// The ticket to start a timer for.
    pub ticket: u64,
    /// The ticket of the timer to cancel, where the path had one running.
    pub cancelled: Option<u64>,
}

/// The changes in flight, with their timers' tickets.
pub struct Debouncer {
    entries: Vec<DebounceEntry>,
    issued: u64,
    duration: Duration,
}

// The books.

/// The books of a debouncer as plain values: the kind and ticket in flight
/// for each path, and the number of tickets handed out.
pub struct DebounceState {
    pub pending: Map<Seq<char>, (ChangeKind, nat)>,
    pub issued: nat,
}

/// The kind and ticket in flight for each path among `entries`; of two
/// entries for one path the later one counts.
pub open spec fn pending_of(entries: Seq<DebounceEntry>) -> Map<Seq<char>, (ChangeKind, nat)>
    decreases entries.len(),
{
    if entries.len() == 0 {
        Map::empty()
    } else {
        pending_of(entries.drop_last()).insert(
            entries.last().path@,
            (entries.last().kind, entries.last().ticket as nat),
        )
    }
}

/// No two of `entries` are for the same path.
pub open spec fn distinct_paths(entries: Seq<DebounceEntry>) -> bool {
    forall|i: int, j: int|
        0 <= i < entries.len() && 0 <= j < entries.len() && i != j ==> (#[trigger] entries[i]).path@
            != (#[trigger] entries[j]).path@
}

/// The tickets of the changes in flight.
pub open spec fn tickets_in_flight(s: DebounceState) -> Set<nat> {
    Set::new(
        |t: nat|
            exists|p: Seq<char>| s.pending.dom().contains(p) && (#[trigger] s.pending[p]).1 == t,
    )
}

/// The books after a change of the given kind to `path` came in: the path's
/// entry holds the new kind and a fresh ticket.
pub open spec fn after_event(s: DebounceState, kind: ChangeKind, path: Seq<char>) -> DebounceState {
    DebounceState { pending: s.pending.insert(path, (kind, s.issued)), issued: s.issued + 1 }
}

/// The ticket that a change to `path` supersedes.
pub open spec fn superseded(s: DebounceState, path: Seq<char>) -> Option<nat> {
    if s.pending.dom().contains(path) {
        Some(s.pending[path].1)
    } else {
        None
    }
}

/// What the timer with the given ticket for `path` passes on when it runs
/// out: the change in flight, if the ticket is still the path's own.
pub open spec fn emitted(s: DebounceState, path: Seq<char>, ticket: nat) -> Option<
    (ChangeKind, Seq<char>),
> {
    if s.pending.dom().contains(path) && s.pending[path].1 == ticket {
        Some((s.pending[path].0, path))
    } else {
        None
    }
}

/// The books after the timer with the given ticket for `path` ran out: the
/// entry is gone if the ticket was the path's own.
pub open spec fn after_timer(s: DebounceState, path: Seq<char>, ticket: nat) -> DebounceState {
    if emitted(s, path, ticket) is Some {
        DebounceState { pending: s.pending.remove(path), issued: s.issued }
    } else {
        s
    }
}

/// The books after one change to `path` for each of `kinds` came in, in
/// order, with no timer running out in between.
pub open spec fn after_burst(s: DebounceState, path: Seq<char>, kinds: Seq<ChangeKind>) -> DebounceState
    decreases kinds.len(),
{
    if kinds.len() == 0 {
        s
    } else {
        after_event(after_burst(s, path, kinds.drop_last()), kinds.last(), path)
    }
}

// Results as plain values.

/// A change as kind and path text, where there is one.
pub open spec fn change_view(c: Option<Change>) -> Option<(ChangeKind, Seq<char>)> {
    match c {
        Some(change) => Some((change.kind, change.path@)),
        None => None,
    }
}

/// The tickets of a list, as numbers.
pub open spec fn ticket_set(tickets: Seq<u64>) -> Set<nat> {
    Set::new(|t: nat| exists|j: int| 0 <= j < tickets.len() && #[trigger] tickets[j] as nat == t)
}

/// The books that `entries` and the number of tickets handed out make.
pub open spec fn pending_state(entries: Seq<DebounceEntry>, issued: nat) -> DebounceState {
    DebounceState { pending: pending_of(entries), issued }
}

/// A ticket as a number, where there is one.
pub open spec fn ticket_view(t: Option<u64>) -> Option<nat> {
    match t {
        Some(ticket) => Some(ticket as nat),
        None => None,
    }
}

// The operations.

impl Debouncer {
    /// What holds of every debouncer: one entry for each path, and every
    /// ticket in the books is one that was handed out.
    #[verifier::type_invariant]
    closed spec fn inv(self) -> bool {
        &&& distinct_paths(self.entries@)
        &&& forall|i: int|
            0 <= i < self.entries@.len() ==> (#[trigger] self.entries@[i]).ticket < self.issued
    }

    /// The books as plain values.
    pub closed spec fn state(&self) -> DebounceState {
        pending_state(self.entries@, self.issued as nat)
    }

    /// The quiet time after which a change is passed on.
    pub closed spec fn quiet_time(&self) -> Duration {
        self.duration
    }

    /// A debouncer with nothing in flight, for the given quiet time.
    pub fn new(duration: Duration) -> (r: Debouncer)
        ensures
            r.state() == (DebounceState { pending: Map::empty(), issued: 0 }),
            r.quiet_time() == duration,
    {
        Debouncer { entries: Vec::new(), issued: 0, duration }
    }

    /// The quiet time after which a change is passed on.
    pub fn duration(&self) -> (r: Duration)
        ensures
            r == self.quiet_time(),
    {
        self.duration
    }

    /// Whether another ticket can be handed out.
    pub fn can_arm(&self) -> (r: bool)
        ensures
            r == (self.state().issued < u64::MAX),
    {
        self.issued < u64::MAX
    }

    /// The number of paths with a change in flight.
    pub fn in_flight(&self) -> (r: usize)
        ensures
            r == self.state().pending.dom().len(),
            self.state().pending.dom().finite(),
    {
        proof {
            use_type_invariant(self);
            lemma_pending_count(self.entries@);
        }
        self.entries.len()
    }

    /// Takes in a change of the given kind to `path`: whatever was in flight
    /// for the path is superseded, and the change waits under a fresh ticket.
    /// The caller cancels the timer of the superseded ticket and starts one
    /// for the new ticket. A ticket must be left to hand out (`can_arm`):
    /// tickets are 64-bit numbers, and none is handed out twice.
    pub fn on_event(&mut self, kind: ChangeKind, path: &str) -> (r: Armed)
        requires
            old(self).state().issued < u64::MAX,
        ensures
            final(self).state() == after_event(old(self).state(), kind, path@),
            final(self).quiet_time() == old(self).quiet_time(),
            r.ticket == old(self).state().issued,
            ticket_view(r.cancelled) == superseded(old(self).state(), path@),
    {
        proof {
            use_type_invariant(&*self);
        }
        let ghost before = self.entries@;
        let mut entries: Vec<DebounceEntry> = Vec::new();
        std::mem::swap(&mut self.entries, &mut entries);
        let key = path.to_string();
        let found = position(&entries, &key);
        let cancelled = match found {
            Some(i) => {
                proof {
                    lemma_pending_value(before, i as int);
                    lemma_pending_remove(before, i as int);
                }
                let old_entry = entries.remove(i);
                Some(old_entry.ticket)
            },
            None => {
                proof {
                    lemma_pending_dom(before, path@);
                }
                None
            },
        };
        let ghost middle = entries@;
        let ticket = self.issued;
        entries.push(DebounceEntry { path: key, kind, ticket });
        proof {
            assert(entries@.drop_last() =~= middle);
            assert(pending_of(middle) =~= pending_of(before).remove(path@));
            assert(pending_of(entries@) =~= pending_of(before).insert(
                path@,
                (kind, ticket as nat),
            ));
            lemma_pending_dom(middle, path@);
            assert forall|a: int, b: int|
                0 <= a < entries@.len() && 0 <= b < entries@.len() && a != b implies (
            #[trigger] entries@[a]).path@ != (#[trigger] entries@[b]).path@ by {
                if a < middle.len() {
                    assert(entries@[a] == middle[a]);
                }
                if b < middle.len() {
                    assert(entries@[b] == middle[b]);
                }
            }
            assert forall|i: int| 0 <= i < entries@.len() implies (#[trigger] entries@[i]).ticket
                < self.issued + 1 by {
                if i < middle.len() {
                    assert(entries@[i] == middle[i]);
                    match found {
                        Some(f) => {
                            let k = if i < f {
                                i
                            } else {
                                i + 1
                            };
                            assert(before[k] == middle[i]);
                        },
                        None => {
                            assert(before[i] == middle[i]);
                        },
                    }
                }
            }
        }
        self.issued = self.issued + 1;
        std::mem::swap(&mut self.entries, &mut entries);
        Armed { ticket, cancelled }
    }

    /// Takes in that the timer with the given ticket for `path` ran out. If
    /// the ticket is still the path's own, the change in flight is passed on
    /// and the path's entry is closed. A superseded ticket passes nothing on
    /// and changes nothing.
    pub fn on_timer(&mut self, path: &str, ticket: u64) -> (r: Option<Change>)
        ensures
            final(self).state() == after_timer(old(self).state(), path@, ticket as nat),
            final(self).quiet_time() == old(self).quiet_time(),
            change_view(r) == emitted(old(self).state(), path@, ticket as nat),
    {
        proof {
            use_type_invariant(&*self);
        }
        let ghost before = self.entries@;
        let mut entries: Vec<DebounceEntry> = Vec::new();
        std::mem::swap(&mut self.entries, &mut entries);
        let key = path.to_string();
        let found = position(&entries, &key);
        let passed_on = match found {
            Some(i) => {
                proof {
                    lemma_pending_value(before, i as int);
                    lemma_pending_remove(before, i as int);
                }
                if entries[i].ticket == ticket {
                    let entry = entries.remove(i);
                    proof {
                        assert forall|k: int| 0 <= k < entries@.len() implies (
                        #[trigger] entries@[k]).ticket < self.issued by {
                            let k0 = if k < i {
                                k
                            } else {
                                k + 1
                            };
                            assert(entries@[k] == before[k0]);
                        }
                    }
                    Some(Change { kind: entry.kind, path: entry.path })
                } else {
                    None
                }
            },
            None => {
                proof {
                    lemma_pending_dom(before, path@);
                }
                None
            },
        };
        std::mem::swap(&mut self.entries, &mut entries);
        passed_on
    }

    /// Ends the debouncing: every change still in flight is dropped, and the
    /// tickets of their timers come back for the caller to cancel. A timer
    /// that runs out after this passes nothing on. This is what happens to
    /// the changes that have not settled when the input of a debouncer
    /// closes: they are lost.
    pub fn abandon(&mut self) -> (r: Vec<u64>)
        ensures
            final(self).state() == (DebounceState {
                pending: Map::empty(),
                issued: old(self).state().issued,
            }),
            final(self).quiet_time() == old(self).quiet_time(),
            ticket_set(r@) == tickets_in_flight(old(self).state()),
    {
        proof {
            use_type_invariant(&*self);
        }
        let ghost before = self.entries@;
        let mut entries: Vec<DebounceEntry> = Vec::new();
        std::mem::swap(&mut self.entries, &mut entries);
        let mut tickets: Vec<u64> = Vec::new();
        let mut i: usize = 0;
        while i < entries.len()
            invariant
                i <= entries@.len(),
                entries@ == before,
                tickets@.len() == i,
                forall|j: int| 0 <= j < i ==> tickets@[j] == (#[trigger] before[j]).ticket,
            decreases entries@.len() - i,
        {
            tickets.push(entries[i].ticket);
            i += 1;
        }
        proof {
            let listed = ticket_set(tickets@);
            let flying = tickets_in_flight(pending_state(before, self.issued as nat));
            assert forall|t: nat| listed.contains(t) implies flying.contains(t) by {
                let j = choose|j: int| 0 <= j < tickets@.len() && tickets@[j] as nat == t;
                lemma_pending_value(before, j);
                assert(pending_of(before).dom().contains(before[j].path@) && pending_of(
                    before,
                )[before[j].path@].1 == t);
            }
            assert forall|t: nat| flying.contains(t) implies listed.contains(t) by {
                let p = choose|p: Seq<char>|
                    pending_of(before).dom().contains(p) && (#[trigger] pending_of(before)[p]).1
                        == t;
                lemma_pending_dom(before, p);
                let j = choose|j: int| 0 <= j < before.len() && (#[trigger] before[j]).path@ == p;
                lemma_pending_value(before, j);
                assert(0 <= j < tickets@.len() && tickets@[j] as nat == t);
            }
            assert(listed =~= flying);
        }
        tickets
    }
}

/// Index of the entry for `path` among `entries`, if the path has one.
fn position(entries: &Vec<DebounceEntry>, path: &String) -> (r: Option<usize>)
    ensures
        match r {
            Some(i) => i < entries@.len() && entries@[i as int].path@ == path@,
            None => forall|j: int| 0 <= j < entries@.len() ==> (#[trigger] entries@[j]).path@ != path@,
        },
{
    let mut i: usize = 0;
    while i < entries.len()
        invariant
            i <= entries@.len(),
            forall|j: int| 0 <= j < i ==> (#[trigger] entries@[j]).path@ != path@,
        decreases entries@.len() - i,
    {
        if entries[i].path == *path {
            return Some(i);
        }
        i += 1;
    }
    None
}

// Lemmas.

/// A path has an entry in the books exactly if one of the entries is for it.
pub proof fn lemma_pending_dom(entries: Seq<DebounceEntry>, path: Seq<char>)
    ensures
        pending_of(entries).dom().contains(path) <==> exists|i: int|
            0 <= i < entries.len() && (#[trigger] entries[i]).path@ == path,
    decreases entries.len(),
{
    if entries.len() > 0 {
        let rest = entries.drop_last();
        lemma_pending_dom(rest, path);
        if pending_of(entries).dom().contains(path) {
            if entries.last().path@ == path {
                assert(entries[entries.len() - 1].path@ == path);
            } else {
                let i = choose|i: int| 0 <= i < rest.len() && (#[trigger] rest[i]).path@ == path;
                assert(entries[i].path@ == path);
            }
        }
        if exists|i: int| 0 <= i < entries.len() && (#[trigger] entries[i]).path@ == path {
            let i = choose|i: int| 0 <= i < entries.len() && (#[trigger] entries[i]).path@ == path;
            if i < rest.len() {
                assert(rest[i].path@ == path);
            }
        }
    }
}

/// With one entry for each path, the books hold each entry's kind and ticket.
pub proof fn lemma_pending_value(entries: Seq<DebounceEntry>, i: int)
    requires
        distinct_paths(entries),
        0 <= i < entries.len(),
    ensures
        pending_of(entries).dom().contains(entries[i].path@),
        pending_of(entries)[entries[i].path@] == (entries[i].kind, entries[i].ticket as nat),
    decreases entries.len(),
{
    let rest = entries.drop_last();
    if i < entries.len() - 1 {
        assert(distinct_paths(rest)) by {
            assert forall|a: int, b: int|
                0 <= a < rest.len() && 0 <= b < rest.len() && a != b implies (#[trigger] rest[a]).path@
                != (#[trigger] rest[b]).path@ by {
                assert(rest[a] == entries[a]);
                assert(rest[b] == entries[b]);
            }
        }
        lemma_pending_value(rest, i);
        assert(rest[i] == entries[i]);
        assert(entries[i].path@ != entries[entries.len() - 1].path@);
    }
}

/// With one entry for each path, taking an entry out takes its path out of
/// the books and leaves the rest.
pub proof fn lemma_pending_remove(entries: Seq<DebounceEntry>, i: int)
    requires
        distinct_paths(entries),
        0 <= i < entries.len(),
    ensures
        distinct_paths(entries.remove(i)),
        pending_of(entries.remove(i)) =~= pending_of(entries).remove(entries[i].path@),
    decreases entries.len(),
{
    let shorter = entries.remove(i);
    assert forall|a: int, b: int|
        0 <= a < shorter.len() && 0 <= b < shorter.len() && a != b implies (#[trigger] shorter[a]).path@
        != (#[trigger] shorter[b]).path@ by {
        let a0 = if a < i {
            a
        } else {
            a + 1
        };
        let b0 = if b < i {
            b
        } else {
            b + 1
        };
        assert(shorter[a] == entries[a0]);
        assert(shorter[b] == entries[b0]);
    }
    let rest = entries.drop_last();
    if i == entries.len() - 1 {
        assert(shorter =~= rest);
        lemma_pending_dom(rest, entries[i].path@);
        if pending_of(rest).dom().contains(entries[i].path@) {
            let k = choose|k: int| 0 <= k < rest.len() && (#[trigger] rest[k]).path@ == entries[i].path@;
            assert(entries[k].path@ == entries[i].path@);
        }
    } else {
        assert(distinct_paths(rest)) by {
            assert forall|a: int, b: int|
                0 <= a < rest.len() && 0 <= b < rest.len() && a != b implies (#[trigger] rest[a]).path@
                != (#[trigger] rest[b]).path@ by {
                assert(rest[a] == entries[a]);
                assert(rest[b] == entries[b]);
            }
        }
        lemma_pending_remove(rest, i);
        assert(rest[i] == entries[i]);
        assert(shorter.drop_last() =~= rest.remove(i));
        assert(shorter.last() == entries.last());
        assert(entries[i].path@ != entries[entries.len() - 1].path@);
    }
}

/// With one entry for each path, the books hold as many paths as there are
/// entries.
pub proof fn lemma_pending_count(entries: Seq<DebounceEntry>)
    requires
        distinct_paths(entries),
    ensures
        pending_of(entries).dom().finite(),
        pending_of(entries).dom().len() == entries.len(),
    decreases entries.len(),
{
    if entries.len() > 0 {
        let rest = entries.drop_last();
        assert(distinct_paths(rest)) by {
            assert forall|a: int, b: int|
                0 <= a < rest.len() && 0 <= b < rest.len() && a != b implies (#[trigger] rest[a]).path@
                != (#[trigger] rest[b]).path@ by {
                assert(rest[a] == entries[a]);
                assert(rest[b] == entries[b]);
            }
        }
        lemma_pending_count(rest);
        lemma_pending_dom(rest, entries.last().path@);
        if pending_of(rest).dom().contains(entries.last().path@) {
            let k = choose|k: int|
                0 <= k < rest.len() && (#[trigger] rest[k]).path@ == entries.last().path@;
            assert(entries[k].path@ == entries[entries.len() - 1].path@);
        }
        assert(pending_of(entries).dom() =~= pending_of(rest).dom().insert(entries.last().path@));
    } else {
        assert(pending_of(entries).dom() =~= Set::<Seq<char>>::empty());
    }
}

/// A burst of changes to one path leaves the path with the kind of the last
/// change under the last ticket handed out, and the rest of the books as
/// they were.
pub proof fn lemma_after_burst(s: DebounceState, path: Seq<char>, kinds: Seq<ChangeKind>)
    requires
        kinds.len() > 0,
    ensures
        after_burst(s, path, kinds) == (DebounceState {
            pending: s.pending.insert(
                path,
                (kinds.last(), (s.issued + kinds.len() - 1) as nat),
            ),
            issued: s.issued + kinds.len(),
        }),
    decreases kinds.len(),
{
    let before = after_burst(s, path, kinds.drop_last());
    if kinds.len() > 1 {
        lemma_after_burst(s, path, kinds.drop_last());
    }
    assert(after_burst(s, path, kinds).pending =~= s.pending.insert(
        path,
        (kinds.last(), (s.issued + kinds.len() - 1) as nat),
    ));
}

// Laws.

/// Of a burst of changes to one path, exactly one is passed on, and it
/// carries the kind of the last. The burst ends with the last ticket handed
/// out as the path's own: every other ticket for the path passes nothing on
/// and changes nothing, the last one passes on the last kind, and after it
/// the path has nothing in flight. What other paths have in flight is not
/// touched.
pub proof fn law_burst_passes_on_the_last(s: DebounceState, path: Seq<char>, kinds: Seq<ChangeKind>)
    requires
        kinds.len() > 0,
    ensures
        ({
            let end = after_burst(s, path, kinds);
            let last = (s.issued + kinds.len() - 1) as nat;
            &&& end.issued == s.issued + kinds.len()
            &&& forall|t: nat| t != last ==> emitted(end, path, t) is None
            &&& forall|t: nat| t != last ==> after_timer(end, path, t) == end
            &&& emitted(end, path, last) == Some((kinds.last(), path))
            &&& !after_timer(end, path, last).pending.dom().contains(path)
            &&& forall|t: nat| emitted(after_timer(end, path, last), path, t) is None
            &&& forall|other: Seq<char>|
                other != path ==> (end.pending.dom().contains(other) <==> s.pending.dom().contains(
                    other,
                )) && (s.pending.dom().contains(other) ==> end.pending[other] == s.pending[other])
        }),
{
    lemma_after_burst(s, path, kinds);
}

/// With nothing in flight no timer passes anything on, whatever its ticket:
/// what was abandoned is lost.
pub proof fn law_abandoned_changes_are_lost(issued: nat, path: Seq<char>, ticket: nat)
    ensures
        emitted(DebounceState { pending: Map::empty(), issued }, path, ticket) is None,
        after_timer(DebounceState { pending: Map::empty(), issued }, path, ticket) == (
        DebounceState { pending: Map::empty(), issued }),
{
}

/// Within a burst each change after the first supersedes the ticket of the
/// change before it.
pub proof fn law_burst_supersedes(s: DebounceState, path: Seq<char>, kinds: Seq<ChangeKind>)
    requires
        kinds.len() > 0,
    ensures
        superseded(after_burst(s, path, kinds), path) == Some(
            (s.issued + kinds.len() - 1) as nat,
        ),
{
    law_burst_passes_on_the_last(s, path, kinds);
}

} // verus!
