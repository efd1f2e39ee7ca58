//! The streams of the server's stream threads: the listen thread keeps
//! them in a list it walks in order, the send thread in a table with at most
//! one stream per client.

use vstd::prelude::*;
use crate::link::WriteOutcome;
use crate::network::ClientID;
use crate::seqs::lemma_filter_members;

verus! {

/// The predicate "belongs to none of `ids`", the filter that dropping the
/// streams of disconnected clients applies.
pub open spec fn not_among<H>(ids: Seq<ClientID>) -> spec_fn((ClientID, H)) -> bool {
    |e: (ClientID, H)| !ids.contains(e.0)
}

/// Whether `id` occurs in `ids`.
fn contains_id(ids: &Vec<ClientID>, id: ClientID) -> (r: bool)
    ensures
        r == ids@.contains(id),
{
    let mut i: usize = 0;
    while i < ids.len()
        invariant
            i <= ids.len(),
            forall|j: int| 0 <= j < i ==> ids@[j] != id,
        decreases ids.len() - i,
    {
        if ids[i].0 == id.0 {
            assert(ids@[i as int] == id);
            return true;
        }
        i = i + 1;
    }
    false
}

/// The streams of the server's listen thread, each with the client it
/// belongs to, in the order they were registered.
pub struct ListenStreams<H> {
    entries: Vec<(ClientID, H)>,
}

impl<H> View for ListenStreams<H> {
    type V = Seq<(ClientID, H)>;

    closed spec fn view(&self) -> Seq<(ClientID, H)> {
        self.entries@
    }
}

impl<H> ListenStreams<H> {
    /// No streams.
    pub fn new() -> (s: Self)
        ensures
            s@ == Seq::<(ClientID, H)>::empty(),
    {
        ListenStreams { entries: Vec::new() }
    }

    /// Starts reading from `stream`, the connection of client `id`.
    pub fn register(&mut self, id: ClientID, stream: H)
        ensures
            final(self)@ == old(self)@.push((id, stream)),
    {
        self.entries.push((id, stream));
    }

    /// The number of streams.
    pub fn len(&self) -> (n: usize)
        ensures
            n == self@.len(),
    {
        self.entries.len()
    }

    /// The client of the `i`-th stream.
    pub fn id_at(&self, i: usize) -> (id: ClientID)
        requires
            i < self@.len(),
        ensures
            id == self@[i as int].0,
    {
        self.entries[i].0
    }

    /// The `i`-th stream, to read from.
    pub fn stream_mut(&mut self, i: usize) -> (r: &mut H)
        requires
            i < old(self)@.len(),
        ensures
            *r == old(self)@[i as int].1,
            final(self)@ == old(self)@.update(i as int, (old(self)@[i as int].0, *final(r))),
    {
        &mut self.entries[i].1
    }

    /// Drops the streams of the clients in `ids`; the others stay, in order.
    pub fn remove_clients(&mut self, ids: &Vec<ClientID>)
        ensures
            final(self)@ == old(self)@.filter(not_among::<H>(ids@)),
    {
        let mut rest: Vec<(ClientID, H)> = Vec::new();
        std::mem::swap(&mut rest, &mut self.entries);
        let ghost orig = rest@;
        let ghost mut k: int = 0;
        while rest.len() > 0
            invariant
                0 <= k <= orig.len(),
                rest@ == orig.skip(k),
                self.entries@ == orig.take(k).filter(not_among::<H>(ids@)),
            decreases rest.len(),
        {
            let e = rest.remove(0);
            proof {
                reveal(Seq::filter);
                assert(orig.take(k + 1).drop_last() =~= orig.take(k));
                assert(orig.take(k + 1).last() == e);
                assert(orig.skip(k + 1) =~= orig.skip(k).remove(0));
            }
            if !contains_id(ids, e.0) {
                self.entries.push(e);
            }
            proof {
                k = k + 1;
            }
        }
        assert(orig.take(k) =~= orig);
    }
}
/// Dropping the streams of the clients in `ids` leaves no stream of theirs
/// and keeps every stream of any other client.
pub proof fn lemma_remove_clients_exact<H>(streams: Seq<(ClientID, H)>, ids: Seq<ClientID>, e: (ClientID, H))
    ensures
        streams.filter(not_among::<H>(ids)).contains(e) <==> (streams.contains(e) && !ids.contains(e.0)),
{
    lemma_filter_members(streams, not_among::<H>(ids), e);
}
/// Whether some entry of `entries` belongs to client `k`.
pub open spec fn has_entry<H>(entries: Seq<(ClientID, H)>, k: ClientID) -> bool {
    exists|i: int| 0 <= i < entries.len() && #[trigger] entries[i].0 == k
}

/// The position of an entry of client `k` in `entries`.
pub open spec fn entry_index<H>(entries: Seq<(ClientID, H)>, k: ClientID) -> int {
    choose|i: int| 0 <= i < entries.len() && #[trigger] entries[i].0 == k
}

/// No client has two entries.
pub open spec fn unique_clients<H>(entries: Seq<(ClientID, H)>) -> bool {
    forall|i: int, j: int|
        0 <= i < entries.len() && 0 <= j < entries.len() && i != j ==> #[trigger] entries[i].0
            != #[trigger] entries[j].0
}

/// The map from client to stream that a list of entries without repeated
/// clients stands for.
pub open spec fn entries_map<H>(entries: Seq<(ClientID, H)>) -> Map<ClientID, H> {
    Map::new(|k: ClientID| has_entry(entries, k), |k: ClientID| entries[entry_index(entries, k)].1)
}

/// The map that collecting `pairs` into a map gives: a later pair for the
/// same client replaces an earlier one.
pub open spec fn collect_map<H>(pairs: Seq<(ClientID, H)>) -> Map<ClientID, H>
    decreases pairs.len(),
{
    if pairs.len() == 0 {
        Map::empty()
    } else {
        collect_map(pairs.drop_last()).insert(pairs.last().0, pairs.last().1)
    }
}

/// In a list without repeated clients, the entry of a client is the one at
/// any position that holds that client.
proof fn lemma_entry_index_unique<H>(entries: Seq<(ClientID, H)>, i: int)
    requires
        unique_clients(entries),
        0 <= i < entries.len(),
    ensures
        has_entry(entries, entries[i].0),
        entry_index(entries, entries[i].0) == i,
{
    let k = entries[i].0;
    assert(entries[i].0 == k);
    let j = entry_index(entries, k);
    assert(0 <= j < entries.len() && entries[j].0 == k);
}

/// Giving a client that has an entry a new stream changes the map at that
/// client only.
proof fn lemma_map_update<H>(entries: Seq<(ClientID, H)>, i: int, id: ClientID, stream: H)
    requires
        unique_clients(entries),
        0 <= i < entries.len(),
        entries[i].0 == id,
    ensures
        unique_clients(entries.update(i, (id, stream))),
        entries_map(entries.update(i, (id, stream))) == entries_map(entries).insert(id, stream),
{
    let new_entries = entries.update(i, (id, stream));
    assert forall|a: int, b: int|
        0 <= a < new_entries.len() && 0 <= b < new_entries.len() && a != b implies
        #[trigger] new_entries[a].0 != #[trigger] new_entries[b].0 by {
        assert(entries[a].0 == new_entries[a].0);
        assert(entries[b].0 == new_entries[b].0);
    }
    assert forall|k: ClientID| #[trigger] has_entry(new_entries, k) == has_entry(entries, k) by {
        if has_entry(new_entries, k) {
            let a = entry_index(new_entries, k);
            assert(entries[a].0 == k);
        }
        if has_entry(entries, k) {
            let a = entry_index(entries, k);
            assert(new_entries[a].0 == k);
        }
    }
    assert forall|k: ClientID| #[trigger] has_entry(entries, k) && k != id implies
        entry_index(new_entries, k) == entry_index(entries, k) && entry_index(entries, k) != i by {
        let a = entry_index(entries, k);
        assert(new_entries[a].0 == k);
        lemma_entry_index_unique(new_entries, a);
    }
    lemma_entry_index_unique(new_entries, i);
    assert(entries_map(new_entries) =~= entries_map(entries).insert(id, stream));
}

/// Adding an entry for a client without one extends the map by that client.
proof fn lemma_map_push<H>(entries: Seq<(ClientID, H)>, id: ClientID, stream: H)
    requires
        unique_clients(entries),
        !has_entry(entries, id),
    ensures
        unique_clients(entries.push((id, stream))),
        entries_map(entries.push((id, stream))) == entries_map(entries).insert(id, stream),
{
    let new_entries = entries.push((id, stream));
    assert forall|a: int, b: int|
        0 <= a < new_entries.len() && 0 <= b < new_entries.len() && a != b implies
        #[trigger] new_entries[a].0 != #[trigger] new_entries[b].0 by {
        if a < entries.len() && b < entries.len() {
            assert(entries[a].0 != entries[b].0);
        } else if a < entries.len() {
            assert(entries[a].0 != id);
        } else {
            assert(entries[b].0 != id);
        }
    }
    assert forall|k: ClientID| #[trigger] has_entry(new_entries, k) == (has_entry(entries, k) || k == id) by {
        if has_entry(new_entries, k) && k != id {
            let a = entry_index(new_entries, k);
            assert(entries[a].0 == k);
        }
        if has_entry(entries, k) {
            let a = entry_index(entries, k);
            assert(new_entries[a].0 == k);
        }
        if k == id {
            assert(new_entries[entries.len() as int].0 == k);
        }
    }
    assert forall|k: ClientID| #[trigger] has_entry(entries, k) implies
        entry_index(new_entries, k) == entry_index(entries, k) by {
        let a = entry_index(entries, k);
        assert(new_entries[a].0 == k);
        lemma_entry_index_unique(new_entries, a);
    }
    lemma_entry_index_unique(new_entries, entries.len() as int);
    assert(entries_map(new_entries) =~= entries_map(entries).insert(id, stream));
}

/// Dropping the entry at `i` removes its client from the map and nothing else.
proof fn lemma_map_remove<H>(entries: Seq<(ClientID, H)>, i: int)
    requires
        unique_clients(entries),
        0 <= i < entries.len(),
    ensures
        unique_clients(entries.remove(i)),
        entries_map(entries.remove(i)) == entries_map(entries).remove(entries[i].0),
{
    let id = entries[i].0;
    let new_entries = entries.remove(i);
    assert forall|a: int| 0 <= a < new_entries.len() implies
        #[trigger] new_entries[a] == entries[if a < i { a } else { a + 1 }] by {}
    assert forall|a: int, b: int|
        0 <= a < new_entries.len() && 0 <= b < new_entries.len() && a != b implies
        #[trigger] new_entries[a].0 != #[trigger] new_entries[b].0 by {
        let a2 = if a < i { a } else { a + 1 };
        let b2 = if b < i { b } else { b + 1 };
        assert(new_entries[a] == entries[a2]);
        assert(new_entries[b] == entries[b2]);
    }
    assert forall|k: ClientID| #[trigger] has_entry(new_entries, k) == (has_entry(entries, k) && k != id) by {
        if has_entry(new_entries, k) {
            let a = entry_index(new_entries, k);
            let a2 = if a < i { a } else { a + 1 };
            assert(new_entries[a] == entries[a2]);
            assert(entries[a2].0 == k);
            assert(a2 != i);
        }
        if has_entry(entries, k) && k != id {
            let a = entry_index(entries, k);
            assert(a != i);
            let a1 = if a < i { a } else { a - 1 };
            assert(new_entries[a1] == entries[a]);
            assert(new_entries[a1].0 == k);
        }
    }
    assert forall|k: ClientID| #[trigger] has_entry(new_entries, k) implies
        new_entries[entry_index(new_entries, k)] == entries[entry_index(entries, k)] by {
        let a = entry_index(new_entries, k);
        let a2 = if a < i { a } else { a + 1 };
        assert(new_entries[a] == entries[a2]);
        lemma_entry_index_unique(entries, a2);
    }
    assert(entries_map(new_entries) =~= entries_map(entries).remove(id));
}

/// Clients paired with streams, position by position.
pub open spec fn pair_up<H>(ids: Seq<ClientID>, streams: Seq<H>) -> Seq<(ClientID, H)> {
    Seq::new(ids.len(), |i: int| (ids[i], streams[i]))
}

/// The streams of the server's send thread, at most one per client.
pub struct SendStreams<H> {
    ids: Vec<ClientID>,
    streams: Vec<H>,
}

impl<H> SendStreams<H> {
    /// The entries, each client paired with its stream.
    closed spec fn entries(&self) -> Seq<(ClientID, H)> {
        pair_up(self.ids@, self.streams@)
    }

    /// Giving the `i`-th client any stream `h` changes the map at that client
    /// only.
    proof fn lemma_any_stream_update(&self, i: int)
        requires
            self.no_repeated_client(),
            0 <= i < self.ids@.len(),
        ensures
            forall|h: H| #[trigger] entries_map(pair_up(self.ids@, self.streams@.update(i, h)))
                == entries_map(self.entries()).insert(self.ids@[i], h),
    {
        self.lemma_entries_unique();
        assert forall|h: H| #[trigger] entries_map(pair_up(self.ids@, self.streams@.update(i, h)))
            == entries_map(self.entries()).insert(self.ids@[i], h) by {
            lemma_map_update(self.entries(), i, self.ids@[i], h);
            assert(pair_up(self.ids@, self.streams@.update(i, h)) =~= self.entries().update(i, (self.ids@[i], h)));
        }
    }

    #[verifier::type_invariant]
    closed spec fn no_repeated_client(&self) -> bool {
        &&& self.ids@.len() == self.streams@.len()
        &&& forall|i: int, j: int|
            0 <= i < self.ids@.len() && 0 <= j < self.ids@.len() && i != j ==> #[trigger] self.ids@[i]
                != #[trigger] self.ids@[j]
    }

    /// The invariant, read over the entries.
    proof fn lemma_entries_unique(&self)
        requires
            self.no_repeated_client(),
        ensures
            unique_clients(self.entries()),
            self.entries().len() == self.ids@.len(),
            forall|i: int| 0 <= i < self.ids@.len() ==> #[trigger] self.entries()[i] == (self.ids@[i], self.streams@[i]),
    {
        assert forall|i: int, j: int|
            0 <= i < self.entries().len() && 0 <= j < self.entries().len() && i != j implies
            #[trigger] self.entries()[i].0 != #[trigger] self.entries()[j].0 by {
            assert(self.ids@[i] != self.ids@[j]);
        }
    }

    /// Takes the fields out, leaving an empty table behind.
    fn take_parts(&mut self) -> (parts: (Vec<ClientID>, Vec<H>))
        ensures
            parts.0@.len() == parts.1@.len(),
            pair_up(parts.0@, parts.1@) == old(self).entries(),
            unique_clients(old(self).entries()),
            final(self)@ == Map::<ClientID, H>::empty(),
    {
        proof {
            use_type_invariant(&*self);
            self.lemma_entries_unique();
        }
        let mut taken = SendStreams::new();
        std::mem::swap(&mut taken, self);
        let SendStreams { ids, streams } = taken;
        assert(pair_up(ids@, streams@) =~= old(self).entries());
        (ids, streams)
    }

    /// Puts back fields whose entries name no client twice.
    fn put_parts(&mut self, ids: Vec<ClientID>, streams: Vec<H>)
        requires
            ids@.len() == streams@.len(),
            unique_clients(pair_up(ids@, streams@)),
        ensures
            final(self).entries() == pair_up(ids@, streams@),
    {
        let ghost e = pair_up(ids@, streams@);
        assert forall|i: int, j: int|
            0 <= i < ids@.len() && 0 <= j < ids@.len() && i != j implies #[trigger] ids@[i]
                != #[trigger] ids@[j] by {
            assert(e[i].0 != e[j].0);
        }
        *self = SendStreams { ids, streams };
    }
}

impl<H> View for SendStreams<H> {
    type V = Map<ClientID, H>;

    closed spec fn view(&self) -> Map<ClientID, H> {
        entries_map(self.entries())
    }
}

impl<H> SendStreams<H> {
    /// No streams.
    pub fn new() -> (s: Self)
        ensures
            s@ == Map::<ClientID, H>::empty(),
    {
        let s = SendStreams { ids: Vec::new(), streams: Vec::new() };
        assert(s.entries() =~= Seq::<(ClientID, H)>::empty());
        assert(s@ =~= Map::<ClientID, H>::empty());
        s
    }

    /// The table that collecting `pairs` gives: each client with the last
    /// stream `pairs` holds for it.
    pub fn from_streams(pairs: Vec<(ClientID, H)>) -> (s: Self)
        ensures
            s@ == collect_map(pairs@),
    {
        let mut s = SendStreams::new();
        let mut rest = pairs;
        let ghost orig = rest@;
        let ghost mut k: int = 0;
        assert(orig.take(0) =~= Seq::<(ClientID, H)>::empty());
        while rest.len() > 0
            invariant
                0 <= k <= orig.len(),
                rest@ == orig.skip(k),
                s@ == collect_map(orig.take(k)),
            decreases rest.len(),
        {
            let (id, stream) = rest.remove(0);
            proof {
                assert(orig.take(k + 1).drop_last() =~= orig.take(k));
                assert(orig.take(k + 1).last() == (id, stream));
                assert(orig.skip(k + 1) =~= orig.skip(k).remove(0));
            }
            s.register(id, stream);
            proof {
                k = k + 1;
            }
        }
        assert(orig.take(k) =~= orig);
        s
    }

    /// Acts on how writing a frame to client `id` went: a failed write of
    /// header or body means the client is gone, and its stream is dropped; a
    /// failed flush, or success, keeps it.
    pub fn handle_write(&mut self, id: ClientID, outcome: WriteOutcome)
        ensures
            outcome == WriteOutcome::HeaderFailed || outcome == WriteOutcome::BodyFailed ==> final(self)@
                == old(self)@.remove(id),
            outcome == WriteOutcome::Written || outcome == WriteOutcome::FlushFailed ==> final(self)@
                == old(self)@,
    {
        match outcome {
            WriteOutcome::HeaderFailed => self.remove(id),
            WriteOutcome::BodyFailed => self.remove(id),
            WriteOutcome::Written => {},
            WriteOutcome::FlushFailed => {},
        }
    }

    /// The position of the entry of client `id`, if it has one.
    fn position(&self, id: ClientID) -> (r: Option<usize>)
        ensures
            match r {
                Some(i) => i < self.entries().len() && self.entries()[i as int].0 == id,
                None => !has_entry(self.entries(), id),
            },
    {
        proof {
            use_type_invariant(self);
            self.lemma_entries_unique();
        }
        let mut i: usize = 0;
        while i < self.ids.len()
            invariant
                i <= self.ids@.len(),
                self.ids@.len() == self.entries().len(),
                forall|j: int| 0 <= j < i ==> self.entries()[j].0 != id,
            decreases self.ids@.len() - i,
        {
            if self.ids[i].0 == id.0 {
                assert(self.entries()[i as int].0 == self.ids@[i as int]);
                return Some(i);
            }
            assert(self.entries()[i as int].0 == self.ids@[i as int]);
            i = i + 1;
        }
        None
    }

    /// Writes to `stream` from now on for messages to client `id`, in place
    /// of any stream registered for it before.
    pub fn register(&mut self, id: ClientID, stream: H)
        ensures
            final(self)@ == old(self)@.insert(id, stream),
    {
        let found = self.position(id);
        let (mut ids, mut streams) = self.take_parts();
        let ghost old_entries = old(self).entries();
        match found {
            Some(i) => {
                proof {
                    lemma_map_update(old_entries, i as int, id, stream);
                }
                streams.set(i, stream);
                assert(pair_up(ids@, streams@) =~= old_entries.update(
                    i as int,
                    (id, stream),
                ));
            },
            None => {
                proof {
                    lemma_map_push(old_entries, id, stream);
                }
                streams.push(stream);
                ids.push(id);
                assert(pair_up(ids@, streams@) =~= old_entries.push(
                    (id, stream),
                ));
            },
        }
        self.put_parts(ids, streams);
    }

    /// Stops writing to client `id`: its stream, if it has one, is dropped.
    pub fn remove(&mut self, id: ClientID)
        ensures
            final(self)@ == old(self)@.remove(id),
    {
        let found = self.position(id);
        let (mut ids, mut streams) = self.take_parts();
        let ghost old_entries = old(self).entries();
        match found {
            Some(i) => {
                proof {
                    lemma_map_remove(old_entries, i as int);
                }
                let _dropped = streams.remove(i);
                ids.remove(i);
                assert(pair_up(ids@, streams@) =~= old_entries.remove(
                    i as int,
                ));
            },
            None => {
                assert(pair_up(ids@, streams@) =~= old_entries);
                assert(entries_map(old_entries) =~= entries_map(old_entries).remove(id));
            },
        }
        self.put_parts(ids, streams);
    }

    /// The stream to write to for a message to client `id`, if it has one.
    pub fn stream_mut_of(&mut self, id: ClientID) -> (r: Option<&mut H>)
        ensures
            match r {
                Some(s) => {
                    &&& old(self)@.contains_key(id)
                    &&& *s == old(self)@[id]
                    &&& final(self)@ == old(self)@.insert(id, *final(s))
                },
                None => !old(self)@.contains_key(id) && final(self)@ == old(self)@,
            },
    {
        proof {
            use_type_invariant(&*self);
            self.lemma_entries_unique();
        }
        match self.position(id) {
            Some(i) => {
                proof {
                    lemma_entry_index_unique(self.entries(), i as int);
                    self.lemma_any_stream_update(i as int);
                }
                Some(&mut self.streams[i])
            },
            None => None,
        }
    }
}

/// A message to a client goes to the stream registered for it last: after
/// registering `stream` for `id`, looking up `id` finds `stream`, and every
/// other client keeps its stream.
pub proof fn lemma_route_after_register<H>(before: Map<ClientID, H>, id: ClientID, stream: H, other: ClientID)
    ensures
        before.insert(id, stream).contains_key(id),
        before.insert(id, stream)[id] == stream,
        other != id ==> before.insert(id, stream).contains_key(other) == before.contains_key(other),
        other != id && before.contains_key(other) ==> before.insert(id, stream)[other] == before[other],
{
}

/// After a failed write to a client, messages to it find no stream until it
/// registers again, while every other client keeps its stream.
pub proof fn lemma_no_route_after_failed_write<H>(before: Map<ClientID, H>, id: ClientID, other: ClientID)
    ensures
        !before.remove(id).contains_key(id),
        other != id ==> before.remove(id).contains_key(other) == before.contains_key(other),
        other != id && before.contains_key(other) ==> before.remove(id)[other] == before[other],
{
}
} // verus!
