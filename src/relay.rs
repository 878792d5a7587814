//! The session table of the broadcast relay: every registered session gets
//! a stable index, and a message delivered by one session is forwarded to
//! every other registered session.
use slab::Slab;
use vstd::prelude::*;

verus! {

#[verifier::external_type_specification]
#[verifier::external_body]
#[verifier::reject_recursive_types(T)]
pub struct ExSlab<T>(Slab<T>);

/// What a slab holds: each occupied key with its value.
pub uninterp spec fn slab_contents(s: Slab<u64>) -> Map<usize, u64>;

/// Relies on `Slab::new`: the new slab is empty.
#[verifier::external_body]
fn slab_new() -> (r: Slab<u64>)
    ensures
        slab_contents(r) == no_sessions(),
{
    Slab::new()
}

/// Relies on `Slab::insert`: the value is stored under a key that was
/// vacant, and that key is returned. It panics only when its storage
/// would pass `isize::MAX` bytes; it grows only when every slot is taken,
/// so with fewer than `usize::MAX / 256` values of sixteen bytes each,
/// even a doubled allocation stays under that.
#[verifier::external_body]
fn slab_insert(s: &mut Slab<u64>, v: u64) -> (r: usize)
    requires
        slab_contents(*old(s)).len() < MAX_SESSIONS,
    ensures
        !slab_contents(*old(s)).contains_key(r),
        slab_contents(*final(s)) == slab_contents(*old(s)).insert(r, v),
{
    s.insert(v)
}

/// Relies on `Slab::try_remove`: the value under `key` is taken out and
/// returned, or `None` when the key is vacant.
#[verifier::external_body]
fn slab_try_remove(s: &mut Slab<u64>, key: usize) -> (r: Option<u64>)
    ensures
        slab_contents(*final(s)) == slab_contents(*old(s)).remove(key),
        r is Some <==> slab_contents(*old(s)).contains_key(key),
        r is Some ==> r->Some_0 == slab_contents(*old(s))[key],
{
    s.try_remove(key)
}

/// Relies on `Slab::iter`: every occupied key once, with its value, in
/// increasing order of key.
#[verifier::external_body]
fn slab_entries(s: &Slab<u64>) -> (r: Vec<(usize, u64)>)
    ensures
        forall|j: int|
            0 <= j < r@.len() ==> #[trigger] slab_contents(*s).contains_key(r@[j].0)
                && slab_contents(*s)[r@[j].0] == r@[j].1,
        forall|k: usize|
            #[trigger] slab_contents(*s).contains_key(k) ==> exists|j: int|
                0 <= j < r@.len() && #[trigger] r@[j].0 == k,
        forall|i: int, j: int| 0 <= i < j < r@.len() ==> r@[i].0 < r@[j].0,
{
    s.iter().map(|(k, v)| (k, *v)).collect()
}

/// The table with no session in it.
pub open spec fn no_sessions() -> Map<usize, u64> {
    Map::empty()
}

/// Most sessions the table holds at once.
pub const MAX_SESSIONS: usize = usize::MAX / 256;

/// `targets` lists, in increasing order of index, every registered session
/// but `from`, each with its peer handle.
pub open spec fn is_fan_out(m: Map<usize, u64>, from: usize, targets: Seq<(usize, u64)>) -> bool {
    &&& forall|j: int|
        0 <= j < targets.len() ==> #[trigger] targets[j].0 != from && m.contains_key(targets[j].0)
            && m[targets[j].0] == targets[j].1
    &&& forall|k: usize|
        #[trigger] m.contains_key(k) && k != from ==> exists|j: int|
            0 <= j < targets.len() && #[trigger] targets[j].0 == k
    &&& forall|i: int, j: int| 0 <= i < j < targets.len() ==> targets[i].0 < targets[j].0
}

/// The registered sessions, each under a stable index and holding the
/// handle by which the surrounding program reaches its peer.
pub struct SessionTable {
    slots: Slab<u64>,
}

impl View for SessionTable {
    type V = Map<usize, u64>;

    closed spec fn view(&self) -> Map<usize, u64> {
        slab_contents(self.slots)
    }
}

impl SessionTable {
    pub open spec fn wf(&self) -> bool {
        self@.dom().finite()
    }

    /// An empty table.
    pub fn new() -> (r: SessionTable)
        ensures
            r.wf(),
            r@ == no_sessions(),
    {
        SessionTable { slots: slab_new() }
    }

    /// Number of registered sessions.
    pub fn len(&self) -> (r: usize)
        requires
            self.wf(),
        ensures
            r == self@.len(),
    {
        let entries = slab_entries(&self.slots);
        proof {
            lemma_listing_covers(self@, entries@);
        }
        entries.len()
    }

    /// Registers the session reached through `peer`; returns the handler
    /// bound to its new index.
    pub fn new_session(&mut self, peer: u64) -> (r: RelayHandler)
        requires
            old(self).wf(),
            old(self)@.len() < MAX_SESSIONS,
        ensures
            final(self).wf(),
            !old(self)@.contains_key(r.index),
            final(self)@ == old(self)@.insert(r.index, peer),
    {
        let index = slab_insert(&mut self.slots, peer);
        RelayHandler::new(index)
    }

    /// Removes the session under `index`; returns its peer handle, or
    /// `None` when no session is registered there.
    pub fn deregister(&mut self, index: usize) -> (r: Option<u64>)
        requires
            old(self).wf(),
        ensures
            final(self).wf(),
            final(self)@ == old(self)@.remove(index),
            r is Some <==> old(self)@.contains_key(index),
            r is Some ==> r->Some_0 == old(self)@[index],
    {
        slab_try_remove(&mut self.slots, index)
    }

    /// Every registered session but `from`, in increasing order of index.
    pub fn others(&self, from: usize) -> (r: Vec<(usize, u64)>)
        requires
            self.wf(),
        ensures
            is_fan_out(self@, from, r@),
            r@.len() == self@.dom().remove(from).len(),
    {
        let entries = slab_entries(&self.slots);
        let mut out: Vec<(usize, u64)> = Vec::new();
        let mut i: usize = 0;
        while i < entries.len()
            invariant
                i <= entries@.len(),
                forall|j: int|
                    0 <= j < entries@.len() ==> #[trigger] self@.contains_key(entries@[j].0)
                        && self@[entries@[j].0] == entries@[j].1,
                forall|a: int, b: int|
                    0 <= a < b < entries@.len() ==> entries@[a].0 < entries@[b].0,
                forall|o: int|
                    0 <= o < out@.len() ==> (#[trigger] out@[o]).0 != from && exists|j: int|
                        0 <= j < i && entries@[j] == out@[o],
                forall|j: int|
                    0 <= j < i && (#[trigger] entries@[j]).0 != from ==> exists|o: int|
                        0 <= o < out@.len() && out@[o] == entries@[j],
                forall|a: int, b: int| 0 <= a < b < out@.len() ==> out@[a].0 < out@[b].0,
            decreases entries@.len() - i,
        {
            let e = entries[i];
            let ghost prev = out@;
            if e.0 != from {
                proof {
                    assert forall|o: int| 0 <= o < prev.len() implies prev[o].0 < e.0 by {
                        let j = choose|j: int| 0 <= j < i && entries@[j] == #[trigger] prev[o];
                        assert(entries@[j].0 < entries@[i as int].0);
                    }
                }
                out.push(e);
            }
            proof {
                assert forall|j: int|
                    0 <= j < i + 1 && (#[trigger] entries@[j]).0 != from implies exists|o: int|
                        0 <= o < out@.len() && out@[o] == entries@[j] by {
                    if j == i {
                        assert(out@[prev.len() as int] == entries@[j]);
                    } else {
                        let o = choose|o: int| 0 <= o < prev.len() && prev[o] == entries@[j];
                        assert(out@[o] == prev[o]);
                    }
                }
                assert forall|o: int| 0 <= o < out@.len() implies (#[trigger] out@[o]).0 != from
                    && exists|j: int| 0 <= j < i + 1 && entries@[j] == out@[o] by {
                    if o == prev.len() {
                        assert(entries@[i as int] == out@[o]);
                    } else {
                        assert(out@[o] == prev[o]);
                        let j = choose|j: int| 0 <= j < i && entries@[j] == prev[o];
                        assert(entries@[j] == out@[o]);
                    }
                }
            }
            i = i + 1;
        }
        proof {
            assert forall|j: int| 0 <= j < out@.len() implies #[trigger] out@[j].0 != from
                && self@.contains_key(out@[j].0) && self@[out@[j].0] == out@[j].1 by {
                let a = choose|a: int| 0 <= a < i && entries@[a] == out@[j];
                assert(self@.contains_key(entries@[a].0));
            }
            assert forall|k: usize| #[trigger] self@.contains_key(k) && k != from implies exists|
                o: int,
            | 0 <= o < out@.len() && #[trigger] out@[o].0 == k by {
                let j = choose|j: int| 0 <= j < entries@.len() && #[trigger] entries@[j].0 == k;
                let o = choose|o: int| 0 <= o < out@.len() && out@[o] == entries@[j];
                assert(out@[o].0 == k);
            }
            lemma_fan_out_count(self@, from, out@);
        }
        out
    }
}

/// The handler bound to one registered session.
#[derive(Debug, Clone, Copy, PartialEq, Eq, Structural)]
pub struct RelayHandler {
    pub index: usize,
}

impl RelayHandler {
    /// The handler of the session registered under `index`.
    pub fn new(index: usize) -> (r: RelayHandler)
        ensures
            r.index == index,
    {
        RelayHandler { index }
    }

    /// The sessions that a message delivered by this handler's session
    /// goes to: every other registered session.
    pub fn handle_message(&self, table: &SessionTable) -> (r: Vec<(usize, u64)>)
        requires
            table.wf(),
        ensures
            is_fan_out(table@, self.index, r@),
            r@.len() == table@.dom().remove(self.index).len(),
    {
        table.others(self.index)
    }

    /// The session has closed: its entry leaves the table.
    pub fn closed(&self, table: &mut SessionTable) -> (r: Option<u64>)
        requires
            old(table).wf(),
        ensures
            final(table).wf(),
            final(table)@ == old(table)@.remove(self.index),
            r is Some <==> old(table)@.contains_key(self.index),
    {
        table.deregister(self.index)
    }
}

proof fn lemma_keys_distinct(t: Seq<(usize, u64)>)
    requires
        forall|i: int, j: int| 0 <= i < j < t.len() ==> t[i].0 < t[j].0,
    ensures
        t.map_values(|e: (usize, u64)| e.0).no_duplicates(),
{
    let keys = t.map_values(|e: (usize, u64)| e.0);
    assert forall|i: int, j: int| 0 <= i < keys.len() && 0 <= j < keys.len() && i != j implies keys[i]
        != keys[j] by {
        if i < j {
            assert(t[i].0 < t[j].0);
        } else {
            assert(t[j].0 < t[i].0);
        }
    }
}

/// A listing of a map's entries with increasing keys has one item per key.
proof fn lemma_listing_covers(m: Map<usize, u64>, t: Seq<(usize, u64)>)
    requires
        m.dom().finite(),
        forall|j: int| 0 <= j < t.len() ==> #[trigger] m.contains_key(t[j].0),
        forall|k: usize| #[trigger] m.contains_key(k) ==> exists|j: int|
            0 <= j < t.len() && #[trigger] t[j].0 == k,
        forall|i: int, j: int| 0 <= i < j < t.len() ==> t[i].0 < t[j].0,
    ensures
        t.len() == m.len(),
{
    let keys = t.map_values(|e: (usize, u64)| e.0);
    lemma_keys_distinct(t);
    keys.unique_seq_to_set();
    assert forall|k: usize| keys.to_set().contains(k) <==> m.dom().contains(k) by {
        if m.dom().contains(k) {
            let j = choose|j: int| 0 <= j < t.len() && #[trigger] t[j].0 == k;
            assert(keys[j] == k);
        }
        if keys.to_set().contains(k) {
            let j = choose|j: int| 0 <= j < keys.len() && keys[j] == k;
            assert(m.contains_key(t[j].0));
        }
    }
    assert(keys.to_set() =~= m.dom());
}

/// A fan-out from `from` reaches every registered session but `from` once:
/// with `M` sessions registered, `from` among them, it has `M - 1` targets,
/// and `from` is never one of them.
pub proof fn lemma_fan_out_count(m: Map<usize, u64>, from: usize, targets: Seq<(usize, u64)>)
    requires
        m.dom().finite(),
        is_fan_out(m, from, targets),
    ensures
        targets.len() == m.dom().remove(from).len(),
        m.contains_key(from) ==> targets.len() == m.len() - 1,
        forall|j: int| 0 <= j < targets.len() ==> #[trigger] targets[j].0 != from,
{
    let rest = m.remove(from);
    assert(rest.dom() =~= m.dom().remove(from));
    assert forall|j: int| 0 <= j < targets.len() implies #[trigger] rest.contains_key(targets[j].0) by {
        assert(targets[j].0 != from);
    }
    lemma_listing_covers(rest, targets);
}

} // verus!
