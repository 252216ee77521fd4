//! Registries keyed by identifier: the rooms of running games, and the
//! sinks of spectators.
use vstd::prelude::*;

use crate::protocol::{ExternalRoom, Id, Room};

verus! {

/// Relies on `uuid::Uuid::new_v4`: a fresh random identifier, returned as
/// its 128-bit value. Nothing is promised of the value.
#[verifier::external_body]
pub(crate) fn new_id() -> (r: Id) {
    uuid::Uuid::new_v4().as_u128()
}

/// No two entries share an identifier.
pub open spec fn keys_unique<V>(s: Seq<(Id, V)>) -> bool {
    forall|i: int, j: int| 0 <= i < s.len() && 0 <= j < s.len() && i != j ==> s[i].0 != s[j].0
}

/// `id` is the identifier of some entry.
pub open spec fn has_key<V>(s: Seq<(Id, V)>, id: Id) -> bool {
    exists|i: int| 0 <= i < s.len() && #[trigger] s[i].0 == id
}

/// What `insert` makes of `s`: the entry of `id` replaced in place, or a new
/// entry at the end.
pub open spec fn inserted<V>(s: Seq<(Id, V)>, id: Id, value: V) -> Seq<(Id, V)> {
    if has_key(s, id) {
        s.update(choose|i: int| 0 <= i < s.len() && #[trigger] s[i].0 == id, (id, value))
    } else {
        s.push((id, value))
    }
}

/// What `remove` makes of `s`: the entry of `id` taken out, the others in
/// their order.
pub open spec fn removed<V>(s: Seq<(Id, V)>, id: Id) -> Seq<(Id, V)> {
    if has_key(s, id) {
        s.remove(choose|i: int| 0 <= i < s.len() && #[trigger] s[i].0 == id)
    } else {
        s
    }
}

/// A mapping from identifiers to values, kept in the order of insertion.
pub struct Registry<V> {
    entries: Vec<(Id, V)>,
}

impl<V> View for Registry<V> {
    type V = Seq<(Id, V)>;

    closed spec fn view(&self) -> Seq<(Id, V)> {
        self.entries@
    }
}

impl<V> Registry<V> {
    /// No identifier has two entries.
    pub open spec fn wf(&self) -> bool {
        keys_unique(self@)
    }

    pub fn new() -> (r: Registry<V>)
        ensures
            r@ == Seq::<(Id, V)>::empty(),
            r.wf(),
    {
        Registry { entries: Vec::new() }
    }

    pub fn len(&self) -> (r: usize)
        ensures
            r == self@.len(),
    {
        self.entries.len()
    }

    /// The position of `id`'s entry.
    fn find(&self, id: &Id) -> (r: Option<usize>)
        ensures
            match r {
                Some(i) => i < self@.len() && self@[i as int].0 == *id,
                None => !has_key(self@, *id),
            },
    {
        let mut i: usize = 0;
        while i < self.entries.len()
            invariant
                0 <= i <= self.entries@.len(),
                forall|j: int| 0 <= j < i ==> #[trigger] self.entries@[j].0 != *id,
            decreases self.entries@.len() - i,
        {
            if self.entries[i].0 == *id {
                return Some(i);
            }
            i = i + 1;
        }
        None
    }

    /// Sets the value of `id`, replacing an earlier one in place.
    pub fn insert(&mut self, id: Id, value: V)
        requires
            old(self).wf(),
        ensures
            final(self).wf(),
            final(self)@ == inserted(old(self)@, id, value),
    {
        match self.find(&id) {
            Some(i) => {
                proof {
                    let c = choose|c: int| 0 <= c < old(self)@.len() && #[trigger] old(self)@[c].0 == id;
                    assert(c == i as int);
                }
                let _ = self.entries.remove(i);
                self.entries.insert(i, (id, value));
                proof {
                    assert(self.entries@ =~= old(self)@.update(i as int, (id, value)));
                }
            },
            None => {
                self.entries.push((id, value));
            },
        }
    }

    /// Takes out the entry of `id`, if there is one.
    pub fn remove(&mut self, id: &Id)
        requires
            old(self).wf(),
        ensures
            final(self).wf(),
            final(self)@ == removed(old(self)@, *id),
    {
        match self.find(id) {
            Some(i) => {
                proof {
                    let c = choose|c: int| 0 <= c < old(self)@.len() && #[trigger] old(self)@[c].0 == *id;
                    assert(c == i as int);
                }
                let _ = self.entries.remove(i);
            },
            None => {},
        }
    }

    /// The value of `id`.
    pub fn get(&self, id: &Id) -> (r: Option<&V>)
        ensures
            match r {
                Some(v) => exists|i: int| 0 <= i < self@.len() && self@[i] == (*id, *v),
                None => !has_key(self@, *id),
            },
    {
        match self.find(id) {
            Some(i) => Some(&self.entries[i].1),
            None => None,
        }
    }

    /// Enters `value` under a fresh random identifier, which is returned.
    pub fn register(&mut self, value: V) -> (id: Id)
        requires
            old(self).wf(),
        ensures
            final(self).wf(),
            final(self)@ == inserted(old(self)@, id, value),
    {
        let id = new_id();
        self.insert(id, value);
        id
    }
}

/// The sink of each watcher, in order: `None` for a watcher that is no
/// longer registered.
pub fn broadcast_recipients<'a, S>(watching: &Vec<Id>, peers: &'a Registry<S>) -> (r: Vec<
    Option<&'a S>,
>)
    ensures
        r@.len() == watching@.len(),
        forall|i: int|
            0 <= i < r@.len() ==> match #[trigger] r@[i] {
                Some(s) => exists|j: int|
                    0 <= j < peers@.len() && peers@[j] == (watching@[i], *s),
                None => !has_key(peers@, watching@[i]),
            },
{
    let mut out: Vec<Option<&'a S>> = Vec::new();
    let mut k: usize = 0;
    while k < watching.len()
        invariant
            0 <= k <= watching@.len(),
            out@.len() == k,
            forall|i: int|
                0 <= i < k ==> match #[trigger] out@[i] {
                    Some(s) => exists|j: int|
                        0 <= j < peers@.len() && peers@[j] == (watching@[i], *s),
                    None => !has_key(peers@, watching@[i]),
                },
        decreases watching@.len() - k,
    {
        out.push(peers.get(&watching[k]));
        k = k + 1;
    }
    out
}

/// The projection that a snapshot shows of a room.
pub open spec fn external_of(r: Room) -> ExternalRoom {
    ExternalRoom { black: r.black_name, white: r.white_name, timelimit_ms: r.timelimit_ms }
}

/// `after` is `before` with `spectator` appended to its watchers.
pub open spec fn watcher_added(before: Room, after: Room, spectator: Id) -> bool {
    &&& after.id == before.id
    &&& after.black_name == before.black_name
    &&& after.white_name == before.white_name
    &&& after.timelimit_ms == before.timelimit_ms
    &&& after.watching@ == before.watching@.push(spectator)
}

/// `s` without any occurrence of `x`.
pub open spec fn without(s: Seq<Id>, x: Id) -> Seq<Id> {
    s.filter(|y: Id| y != x)
}

/// `after` is `before` with every occurrence of `spectator` taken out of
/// its watchers.
pub open spec fn watcher_removed(before: Room, after: Room, spectator: Id) -> bool {
    &&& after.id == before.id
    &&& after.black_name == before.black_name
    &&& after.white_name == before.white_name
    &&& after.timelimit_ms == before.timelimit_ms
    &&& after.watching@ == without(before.watching@, spectator)
}

/// `after` differs from `before` at most in the value of entry `i`.
pub open spec fn only_value_at<V>(before: Seq<(Id, V)>, after: Seq<(Id, V)>, i: int) -> bool {
    &&& 0 <= i < before.len()
    &&& after.len() == before.len()
    &&& after[i].0 == before[i].0
    &&& forall|j: int| 0 <= j < before.len() && j != i ==> after[j] == before[j]
}

impl Registry<Room> {
    /// Appends `spectator` to the watchers of `game`; `false` when there is
    /// no such game, and then nothing changes.
    pub fn add_spectator(&mut self, game: &Id, spectator: Id) -> (r: bool)
        requires
            old(self).wf(),
        ensures
            final(self).wf(),
            r == has_key(old(self)@, *game),
            !r ==> final(self)@ == old(self)@,
            r ==> exists|i: int|
                only_value_at(old(self)@, final(self)@, i) && old(self)@[i].0 == *game
                    && watcher_added(old(self)@[i].1, final(self)@[i].1, spectator),
    {
        match self.find(game) {
            None => false,
            Some(i) => {
                let (id, mut room) = self.entries.remove(i);
                room.watching.push(spectator);
                self.entries.insert(i, (id, room));
                proof {
                    assert(only_value_at(old(self)@, self@, i as int));
                }
                true
            },
        }
    }

    /// Takes `spectator` out of the watchers of `game`; `false` when there
    /// is no such game, and then nothing changes.
    pub fn remove_spectator(&mut self, game: &Id, spectator: &Id) -> (r: bool)
        requires
            old(self).wf(),
        ensures
            final(self).wf(),
            r == has_key(old(self)@, *game),
            !r ==> final(self)@ == old(self)@,
            r ==> exists|i: int|
                only_value_at(old(self)@, final(self)@, i) && old(self)@[i].0 == *game
                    && watcher_removed(old(self)@[i].1, final(self)@[i].1, *spectator),
    {
        match self.find(game) {
            None => false,
            Some(i) => {
                let (id, mut room) = self.entries.remove(i);
                let ghost before = room;
                let mut kept: Vec<Id> = Vec::new();
                let mut k: usize = 0;
                while k < room.watching.len()
                    invariant
                        0 <= k <= room.watching@.len(),
                        room == before,
                        kept@ == without(room.watching@.subrange(0, k as int), *spectator),
                    decreases room.watching@.len() - k,
                {
                    let w = room.watching[k];
                    proof {
                        assert(room.watching@.subrange(0, k + 1).drop_last() =~= room.watching@.subrange(0, k as int));
                        reveal_with_fuel(Seq::filter, 1);
                    }
                    if w != *spectator {
                        kept.push(w);
                    }
                    k = k + 1;
                }
                proof {
                    assert(room.watching@.subrange(0, room.watching@.len() as int) =~= room.watching@);
                }
                room.watching = kept;
                self.entries.insert(i, (id, room));
                proof {
                    assert(old(self)@[i as int].1 == before);
                    assert(watcher_removed(before, room, *spectator));
                    assert(self@[i as int].1 == room);
                    assert(only_value_at(old(self)@, self@, i as int));
                }
                true
            },
        }
    }

    /// The watchers of `game`, or `None` when there is no such game.
    pub fn watchers(&self, game: &Id) -> (r: Option<Vec<Id>>)
        ensures
            match r {
                Some(v) => exists|i: int|
                    0 <= i < self@.len() && self@[i].0 == *game && v@ == self@[i].1.watching@,
                None => !has_key(self@, *game),
            },
    {
        match self.find(game) {
            None => None,
            Some(i) => {
                let src = &self.entries[i].1.watching;
                let mut out: Vec<Id> = Vec::new();
                let mut k: usize = 0;
                while k < src.len()
                    invariant
                        0 <= k <= src@.len(),
                        out@ == src@.subrange(0, k as int),
                    decreases src@.len() - k,
                {
                    out.push(src[k]);
                    k = k + 1;
                }
                proof {
                    assert(out@ =~= src@);
                }
                Some(out)
            },
        }
    }

    /// What clients are shown of every room, in the registry's order.
    pub fn snapshot(&self) -> (r: Vec<(Id, ExternalRoom)>)
        ensures
            r@.len() == self@.len(),
            forall|i: int|
                0 <= i < r@.len() ==> #[trigger] r@[i] == (self@[i].0, external_of(self@[i].1)),
    {
        let mut out: Vec<(Id, ExternalRoom)> = Vec::new();
        let mut k: usize = 0;
        while k < self.entries.len()
            invariant
                0 <= k <= self@.len(),
                out@.len() == k,
                forall|i: int|
                    0 <= i < k ==> #[trigger] out@[i] == (self@[i].0, external_of(self@[i].1)),
            decreases self@.len() - k,
        {
            let entry = &self.entries[k];
            out.push((entry.0, entry.1.external()));
            k = k + 1;
        }
        out
    }
}

} // verus!
