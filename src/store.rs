//! The per-node clock state store: a map from node id to that node's wall
//! time and counter. A node with no entry is at the zero state.
use vstd::prelude::*;

use crate::wall::WallTime;

verus! {

/// The mutable part of a node's clock.
#[derive(Debug, Clone, Copy, PartialEq, Eq, Structural)]
pub struct ClockState {
    pub date_time: WallTime,
    pub counter: u16,
}

/// The state a node starts in: the Unix epoch, counter 0.
pub open spec fn zero_state() -> ClockState {
    ClockState { date_time: WallTime { secs: 0, nanos: 0 }, counter: 0 }
}

/// The state of `id` in a store's map, the zero state where it has none.
pub open spec fn state_in(m: Map<Seq<char>, ClockState>, id: Seq<char>) -> ClockState {
    if m.contains_key(id) {
        m[id]
    } else {
        zero_state()
    }
}

/// Every state in the map is well formed.
pub open spec fn states_wf(m: Map<Seq<char>, ClockState>) -> bool {
    forall|k: Seq<char>| #[trigger] m.contains_key(k) ==> m[k].date_time.wf()
}

impl ClockState {
    pub open spec fn wf(&self) -> bool {
        self.date_time.wf()
    }

    /// The zero state: the Unix epoch, counter 0.
    pub fn new() -> (r: ClockState)
        ensures
            r == zero_state(),
            r.wf(),
    {
        ClockState { date_time: WallTime::epoch(), counter: 0 }
    }
}

/// Clock states by node id. Every operation takes the store by `&mut` for
/// its whole read, check and write, so no update is lost.
pub struct ClockStore {
    keys: Vec<String>,
    states: Vec<ClockState>,
    model: Ghost<Map<Seq<char>, ClockState>>,
}

impl View for ClockStore {
    type V = Map<Seq<char>, ClockState>;

    closed spec fn view(&self) -> Map<Seq<char>, ClockState> {
        self.model@
    }
}

impl ClockStore {
    pub closed spec fn wf(&self) -> bool {
        &&& self.keys.len() == self.states.len()
        &&& forall|i: int, j: int|
            0 <= i < self.keys.len() && 0 <= j < self.keys.len() && i != j ==> #[trigger] self.keys@[i]@
                != #[trigger] self.keys@[j]@
        &&& forall|i: int|
            0 <= i < self.keys.len() ==> #[trigger] self.model@.contains_key(self.keys@[i]@)
                && self.model@[self.keys@[i]@] == self.states@[i]
        &&& forall|k: Seq<char>| #[trigger]
            self.model@.contains_key(k) ==> exists|i: int|
                0 <= i < self.keys.len() && #[trigger] self.keys@[i]@ == k
        &&& states_wf(self.model@)
    }

    /// An empty store: every node is at the zero state.
    pub fn new() -> (r: ClockStore)
        ensures
            r.wf(),
            r@ == Map::<Seq<char>, ClockState>::empty(),
    {
        ClockStore { keys: Vec::new(), states: Vec::new(), model: Ghost(Map::empty()) }
    }

    fn find(&self, id: &str) -> (r: Option<usize>)
        requires
            self.wf(),
        ensures
            r matches Some(i) ==> i < self.keys.len() && self.keys@[i as int]@ == id@,
            r is None ==> !self@.contains_key(id@),
    {
        let target = String::from_str(id);
        let mut i: usize = 0;
        while i < self.keys.len()
            invariant
                self.wf(),
                target@ == id@,
                i <= self.keys.len(),
                forall|j: int| 0 <= j < i ==> self.keys@[j]@ != id@,
            decreases self.keys.len() - i,
        {
            if self.keys[i] == target {
                return Some(i);
            }
            i = i + 1;
        }
        None
    }

    /// The state of `id`, the zero state where it has none; nothing changes.
    pub fn lookup(&self, id: &str) -> (r: ClockState)
        requires
            self.wf(),
        ensures
            r == state_in(self@, id@),
            r.wf(),
    {
        match self.find(id) {
            Some(i) => {
                assert(self@.contains_key(id@));
                self.states[i]
            },
            None => ClockState::new(),
        }
    }

    /// Replaces the state of `id`.
    pub fn put(&mut self, id: &str, state: ClockState)
        requires
            old(self).wf(),
            state.wf(),
        ensures
            final(self).wf(),
            final(self)@ == old(self)@.insert(id@, state),
    {
        let ghost m = self.model@;
        match self.find(id) {
            Some(i) => {
                let ghost old_states = self.states@;
                self.states.set(i, state);
                self.model = Ghost(m.insert(id@, state));
                assert forall|j: int| 0 <= j < self.keys.len() implies #[trigger]
                    self.model@.contains_key(self.keys@[j]@) && self.model@[self.keys@[j]@]
                        == self.states@[j] by {
                    if j != i {
                        assert(old(self).model@.contains_key(old(self).keys@[j]@));
                        assert(self.keys@[j]@ != self.keys@[i as int]@);
                        assert(self.states@[j] == old_states[j]);
                    }
                }
                assert forall|k: Seq<char>| #[trigger]
                    self.model@.contains_key(k) implies exists|j: int|
                        0 <= j < self.keys.len() && #[trigger] self.keys@[j]@ == k by {
                    if k == id@ {
                        assert(self.keys@[i as int]@ == k);
                    }
                }
            },
            None => {
                let ghost old_keys = self.keys@;
                let ghost old_states = self.states@;
                self.keys.push(String::from_str(id));
                self.states.push(state);
                self.model = Ghost(m.insert(id@, state));
                let n = self.keys.len() - 1;
                assert forall|j: int| 0 <= j < n implies #[trigger] old_keys[j]@ != id@ by {
                    assert(m.contains_key(old_keys[j]@));
                }
                assert forall|a: int, b: int|
                    0 <= a < self.keys.len() && 0 <= b < self.keys.len() && a != b implies
                    #[trigger] self.keys@[a]@ != #[trigger] self.keys@[b]@ by {
                    if a < n && b < n {
                        assert(self.keys@[a] == old_keys[a]);
                        assert(self.keys@[b] == old_keys[b]);
                    } else if a < n {
                        assert(self.keys@[a] == old_keys[a]);
                    } else {
                        assert(self.keys@[b] == old_keys[b]);
                    }
                }
                assert forall|j: int| 0 <= j < self.keys.len() implies #[trigger]
                    self.model@.contains_key(self.keys@[j]@) && self.model@[self.keys@[j]@]
                        == self.states@[j] by {
                    if j < n {
                        assert(self.keys@[j] == old_keys[j]);
                        assert(self.states@[j] == old_states[j]);
                    }
                }
                assert forall|k: Seq<char>| #[trigger]
                    self.model@.contains_key(k) implies exists|j: int|
                        0 <= j < self.keys.len() && #[trigger] self.keys@[j]@ == k by {
                    if k == id@ {
                        assert(self.keys@[n as int]@ == k);
                    } else {
                        let j = choose|j: int| 0 <= j < n && #[trigger] old(self).keys@[j]@ == k;
                        assert(self.keys@[j]@ == k);
                    }
                }
            },
        }
    }

    /// The state of `id`; where it has none, the zero state is stored first.
    pub fn get_or_create(&mut self, id: &str) -> (r: ClockState)
        requires
            old(self).wf(),
        ensures
            final(self).wf(),
            r == state_in(old(self)@, id@),
            r.wf(),
            final(self)@ == (if old(self)@.contains_key(id@) {
                old(self)@
            } else {
                old(self)@.insert(id@, zero_state())
            }),
    {
        match self.find(id) {
            Some(i) => {
                assert(self@.contains_key(id@));
                self.states[i]
            },
            None => {
                let zero = ClockState::new();
                self.put(id, zero);
                zero
            },
        }
    }

    /// Removes the entry of `id`; it is at the zero state again.
    pub fn reset(&mut self, id: &str)
        requires
            old(self).wf(),
        ensures
            final(self).wf(),
            final(self)@ == old(self)@.remove(id@),
    {
        let ghost m = self.model@;
        let ghost old_keys = self.keys@;
        let ghost old_states = self.states@;
        if let Some(i) = self.find(id) {
            self.keys.remove(i);
            self.states.remove(i);
            self.model = Ghost(m.remove(id@));
            assert forall|a: int, b: int|
                0 <= a < self.keys.len() && 0 <= b < self.keys.len() && a != b implies
                #[trigger] self.keys@[a]@ != #[trigger] self.keys@[b]@ by {
                let oa = if a < i { a } else { a + 1 };
                let ob = if b < i { b } else { b + 1 };
                assert(self.keys@[a] == old_keys[oa]);
                assert(self.keys@[b] == old_keys[ob]);
                assert(old(self).keys@[oa]@ != old(self).keys@[ob]@);
            }
            assert(states_wf(self.model@)) by {
                assert forall|k: Seq<char>| #[trigger] self.model@.contains_key(k) implies
                    self.model@[k].date_time.wf() by {
                    assert(m.contains_key(k));
                }
            }
            assert forall|j: int|
                0 <= j < self.keys.len() implies #[trigger] self.model@.contains_key(
                self.keys@[j]@,
            ) && self.model@[self.keys@[j]@] == self.states@[j] by {
                if j < i {
                    assert(self.keys@[j] == old_keys[j]);
                    assert(self.states@[j] == old_states[j]);
                    assert(old(self).model@.contains_key(old(self).keys@[j]@));
                    assert(old_keys[j]@ != old_keys[i as int]@);
                } else {
                    assert(self.keys@[j] == old_keys[j + 1]);
                    assert(self.states@[j] == old_states[j + 1]);
                    assert(old(self).model@.contains_key(old(self).keys@[j + 1]@));
                    assert(old_keys[j + 1]@ != old_keys[i as int]@);
                }
            }
            assert forall|k: Seq<char>| #[trigger]
                self.model@.contains_key(k) implies exists|j: int|
                    0 <= j < self.keys.len() && #[trigger] self.keys@[j]@ == k by {
                let j = choose|j: int| 0 <= j < old_keys.len() && #[trigger] old_keys[j]@ == k;
                if j < i {
                    assert(self.keys@[j]@ == k);
                } else {
                    assert(self.keys@[j - 1]@ == k);
                }
            }
        } else {
            assert(m.remove(id@) =~= m);
        }
    }
}

} // verus!
