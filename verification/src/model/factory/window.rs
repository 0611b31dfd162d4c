//! A map from rounds to values that keeps only the rounds entered last.
use std::collections::HashMap;
use std::collections::VecDeque;
use vstd::prelude::*;

verus! {

broadcast use {vstd::std_specs::hash::group_hash_axioms, vstd::std_specs::vecdeque::axiom_spec_len};

/// Values by round, with the rounds in the order in which they were first
/// entered. When more rounds were entered than the window has room for, the
/// round entered first leaves, with its value.
pub struct Window<V> {
    entries: HashMap<u64, V>,
    order: VecDeque<u64>,
    capacity: usize,
}

/// What a [`Window`] holds.
pub struct WindowView<V> {
    /// The value of each round that the window holds.
    pub entries: Map<u64, V>,
    /// The rounds as they were entered, oldest first.
    pub order: Seq<u64>,
    /// The number of rounds that the window has room for.
    pub capacity: nat,
}

impl<V> WindowView<V> {
    /// Whether the window is sound: it has room for at least one round, it
    /// holds no more rounds than it has room for, no round stands twice
    /// among the rounds entered, and the rounds that have a value are the
    /// rounds entered.
    pub open spec fn wf(self) -> bool {
        &&& 0 < self.capacity
        &&& self.order.len() <= self.capacity
        &&& self.order.no_duplicates()
        &&& forall|round: u64| #[trigger]
            self.entries.contains_key(round) <==> self.order.contains(round)
    }

    /// The window after `value` was entered for `round`. A round that the
    /// window holds gets the value and keeps its place. Any other round gets
    /// the value and stands last; where that leaves more rounds than there
    /// is room for, the round that stands first leaves, with its value.
    pub open spec fn recorded(self, round: u64, value: V) -> WindowView<V> {
        if self.entries.contains_key(round) {
            WindowView { entries: self.entries.insert(round, value), ..self }
        } else {
            let entries = self.entries.insert(round, value);
            let order = self.order.push(round);
            if order.len() > self.capacity {
                WindowView { entries: entries.remove(order[0]), order: order.drop_first(), ..self }
            } else {
                WindowView { entries, order, ..self }
            }
        }
    }

    /// The window with the value of `round` replaced.
    pub open spec fn replaced(self, round: u64, value: V) -> WindowView<V> {
        WindowView { entries: self.entries.insert(round, value), ..self }
    }
}

/// A sound window holds values for no more rounds than it has room for.
pub proof fn lemma_window_is_bounded<V>(w: WindowView<V>)
    requires
        w.wf(),
    ensures
        w.entries.dom().finite(),
        w.entries.dom().len() <= w.capacity,
{
    let rounds = w.order.to_set();
    w.order.lemma_cardinality_of_set();
    assert(w.entries.dom().subset_of(rounds)) by {
        assert forall|round: u64| w.entries.dom().contains(round) implies rounds.contains(
            round,
        ) by {
            assert(w.entries.contains_key(round));
        }
    }
    vstd::set_lib::lemma_len_subset(w.entries.dom(), rounds);
}

/// Entering a value keeps a sound window sound, and the window then holds
/// the value for the round.
pub proof fn lemma_recorded_is_sound<V>(w: WindowView<V>, round: u64, value: V)
    requires
        w.wf(),
    ensures
        w.recorded(round, value).wf(),
        w.recorded(round, value).entries.contains_key(round),
        w.recorded(round, value).entries[round] == value,
{
    let after = w.recorded(round, value);
    if w.entries.contains_key(round) {
        assert forall|r: u64| #[trigger]
            after.entries.contains_key(r) <==> after.order.contains(r) by {
            if r != round {
                assert(after.entries.contains_key(r) == w.entries.contains_key(r));
            } else {
                assert(w.entries.contains_key(round));
            }
        }
    } else {
        let pushed = w.order.push(round);
        let n = w.order.len() as int;
        assert(pushed[n] == round);
        assert(!w.order.contains(round));
        assert(pushed.no_duplicates()) by {
            assert forall|i: int, j: int|
                0 <= i < pushed.len() && 0 <= j < pushed.len() && i != j implies pushed[i]
                != pushed[j] by {
                if i < n && j < n {
                    assert(w.order[i] != w.order[j]);
                } else if i < n {
                    assert(w.order.contains(w.order[i]));
                } else {
                    assert(w.order.contains(w.order[j]));
                }
            }
        }
        assert forall|r: u64| w.order.contains(r) || r == round implies pushed.contains(r) by {
            if r == round {
                assert(pushed[n] == r);
            } else {
                let i = choose|i: int| 0 <= i < w.order.len() && w.order[i] == r;
                assert(pushed[i] == r);
            }
        }
        assert forall|r: u64| pushed.contains(r) implies w.order.contains(r) || r == round by {
            let i = choose|i: int| 0 <= i < pushed.len() && pushed[i] == r;
            if i < n {
                assert(w.order[i] == r);
            }
        }
        if pushed.len() > w.capacity {
            assert(n >= 1);
            assert(pushed[0] == w.order[0]);
            assert(w.order.contains(w.order[0]));
            assert(pushed[0] != round);
            assert(after.order.no_duplicates()) by {
                assert forall|i: int, j: int|
                    0 <= i < after.order.len() && 0 <= j < after.order.len() && i
                        != j implies after.order[i] != after.order[j] by {
                    assert(after.order[i] == pushed[i + 1]);
                    assert(after.order[j] == pushed[j + 1]);
                }
            }
            assert forall|r: u64| #[trigger]
                after.entries.contains_key(r) <==> after.order.contains(r) by {
                if after.entries.contains_key(r) {
                    assert(r != pushed[0]);
                    assert(w.entries.contains_key(r) || r == round);
                    assert(pushed.contains(r));
                    let i = choose|i: int| 0 <= i < pushed.len() && pushed[i] == r;
                    assert(i >= 1);
                    assert(after.order[i - 1] == r);
                }
                if after.order.contains(r) {
                    let i = choose|i: int| 0 <= i < after.order.len() && after.order[i] == r;
                    assert(pushed[i + 1] == r);
                    assert(pushed.contains(r));
                    assert(r != pushed[0]);
                    assert(w.order.contains(r) || r == round);
                    assert(w.entries.contains_key(r) || r == round);
                }
            }
        } else {
            assert forall|r: u64| #[trigger]
                after.entries.contains_key(r) <==> after.order.contains(r) by {
                assert(w.entries.contains_key(r) <==> w.order.contains(r));
            }
        }
    }
}

impl<V> View for Window<V> {
    type V = WindowView<V>;

    closed spec fn view(&self) -> WindowView<V> {
        WindowView { entries: self.entries@, order: self.order@, capacity: self.capacity as nat }
    }
}

impl<V: Copy> Window<V> {
    /// An empty window with room for `capacity` rounds.
    pub fn new(capacity: usize) -> (w: Self)
        requires
            capacity > 0,
        ensures
            w@.entries == Map::<u64, V>::empty(),
            w@.order == Seq::<u64>::empty(),
            w@.capacity == capacity,
            w@.wf(),
    {
        Window { entries: HashMap::new(), order: VecDeque::new(), capacity }
    }

    /// Enters `value` for `round`.
    pub fn record(&mut self, round: u64, value: V)
        requires
            old(self)@.wf(),
        ensures
            final(self)@ == old(self)@.recorded(round, value),
            final(self)@.wf(),
            final(self)@.entries.contains_key(round),
            final(self)@.entries[round] == value,
    {
        proof {
            lemma_recorded_is_sound(self@, round, value);
        }
        if self.entries.contains_key(&round) {
            self.entries.insert(round, value);
        } else {
            self.entries.insert(round, value);
            self.order.push_back(round);
            if self.order.len() > self.capacity {
                let oldest = self.order.pop_front();
                match oldest {
                    Some(first) => {
                        self.entries.remove(&first);
                        assert(self.order@ =~= old(self)@.order.push(round).drop_first());
                    },
                    None => {},
                }
            }
        }
    }

    /// The value of `round`, if the window holds one.
    pub fn get(&self, round: u64) -> (r: Option<V>)
        ensures
            r == (if self@.entries.contains_key(round) {
                Some(self@.entries[round])
            } else {
                None
            }),
    {
        match self.entries.get(&round) {
            Some(v) => Some(*v),
            None => None,
        }
    }

    /// Replaces the value of `round`, which the window must hold.
    pub fn replace(&mut self, round: u64, value: V)
        requires
            old(self)@.wf(),
            old(self)@.entries.contains_key(round),
        ensures
            final(self)@ == old(self)@.replaced(round, value),
            final(self)@.wf(),
    {
        self.entries.insert(round, value);
        assert forall|r: u64| #[trigger]
            self@.entries.contains_key(r) <==> self@.order.contains(r) by {
            if r != round {
                assert(self@.entries.contains_key(r) == old(self)@.entries.contains_key(r));
            } else {
                assert(old(self)@.entries.contains_key(round));
            }
        }
    }

    /// The number of rounds that have a value.
    pub fn len(&self) -> (n: usize)
        requires
            self@.wf(),
        ensures
            n == self@.entries.dom().len(),
            n <= self@.capacity,
    {
        proof {
            lemma_window_is_bounded(self@);
        }
        self.entries.len()
    }

    /// The number of rounds entered and not yet gone.
    pub fn rounds(&self) -> (n: usize)
        ensures
            n == self@.order.len(),
    {
        self.order.len()
    }

    /// The rounds entered and not yet gone, oldest first.
    pub fn order(&self) -> (rounds: Vec<u64>)
        ensures
            rounds@ == self@.order,
    {
        let mut rounds: Vec<u64> = Vec::new();
        let mut i: usize = 0;
        while i < self.order.len()
            invariant
                i <= self.order.len(),
                rounds@ == self.order@.take(i as int),
            decreases self.order.len() - i,
        {
            rounds.push(self.order[i]);
            assert(rounds@ =~= self.order@.take(i + 1));
            i = i + 1;
        }
        assert(self.order@.take(self.order.len() as int) =~= self.order@);
        rounds
    }
}

} // verus!
