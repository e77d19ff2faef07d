use vstd::prelude::*;
use vstd::set_lib::{lemma_int_range, lemma_len_subset, lemma_map_size, set_int_range};

use crate::domain::{Outcome, Player};

verus! {

/// Values that a lookup tells apart. Two values are the same key when they
/// agree on every field, names being compared by their characters.
pub trait Keyed: Sized {
    spec fn same(self, other: Self) -> bool;

    proof fn lemma_same_is_equivalence(a: Self, b: Self, c: Self)
        ensures
            a.same(a),
            a.same(b) ==> b.same(a),
            a.same(b) && b.same(c) ==> a.same(c),
    ;

    fn same_as(&self, other: &Self) -> (same: bool)
        ensures
            same == self.same(*other),
    ;

    fn duplicate(&self) -> (copy: Self)
        ensures
            copy == *self,
    ;
}

pub open spec fn same_player(a: Player, b: Player) -> bool {
    match (a, b) {
        (Player::Named(side_a, name_a), Player::Named(side_b, name_b)) => side_a == side_b
            && name_a@ == name_b@,
        (Player::Other, Player::Other) => true,
        _ => false,
    }
}

pub open spec fn same_outcome(a: Outcome, b: Outcome) -> bool {
    match (a, b) {
        (Outcome::Player(p), Outcome::Player(q)) => same_player(p, q),
        (Outcome::Player(_), _) => false,
        (_, Outcome::Player(_)) => false,
        _ => a == b,
    }
}

impl Keyed for Player {
    open spec fn same(self, other: Self) -> bool {
        same_player(self, other)
    }

    proof fn lemma_same_is_equivalence(a: Self, b: Self, c: Self) {
    }

    fn same_as(&self, other: &Self) -> (same: bool) {
        match (self, other) {
            (Player::Named(side_a, name_a), Player::Named(side_b, name_b)) => {
                *side_a == *side_b && name_a.eq(name_b)
            },
            (Player::Other, Player::Other) => true,
            _ => false,
        }
    }

    fn duplicate(&self) -> (copy: Self) {
        self.clone()
    }
}

impl Keyed for Outcome {
    open spec fn same(self, other: Self) -> bool {
        same_outcome(self, other)
    }

    proof fn lemma_same_is_equivalence(a: Self, b: Self, c: Self) {
    }

    fn same_as(&self, other: &Self) -> (same: bool) {
        match (self, other) {
            (Outcome::Player(p), Outcome::Player(q)) => p.same_as(q),
            (Outcome::Win(s1, h1), Outcome::Win(s2, h2)) => *s1 == *s2 && *h1 == *h2,
            (Outcome::Draw(h1), Outcome::Draw(h2)) => *h1 == *h2,
            (Outcome::SplitWin(s1, d1, w1), Outcome::SplitWin(s2, d2, w2)) => *s1 == *s2 && *d1
                == *d2 && *w1 == *w2,
            (Outcome::Under(g1), Outcome::Under(g2)) => *g1 == *g2,
            (Outcome::Over(g1), Outcome::Over(g2)) => *g1 == *g2,
            (Outcome::Score(c1), Outcome::Score(c2)) => *c1 == *c2,
            (Outcome::Nil, Outcome::Nil) => true,
            _ => false,
        }
    }

    fn duplicate(&self) -> (copy: Self) {
        self.clone()
    }
}

/// Whether `s` holds an element that is the same key as `item`.
pub open spec fn holds<T: Keyed>(s: Seq<T>, item: T) -> bool {
    exists|i: int| 0 <= i < s.len() && #[trigger] s[i].same(item)
}

/// No two positions of `s` hold the same key.
pub open spec fn distinct<T: Keyed>(s: Seq<T>) -> bool {
    forall|i: int, j: int| 0 <= i < s.len() && 0 <= j < s.len() && i != j ==> !(#[trigger] s[i].same(
        #[trigger] s[j],
    ))
}

/// The elements of `s` in order, each key kept at its first occurrence.
pub open spec fn first_occurrences<T: Keyed>(s: Seq<T>) -> Seq<T>
    decreases s.len(),
{
    if s.len() == 0 {
        Seq::empty()
    } else {
        let kept = first_occurrences(s.drop_last());
        if holds(kept, s.last()) {
            kept
        } else {
            kept.push(s.last())
        }
    }
}

/// A duplicate-free sequence whose elements all occur in `t` is no longer
/// than `t`.
pub proof fn lemma_distinct_within_is_shorter<T: Keyed>(s: Seq<T>, t: Seq<T>)
    requires
        distinct(s),
        forall|i: int| 0 <= i < s.len() ==> holds(t, #[trigger] s[i]),
    ensures
        s.len() <= t.len(),
{
    let f = |i: int| choose|j: int| 0 <= j < t.len() && #[trigger] t[j].same(s[i]);
    let x = set_int_range(0, s.len() as int);
    let y = x.map(f);
    lemma_int_range(0, s.len() as int);
    lemma_int_range(0, t.len() as int);
    assert forall|a: int, b: int| x.contains(a) && x.contains(b) && #[trigger] f(a) == #[trigger] f(
        b,
    ) implies a == b by {
        assert(holds(t, s[a]));
        assert(holds(t, s[b]));
        let j = f(a);
        T::lemma_same_is_equivalence(t[j], s[a], s[b]);
        T::lemma_same_is_equivalence(s[a], t[j], s[b]);
        T::lemma_same_is_equivalence(s[b], t[j], s[a]);
    }
    lemma_map_size(x, y, f);
    assert forall|j: int| y.contains(j) implies set_int_range(0, t.len() as int).contains(j) by {
        let i = choose|i: int| x.contains(i) && f(i) == j;
        assert(holds(t, s[i]));
    }
    lemma_len_subset(y, set_int_range(0, t.len() as int));
}

/// An indexed collection of distinct keys: each key has one position.
#[derive(Debug)]
pub struct HashLookup<T: Keyed> {
    items: Vec<T>,
}

impl<T: Keyed> View for HashLookup<T> {
    type V = Seq<T>;

    closed spec fn view(&self) -> Seq<T> {
        self.items@
    }
}

impl<T: Keyed> HashLookup<T> {
    #[verifier::type_invariant]
    closed spec fn keys_distinct(self) -> bool {
        distinct(self.items@)
    }

    pub fn new() -> (lookup: Self)
        ensures
            lookup@ == Seq::<T>::empty(),
    {
        HashLookup { items: Vec::new() }
    }

    /// Builds a lookup from `items`, keeping each key at its first occurrence.
    pub fn from(items: Vec<T>) -> (lookup: Self)
        ensures
            lookup@ == first_occurrences(items@),
    {
        let mut lookup = HashLookup::new();
        let mut i: usize = 0;
        while i < items.len()
            invariant
                0 <= i <= items@.len(),
                lookup@ == first_occurrences(items@.subrange(0, i as int)),
            decreases items@.len() - i,
        {
            assert(items@.subrange(0, i + 1).drop_last() == items@.subrange(0, i as int));
            lookup.push(items[i].duplicate());
            i = i + 1;
        }
        assert(items@.subrange(0, items@.len() as int) == items@);
        lookup
    }

    pub fn len(&self) -> (len: usize)
        ensures
            len == self@.len(),
            distinct(self@),
    {
        proof {
            use_type_invariant(self);
        }
        self.items.len()
    }

    pub fn is_empty(&self) -> (empty: bool)
        ensures
            empty == (self@.len() == 0),
    {
        self.items.len() == 0
    }

    pub fn items(&self) -> (items: &[T])
        ensures
            items@ == self@,
            distinct(self@),
    {
        proof {
            use_type_invariant(self);
        }
        self.items.as_slice()
    }

    /// The position of `item`'s key, if the lookup holds it.
    pub fn index_of(&self, item: &T) -> (index: Option<usize>)
        ensures
            match index {
                Some(i) => i < self@.len() && self@[i as int].same(*item),
                None => !holds(self@, *item),
            },
    {
        let mut i: usize = 0;
        while i < self.items.len()
            invariant
                0 <= i <= self.items@.len(),
                forall|j: int| 0 <= j < i ==> !(#[trigger] self.items@[j]).same(*item),
            decreases self.items@.len() - i,
        {
            if self.items[i].same_as(item) {
                return Some(i);
            }
            i = i + 1;
        }
        None
    }

    /// Adds `item` at the end unless its key is already held.
    pub fn push(&mut self, item: T)
        ensures
            final(self)@ == if holds(old(self)@, item) {
                old(self)@
            } else {
                old(self)@.push(item)
            },
    {
        proof {
            use_type_invariant(&*self);
        }
        match self.index_of(&item) {
            Some(_) => {},
            None => {
                proof {
                    assert forall|i: int, j: int|
                        0 <= i < self.items@.push(item).len() && 0 <= j < self.items@.push(
                            item,
                        ).len() && i != j implies !(#[trigger] self.items@.push(item)[i]).same(
                        #[trigger] self.items@.push(item)[j],
                    ) by {
                        let s = self.items@.push(item);
                        if i == self.items@.len() {
                            T::lemma_same_is_equivalence(s[i], s[j], s[i]);
                        } else if j == self.items@.len() {
                            assert(!s[i].same(item));
                        }
                    }
                }
                let mut items = Vec::new();
                std::mem::swap(&mut items, &mut self.items);
                items.push(item);
                self.items = items;
            },
        }
    }
}

} // verus!
