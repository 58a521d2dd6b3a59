use indexmap::IndexSet;
use vstd::prelude::*;

verus! {

/// `indexmap::IndexSet`, a hash set that iterates in insertion order; its
/// content is opaque here.
#[verifier::external_type_specification]
#[verifier::external_body]
#[verifier::reject_recursive_types(T)]
#[verifier::reject_recursive_types(S)]
pub struct ExIndexSet<T, S>(IndexSet<T, S>);

/// The values that an `indexmap::IndexSet` holds, in the order of iteration.
pub uninterp spec fn index_set_items(set: IndexSet<i32>) -> Seq<i32>;

/// Calls `IndexSet::new`, which creates a set without values.
#[verifier::external_body]
fn index_set_new() -> (set: IndexSet<i32>)
    ensures
        index_set_items(set) == Seq::<i32>::empty(),
{
    IndexSet::new()
}

/// Calls `IndexSet::insert`. Where an equal value is in the set it returns
/// `false` and leaves values and order alone; otherwise it puts the value
/// after all others and returns `true`.
#[verifier::external_body]
fn index_set_insert(set: &mut IndexSet<i32>, value: i32) -> (fresh: bool)
    ensures
        fresh == !index_set_items(*old(set)).contains(value),
        index_set_items(*final(set)) == if fresh {
            index_set_items(*old(set)).push(value)
        } else {
            index_set_items(*old(set))
        },
{
    set.insert(value)
}

/// Calls `IndexSet::contains`, which tells whether an equal value is in the
/// set.
#[verifier::external_body]
fn index_set_contains(set: &IndexSet<i32>, value: i32) -> (present: bool)
    ensures
        present == index_set_items(*set).contains(value),
{
    set.contains(&value)
}

/// Calls `IndexSet::len`, the number of values in the set.
#[verifier::external_body]
fn index_set_len(set: &IndexSet<i32>) -> (len: usize)
    ensures
        len == index_set_items(*set).len(),
{
    set.len()
}

/// Calls `IndexSet::get_index`, which gives the value at a position of the
/// iteration order, or `None` from the length on.
#[verifier::external_body]
fn index_set_get_index(set: &IndexSet<i32>, index: usize) -> (value: Option<i32>)
    ensures
        value == if index < index_set_items(*set).len() {
            Some(index_set_items(*set)[index as int])
        } else {
            None
        },
{
    set.get_index(index).copied()
}

/// A sequence with `id` added at the end unless it is already in it.
pub open spec fn with_id(ids: Seq<i32>, id: i32) -> Seq<i32> {
    if ids.contains(id) {
        ids
    } else {
        ids.push(id)
    }
}

/// The distinct values of a sequence, each at the place of its first
/// occurrence.
pub open spec fn distinct(ids: Seq<i32>) -> Seq<i32>
    decreases ids.len(),
{
    if ids.len() == 0 {
        Seq::empty()
    } else {
        with_id(distinct(ids.drop_last()), ids.last())
    }
}

/// The values of `ids` that `other` holds too, in the order of `ids`.
pub open spec fn common(ids: Seq<i32>, other: Seq<i32>) -> Seq<i32> {
    ids.filter(|id: i32| other.contains(id))
}

/// The values of `ids` that `other` does not hold, in the order of `ids`.
pub open spec fn without(ids: Seq<i32>, other: Seq<i32>) -> Seq<i32> {
    ids.filter(|id: i32| !other.contains(id))
}

/// A set of gallery ids that keeps the order of first insertion.
#[derive(Debug)]
pub struct IdSet {
    ids: IndexSet<i32>,
}

impl View for IdSet {
    type V = Seq<i32>;

    closed spec fn view(&self) -> Seq<i32> {
        index_set_items(self.ids)
    }
}

impl IdSet {
    /// No id occurs twice.
    pub open spec fn well_formed(&self) -> bool {
        self@.no_duplicates()
    }

    /// The empty set.
    pub fn new() -> (set: IdSet)
        ensures
            set@ == Seq::<i32>::empty(),
            set.well_formed(),
    {
        IdSet { ids: index_set_new() }
    }

    /// Adds `id` after all others unless the set holds it; tells whether it
    /// was added.
    pub fn insert(&mut self, id: i32) -> (fresh: bool)
        requires
            old(self).well_formed(),
        ensures
            fresh == !old(self)@.contains(id),
            final(self)@ == with_id(old(self)@, id),
            final(self).well_formed(),
    {
        let fresh = index_set_insert(&mut self.ids, id);
        proof {
            if fresh {
                let before = old(self)@;
                let now = self@;
                assert forall|i: int, j: int|
                    0 <= i < now.len() && 0 <= j < now.len() && i != j implies now[i] != now[j] by {
                    if i < before.len() && j < before.len() {
                    } else if i < before.len() {
                        assert(before.contains(before[i]));
                    } else {
                        assert(before.contains(before[j]));
                    }
                }
            }
        }
        fresh
    }

    /// Whether the set holds `id`.
    pub fn contains(&self, id: i32) -> (present: bool)
        ensures
            present == self@.contains(id),
    {
        index_set_contains(&self.ids, id)
    }

    /// Number of ids in the set.
    pub fn len(&self) -> (len: usize)
        ensures
            len == self@.len(),
    {
        index_set_len(&self.ids)
    }

    /// Whether the set holds no id.
    pub fn is_empty(&self) -> (empty: bool)
        ensures
            empty == (self@.len() == 0),
    {
        index_set_len(&self.ids) == 0
    }

    /// The id at `index` of the insertion order, if there is one.
    pub fn get(&self, index: usize) -> (id: Option<i32>)
        ensures
            id == if index < self@.len() {
                Some(self@[index as int])
            } else {
                None
            },
    {
        index_set_get_index(&self.ids, index)
    }

    /// The ids in insertion order.
    pub fn to_vec(&self) -> (ids: Vec<i32>)
        ensures
            ids@ == self@,
    {
        let n = self.len();
        let mut ids: Vec<i32> = Vec::new();
        let mut i: usize = 0;
        while i < n
            invariant
                i <= n,
                n == self@.len(),
                ids@ == self@.take(i as int),
            decreases n - i,
        {
            match self.get(i) {
                Some(id) => {
                    ids.push(id);
                },
                None => {},
            }
            i += 1;
            assert(ids@ =~= self@.take(i as int));
        }
        assert(self@.take(n as int) =~= self@);
        ids
    }

    /// The set of the distinct values of `ids`, in the order of their first
    /// occurrences.
    pub fn from_ids(ids: &[i32]) -> (set: IdSet)
        ensures
            set@ == distinct(ids@),
            set.well_formed(),
    {
        let mut set = IdSet::new();
        let mut i: usize = 0;
        while i < ids.len()
            invariant
                i <= ids@.len(),
                set.well_formed(),
                set@ == distinct(ids@.take(i as int)),
            decreases ids.len() - i,
        {
            set.insert(ids[i]);
            i += 1;
            assert(ids@.take(i as int).drop_last() =~= ids@.take(i - 1));
        }
        assert(ids@.take(i as int) =~= ids@);
        set
    }

    /// The ids of `self` that `other` holds (`keep_present`) or does not hold
    /// (otherwise), in their order.
    fn select(&self, other: &IdSet, keep_present: bool) -> (set: IdSet)
        requires
            self.well_formed(),
        ensures
            set@ == self@.filter(|id: i32| other@.contains(id) == keep_present),
            set.well_formed(),
    {
        let ghost pred = |id: i32| other@.contains(id) == keep_present;
        let n = self.len();
        let mut set = IdSet::new();
        let mut i: usize = 0;
        proof {
            reveal(Seq::filter);
            assert(self@.take(0).filter(pred) =~= Seq::<i32>::empty());
        }
        while i < n
            invariant
                i <= n,
                n == self@.len(),
                self.well_formed(),
                set.well_formed(),
                pred == (|id: i32| other@.contains(id) == keep_present),
                set@ == self@.take(i as int).filter(pred),
            decreases n - i,
        {
            let ghost before = self@.take(i as int);
            match self.get(i) {
                Some(id) => {
                    proof {
                        reveal(Seq::filter);
                        assert(self@.take(i + 1).drop_last() =~= before);
                        assert(self@.take(i + 1).last() == id);
                        if before.filter(pred).contains(id) {
                            before.lemma_filter_contains_rev(pred, id);
                            let k = choose|k: int| 0 <= k < before.len() && before[k] == id;
                            assert(self@[k] == self@[i as int]);
                        }
                    }
                    if other.contains(id) == keep_present {
                        set.insert(id);
                    }
                },
                None => {},
            }
            i += 1;
        }
        assert(self@.take(n as int) =~= self@);
        set
    }

    /// Keeps the ids that `other` holds too, in their order.
    pub fn retain_common(&mut self, other: &IdSet)
        requires
            old(self).well_formed(),
        ensures
            final(self)@ == common(old(self)@, other@),
            final(self).well_formed(),
    {
        let kept = self.select(other, true);
        proof {
            assert((|id: i32| other@.contains(id) == true) =~= (|id: i32| other@.contains(id)));
        }
        *self = kept;
    }

    /// Drops the ids that `other` holds, keeping the order of the rest.
    pub fn remove_all(&mut self, other: &IdSet)
        requires
            old(self).well_formed(),
        ensures
            final(self)@ == without(old(self)@, other@),
            final(self).well_formed(),
    {
        let kept = self.select(other, false);
        proof {
            assert((|id: i32| other@.contains(id) == false) =~= (|id: i32| !other@.contains(id)));
        }
        *self = kept;
    }
}

} // verus!
