//! Sets of identifiers.

use crate::models::Identifier;
use vstd::prelude::*;

verus! {

/// A set of identifiers. Nothing occurs in it twice; in which order it is
/// walked is not promised.
#[derive(Debug)]
pub struct IdSet<T> {
    items: Vec<T>,
}

impl<T> View for IdSet<T> {
    type V = Set<T>;

    closed spec fn view(&self) -> Set<T> {
        self.items@.to_set()
    }
}

impl<T> IdSet<T> {
    #[verifier::type_invariant]
    spec fn holds_nothing_twice(self) -> bool {
        self.items@.no_duplicates()
    }

    /// The empty set.
    pub fn new() -> (set: Self)
        ensures
            set@ == Set::<T>::empty(),
    {
        let set: IdSet<T> = IdSet { items: Vec::new() };
        assert(set.items@.to_set() =~= Set::<T>::empty());
        set
    }

    /// The identifiers of the set, each once.
    pub fn into_vec(self) -> (items: Vec<T>)
        ensures
            items@.no_duplicates(),
            items@.to_set() == self@,
    {
        proof {
            use_type_invariant(&self);
        }
        self.items
    }
}

impl<T: Identifier> IdSet<T> {
    /// Whether `id` is in the set.
    pub fn contains(&self, id: &T) -> (found: bool)
        ensures
            found == self@.contains(*id),
    {
        let mut i: usize = 0;
        while i < self.items.len()
            invariant
                i <= self.items@.len(),
                forall|j: int| 0 <= j < i ==> self.items@[j] != *id,
            decreases self.items@.len() - i,
        {
            if self.items[i].same(id) {
                assert(self.items@.contains(*id));
                return true;
            }
            i += 1;
        }
        assert(!self.items@.contains(*id));
        false
    }

    /// The set of the identifiers in `items`, however often each occurs there.
    pub fn from_vec(items: Vec<T>) -> (set: Self)
        ensures
            set@ == items@.to_set(),
    {
        let mut set: IdSet<T> = IdSet::new();
        let mut i: usize = 0;
        assert(items@.take(0).to_set() =~= Set::<T>::empty());
        while i < items.len()
            invariant
                i <= items@.len(),
                set@ == items@.take(i as int).to_set(),
            decreases items@.len() - i,
        {
            set.insert(items[i]);
            proof {
                items@.take(i as int).lemma_push_to_set_commute(items@[i as int]);
                assert(items@.take(i as int).push(items@[i as int]) =~= items@.take(i + 1));
            }
            i += 1;
        }
        assert(items@.take(items@.len() as int) =~= items@);
        set
    }

    /// Adds `id` to the set, unless it is there.
    fn insert(&mut self, id: T)
        ensures
            final(self)@ == old(self)@.insert(id),
    {
        proof {
            use_type_invariant(&*self);
        }
        if self.contains(&id) {
            assert(self@.insert(id) =~= self@);
        } else {
            let mut items: Vec<T> = Vec::new();
            std::mem::swap(&mut items, &mut self.items);
            proof {
                items@.lemma_push_to_set_commute(id);
                assert(!items@.contains(id));
                assert(items@.push(id).no_duplicates());
            }
            items.push(id);
            self.items = items;
        }
    }
}

/// A set that is made of a list holds what the list holds and nothing else, and
/// lists each of it once.
pub proof fn law_set_holds_what_it_is_made_of<T: Identifier>(
    items: Vec<T>,
    set: IdSet<T>,
    id: T,
    found: bool,
    listed: Vec<T>,
)
    requires
        call_ensures(IdSet::<T>::from_vec, (items,), set),
        call_ensures(IdSet::<T>::contains, (&set, &id), found),
        call_ensures(IdSet::<T>::into_vec, (set,), listed),
    ensures
        found <==> exists|i: int| 0 <= i < items@.len() && items@[i] == id,
        found <==> exists|i: int| 0 <= i < listed@.len() && listed@[i] == id,
        forall|i: int, j: int|
            0 <= i < j < listed@.len() ==> #[trigger] listed@[i] != #[trigger] listed@[j],
{
    assert(items@.to_set().contains(id) == items@.contains(id));
    assert(listed@.to_set().contains(id) == listed@.contains(id));
}

/// Nothing is in a new set.
pub proof fn law_new_set_is_empty<T: Identifier>(set: IdSet<T>, id: T, found: bool, listed: Vec<T>)
    requires
        call_ensures(IdSet::<T>::new, (), set),
        call_ensures(IdSet::<T>::contains, (&set, &id), found),
        call_ensures(IdSet::<T>::into_vec, (set,), listed),
    ensures
        !found,
        listed@.len() == 0,
{
    if listed@.len() > 0 {
        assert(listed@.contains(listed@[0]));
        assert(listed@.to_set().contains(listed@[0]));
    }
}

} // verus!
