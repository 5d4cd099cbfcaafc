use crate::toast::Toast;
use vstd::prelude::*;
use vstd::std_specs::cmp::PartialEqSpec;

verus! {

/// The payloads of the entries of `entries` whose rank is 0, in their order.
pub open spec fn visible_of<T>(entries: Seq<(T, u8)>) -> Seq<T> {
    entries.filter(|e: (T, u8)| e.1 == 0).map_values(|e: (T, u8)| e.0)
}

/// What one clearing leaves of `entries`: the entries of rank 0 are gone, and
/// each other entry has its rank lowered by one.
pub open spec fn cleared<T>(entries: Seq<(T, u8)>) -> Seq<(T, u8)> {
    entries.filter(|e: (T, u8)| e.1 > 0).map_values(|e: (T, u8)| (e.0, (e.1 - 1) as u8))
}

/// `entries` with the rank of its last entry set to `rank`; an empty sequence
/// stays empty.
pub open spec fn ranked<T>(entries: Seq<(T, u8)>, rank: u8) -> Seq<(T, u8)> {
    if entries.len() == 0 {
        entries
    } else {
        entries.update(entries.len() - 1, (entries.last().0, rank))
    }
}

/// `entries` without the entries whose payload equals `value`.
pub open spec fn without_value<T: PartialEq>(entries: Seq<(T, u8)>, value: T) -> Seq<(T, u8)> {
    entries.filter(|e: (T, u8)| !e.0.eq_spec(&value))
}

/// Whether `i` is the place of the first entry of `entries` whose toast has
/// the identifier `id`.
pub open spec fn is_first_with_id(entries: Seq<(Toast, u8)>, id: u128, i: int) -> bool {
    &&& 0 <= i < entries.len()
    &&& entries[i].0@.id == id
    &&& forall|j: int| 0 <= j < i ==> (#[trigger] entries[j]).0@.id != id
}

/// `entries` without the first entry whose toast has the identifier `id`;
/// `entries` itself where no toast has it.
pub open spec fn without_id(entries: Seq<(Toast, u8)>, id: u128) -> Seq<(Toast, u8)> {
    if exists|i: int| is_first_with_id(entries, id, i) {
        entries.remove(choose|i: int| is_first_with_id(entries, id, i))
    } else {
        entries
    }
}

/// An ordered store of toasts. Each entry pairs a payload with a rank; an
/// entry of rank 0 is visible, one of a higher rank is held back.
#[derive(Debug)]
pub struct Toasts<T> {
    entries: Vec<(T, u8)>,
}

impl<T> View for Toasts<T> {
    type V = Seq<(T, u8)>;

    closed spec fn view(&self) -> Seq<(T, u8)> {
        self.entries@
    }
}

impl<T> Toasts<T> {
    /// An empty store.
    pub fn new() -> (store: Self)
        ensures
            store@ == Seq::<(T, u8)>::empty(),
    {
        Toasts { entries: Vec::new() }
    }

    /// A store that holds `entries`, in their order.
    pub fn from_entries(entries: Vec<(T, u8)>) -> (store: Self)
        ensures
            store@ == entries@,
    {
        Toasts { entries }
    }

    /// The entries, in their order.
    pub fn entries(&self) -> (entries: &Vec<(T, u8)>)
        ensures
            entries@ == self@,
    {
        &self.entries
    }

    /// The number of entries, the held back ones included.
    pub fn len(&self) -> (len: usize)
        ensures
            len == self@.len(),
    {
        self.entries.len()
    }

    /// Whether the store holds no entry at all.
    pub fn is_empty(&self) -> (empty: bool)
        ensures
            empty == (self@.len() == 0),
    {
        self.entries.len() == 0
    }

    /// The visible projection: a copy of the payload of each entry of rank 0,
    /// in the order of the entries.
    pub fn visible(&self) -> (shown: Vec<T>) where T: Clone
        ensures
            shown@.len() == visible_of(self@).len(),
            forall|k: int|
                0 <= k < shown@.len() ==> cloned::<T>(visible_of(self@)[k], #[trigger] shown@[k]),
    {
        let mut shown: Vec<T> = Vec::new();
        let n: usize = self.entries.len();
        proof {
            lemma_visible_of_empty::<T>();
            assert(self@.take(0) =~= Seq::<(T, u8)>::empty());
        }
        for i in 0..n
            invariant
                n == self@.len(),
                shown@.len() == visible_of(self@.take(i as int)).len(),
                forall|k: int|
                    0 <= k < shown@.len() ==> cloned::<T>(
                        visible_of(self@.take(i as int))[k],
                        #[trigger] shown@[k],
                    ),
        {
            proof {
                lemma_visible_of_push(self@.take(i as int), self@[i as int]);
                assert(self@.take(i + 1) =~= self@.take(i as int).push(self@[i as int]));
            }
            if self.entries[i].1 == 0 {
                shown.push(self.entries[i].0.clone());
            }
        }
        assert(self@.take(n as int) =~= self@);
        shown
    }


    /// Appends `toast` as a visible entry, and hands the store back so that
    /// a call of `with_rank` can follow.
    pub fn add_toast(&mut self, toast: T) -> (store: &mut Self)
        ensures
            store@ == old(self)@.push((toast, 0u8)),
            visible_of(store@) == visible_of(old(self)@).push(toast),
            *final(self) == *final(store),
    {
        proof {
            lemma_visible_of_push(self@, (toast, 0u8));
        }
        self.entries.push((toast, 0));
        self
    }

    /// Sets the rank of the last entry to `rank`; does nothing to an empty
    /// store.
    pub fn with_rank(&mut self, rank: u8) -> (store: &mut Self)
        ensures
            store@ == ranked(old(self)@, rank),
            *final(self) == *final(store),
    {
        match self.entries.pop() {
            Some(last) => {
                self.entries.push((last.0, rank));
                assert(self.entries@ =~= ranked(old(self)@, rank));
            },
            None => {},
        }
        self
    }

    /// Drops every entry of rank 0 and lowers the rank of each other entry by
    /// one.
    pub fn clear_toasts(&mut self)
        ensures
            final(self)@ == cleared(old(self)@),
    {
        let mut before: Vec<(T, u8)> = Vec::new();
        std::mem::swap(&mut self.entries, &mut before);
        let ghost all = before@;
        let mut kept: Vec<(T, u8)> = Vec::new();
        proof {
            lemma_cleared_empty::<T>();
            assert(all.take(0) =~= Seq::<(T, u8)>::empty());
        }
        for entry in it: before
            invariant
                it.seq() == all,
                kept@ == cleared(all.take(it.index() as int)),
        {
            proof {
                let done = all.take(it.index() as int);
                lemma_cleared_push(done, entry);
                assert(all.take(it.index() + 1) =~= done.push(entry));
            }
            if entry.1 > 0 {
                kept.push((entry.0, entry.1 - 1));
            }
        }
        assert(all.take(all.len() as int) =~= all);
        self.entries = kept;
    }

    /// Removes every entry whose payload equals `value`. A store without
    /// such an entry stays as it is.
    pub fn remove_by_value(&mut self, value: &T) where T: PartialEq
        ensures
            T::obeys_eq_spec() ==> final(self)@ == without_value(old(self)@, *value),
    {
        let mut before: Vec<(T, u8)> = Vec::new();
        std::mem::swap(&mut self.entries, &mut before);
        let ghost all = before@;
        let mut kept: Vec<(T, u8)> = Vec::new();
        proof {
            lemma_without_value_empty(*value);
            assert(all.take(0) =~= Seq::<(T, u8)>::empty());
        }
        for entry in it: before
            invariant
                it.seq() == all,
                T::obeys_eq_spec() ==> kept@ == without_value(all.take(it.index() as int), *value),
        {
            proof {
                let done = all.take(it.index() as int);
                lemma_without_value_push(done, entry, *value);
                assert(all.take(it.index() + 1) =~= done.push(entry));
            }
            if entry.0 != *value {
                kept.push(entry);
            }
        }
        assert(all.take(all.len() as int) =~= all);
        self.entries = kept;
    }
}

impl Toasts<Toast> {
    /// Removes the first entry whose toast has the identifier `id`. A store
    /// without such an entry stays as it is.
    pub fn remove_by_id(&mut self, id: u128)
        ensures
            final(self)@ == without_id(old(self)@, id),
    {
        let n: usize = self.entries.len();
        let mut i: usize = 0;
        while i < n
            invariant
                n == self.entries@.len(),
                self.entries@ == old(self)@,
                i <= n,
                forall|j: int| 0 <= j < i ==> (#[trigger] self.entries@[j]).0@.id != id,
            decreases n - i,
        {
            if self.entries[i].0.id() == id {
                proof {
                    lemma_first_with_id_is_one(self.entries@, id, i as int);
                }
                self.entries.remove(i);
                return;
            }
            i += 1;
        }
        proof {
            lemma_without_absent_id(self.entries@, id);
        }
    }
}

impl<T> Default for Toasts<T> {
    /// An empty store.
    fn default() -> (store: Self)
        ensures
            store@ == Seq::<(T, u8)>::empty(),
    {
        Toasts { entries: Vec::new() }
    }
}

impl<T: Clone> Clone for Toasts<T> {
    /// A store of its own with a copy of each payload under the same rank,
    /// in the same order.
    fn clone(&self) -> (copy: Self)
        ensures
            copy@.len() == self@.len(),
            forall|k: int|
                0 <= k < self@.len() ==> cloned::<T>(self@[k].0, (#[trigger] copy@[k]).0)
                    && copy@[k].1 == self@[k].1,
    {
        let mut entries: Vec<(T, u8)> = Vec::new();
        let n: usize = self.entries.len();
        for i in 0..n
            invariant
                n == self@.len(),
                entries@.len() == i,
                forall|k: int|
                    0 <= k < i ==> cloned::<T>(self@[k].0, (#[trigger] entries@[k]).0)
                        && entries@[k].1 == self@[k].1,
        {
            entries.push((self.entries[i].0.clone(), self.entries[i].1));
        }
        Toasts { entries }
    }
}

/// An empty sequence of entries shows nothing.
pub proof fn lemma_visible_of_empty<T>()
    ensures
        visible_of(Seq::<(T, u8)>::empty()) == Seq::<T>::empty(),
{
    reveal(Seq::filter);
    assert(visible_of(Seq::<(T, u8)>::empty()) =~= Seq::<T>::empty());
}

/// `visible_of`, entry by entry: a further entry shows its payload where its
/// rank is 0, and nothing else.
pub proof fn lemma_visible_of_push<T>(entries: Seq<(T, u8)>, entry: (T, u8))
    ensures
        visible_of(entries.push(entry)) == if entry.1 == 0 {
            visible_of(entries).push(entry.0)
        } else {
            visible_of(entries)
        },
{
    reveal(Seq::filter);
    let shown = |e: (T, u8)| e.1 == 0;
    entries.lemma_filter_push(entry, shown);
    assert(visible_of(entries.push(entry)) =~= if entry.1 == 0 {
        visible_of(entries).push(entry.0)
    } else {
        visible_of(entries)
    });
}

/// Clearing an empty sequence of entries leaves it empty.
pub proof fn lemma_cleared_empty<T>()
    ensures
        cleared(Seq::<(T, u8)>::empty()) == Seq::<(T, u8)>::empty(),
{
    reveal(Seq::filter);
    assert(cleared(Seq::<(T, u8)>::empty()) =~= Seq::<(T, u8)>::empty());
}

/// `cleared`, entry by entry: a further entry is dropped where its rank is 0
/// and else kept with its rank lowered by one.
pub proof fn lemma_cleared_push<T>(entries: Seq<(T, u8)>, entry: (T, u8))
    ensures
        cleared(entries.push(entry)) == if entry.1 > 0 {
            cleared(entries).push((entry.0, (entry.1 - 1) as u8))
        } else {
            cleared(entries)
        },
{
    reveal(Seq::filter);
    let held = |e: (T, u8)| e.1 > 0;
    entries.lemma_filter_push(entry, held);
    assert(cleared(entries.push(entry)) =~= if entry.1 > 0 {
        cleared(entries).push((entry.0, (entry.1 - 1) as u8))
    } else {
        cleared(entries)
    });
}

/// Nothing can be removed from an empty sequence of entries.
pub proof fn lemma_without_value_empty<T: PartialEq>(value: T)
    ensures
        without_value(Seq::<(T, u8)>::empty(), value) == Seq::<(T, u8)>::empty(),
{
    reveal(Seq::filter);
}

/// `without_value`, entry by entry: a further entry is kept unless its
/// payload equals `value`.
pub proof fn lemma_without_value_push<T: PartialEq>(entries: Seq<(T, u8)>, entry: (T, u8), value: T)
    ensures
        without_value(entries.push(entry), value) == if entry.0.eq_spec(&value) {
            without_value(entries, value)
        } else {
            without_value(entries, value).push(entry)
        },
{
    reveal(Seq::filter);
    let other = |e: (T, u8)| !e.0.eq_spec(&value);
    entries.lemma_filter_push(entry, other);
}

/// The first entry with a given identifier is at one place only, and
/// `without_id` removes the entry at that place.
pub proof fn lemma_first_with_id_is_one(entries: Seq<(Toast, u8)>, id: u128, i: int)
    requires
        is_first_with_id(entries, id, i),
    ensures
        forall|j: int| is_first_with_id(entries, id, j) ==> j == i,
        without_id(entries, id) == entries.remove(i),
{
    assert forall|j: int| is_first_with_id(entries, id, j) implies j == i by {
        if j < i {
            assert(entries[j].0@.id != id);
        } else if i < j {
            assert(entries[i].0@.id != id);
        }
    }
}

/// Where no toast has the identifier, `without_id` changes nothing.
pub proof fn lemma_without_absent_id(entries: Seq<(Toast, u8)>, id: u128)
    requires
        forall|j: int| 0 <= j < entries.len() ==> (#[trigger] entries[j]).0@.id != id,
    ensures
        without_id(entries, id) == entries,
{
}

} // verus!
