use crate::dismiss::{transition, Action, Event, Phase};
use crate::store::{
    cleared, is_first_with_id, lemma_cleared_empty, lemma_cleared_push,
    lemma_first_with_id_is_one, lemma_visible_of_empty, lemma_visible_of_push,
    lemma_without_absent_id, lemma_without_value_empty, lemma_without_value_push, ranked,
    visible_of, without_id, without_value,
};
use crate::toast::Toast;
use vstd::prelude::*;
use vstd::std_specs::cmp::PartialEqSpec;

verus! {

/// Whether `places` lists, in rising order, the places of all the entries of
/// rank 0 in `entries`.
pub open spec fn lists_rank_zero<T>(entries: Seq<(T, u8)>, places: Seq<int>) -> bool {
    &&& forall|k: int|
        0 <= k < places.len() ==> 0 <= #[trigger] places[k] < entries.len()
            && entries[places[k]].1 == 0
    &&& forall|k: int, l: int| 0 <= k < l < places.len() ==> #[trigger] places[k] < #[trigger] places[l]
    &&& forall|i: int|
        0 <= i < entries.len() && (#[trigger] entries[i]).1 == 0 ==> places.contains(i)
}

/// The visible projection is the subsequence of the entries of rank 0, in
/// their order: the places of these entries, taken in rising order, give the
/// payloads of the projection one by one.
pub proof fn visible_is_rank_zero_subsequence<T>(entries: Seq<(T, u8)>) -> (places: Seq<int>)
    ensures
        lists_rank_zero(entries, places),
        visible_of(entries).len() == places.len(),
        forall|k: int|
            0 <= k < places.len() ==> visible_of(entries)[k] == entries[#[trigger] places[k]].0,
    decreases entries.len(),
{
    if entries.len() == 0 {
        lemma_visible_of_empty::<T>();
        assert(entries =~= Seq::<(T, u8)>::empty());
        Seq::<int>::empty()
    } else {
        let front = entries.drop_last();
        let last = entries.last();
        let before = visible_is_rank_zero_subsequence(front);
        lemma_visible_of_push(front, last);
        assert(entries =~= front.push(last));
        if last.1 == 0 {
            let places = before.push(entries.len() - 1);
            assert forall|i: int|
                0 <= i < entries.len() && (#[trigger] entries[i]).1 == 0 implies places.contains(
                i,
            ) by {
                if i < front.len() {
                    assert(front[i].1 == 0);
                    let k = choose|k: int| 0 <= k < before.len() && before[k] == i;
                    assert(places[k] == i);
                } else {
                    assert(places[places.len() - 1] == i);
                }
            }
            places
        } else {
            assert forall|i: int|
                0 <= i < entries.len() && (#[trigger] entries[i]).1 == 0 implies before.contains(
                i,
            ) by {
                assert(front[i].1 == 0);
            }
            before
        }
    }
}

/// An entry that is added and then given a rank above 0 is held back: it
/// stands last in the entries under that rank, and the visible projection is
/// what it was before the entry came.
pub proof fn hidden_entry_is_kept_but_not_shown<T>(entries: Seq<(T, u8)>, toast: T, rank: u8)
    requires
        rank > 0,
    ensures
        ranked(entries.push((toast, 0u8)), rank) == entries.push((toast, rank)),
        ranked(entries.push((toast, 0u8)), rank).contains((toast, rank)),
        visible_of(ranked(entries.push((toast, 0u8)), rank)) == visible_of(entries),
{
    let after = ranked(entries.push((toast, 0u8)), rank);
    assert(after =~= entries.push((toast, rank)));
    assert(after[after.len() - 1] == (toast, rank));
    lemma_visible_of_push(entries, (toast, rank));
}

/// A payload that the visible projection did not hold before it was added
/// under a rank above 0 is not in the visible projection afterwards.
pub proof fn hidden_payload_is_not_visible<T>(entries: Seq<(T, u8)>, toast: T, rank: u8)
    requires
        rank > 0,
        !visible_of(entries).contains(toast),
    ensures
        !visible_of(ranked(entries.push((toast, 0u8)), rank)).contains(toast),
{
    hidden_entry_is_kept_but_not_shown(entries, toast, rank);
}

/// What `k` clearings in a row leave of `entries`.
pub open spec fn cleared_times<T>(entries: Seq<(T, u8)>, k: nat) -> Seq<(T, u8)>
    decreases k,
{
    if k == 0 {
        entries
    } else {
        cleared(cleared_times(entries, (k - 1) as nat))
    }
}

/// The entries of `entries` whose rank is at least `k`, in their order, each
/// with its rank lowered by `k`.
pub open spec fn lowered<T>(entries: Seq<(T, u8)>, k: nat) -> Seq<(T, u8)> {
    entries.filter(|e: (T, u8)| e.1 >= k).map_values(|e: (T, u8)| (e.0, (e.1 - k) as u8))
}

/// Nothing is left of an empty sequence of entries.
proof fn lemma_lowered_empty<T>(k: nat)
    ensures
        lowered(Seq::<(T, u8)>::empty(), k) == Seq::<(T, u8)>::empty(),
{
    reveal(Seq::filter);
    assert(lowered(Seq::<(T, u8)>::empty(), k) =~= Seq::<(T, u8)>::empty());
}

/// `lowered`, entry by entry: a further entry is dropped where its rank is
/// below `k` and else kept with its rank lowered by `k`.
proof fn lemma_lowered_push<T>(entries: Seq<(T, u8)>, entry: (T, u8), k: nat)
    ensures
        lowered(entries.push(entry), k) == if entry.1 >= k {
            lowered(entries, k).push((entry.0, (entry.1 - k) as u8))
        } else {
            lowered(entries, k)
        },
{
    reveal(Seq::filter);
    let high = |e: (T, u8)| e.1 >= k;
    entries.lemma_filter_push(entry, high);
    assert(lowered(entries.push(entry), k) =~= if entry.1 >= k {
        lowered(entries, k).push((entry.0, (entry.1 - k) as u8))
    } else {
        lowered(entries, k)
    });
}

/// One clearing after a lowering by `k` is a lowering by `k + 1`.
proof fn lemma_cleared_lowered<T>(entries: Seq<(T, u8)>, k: nat)
    ensures
        cleared(lowered(entries, k)) == lowered(entries, k + 1),
    decreases entries.len(),
{
    if entries.len() == 0 {
        lemma_lowered_empty::<T>(k);
        lemma_lowered_empty::<T>(k + 1);
        lemma_cleared_empty::<T>();
        assert(entries =~= Seq::<(T, u8)>::empty());
    } else {
        let front = entries.drop_last();
        let last = entries.last();
        assert(entries =~= front.push(last));
        lemma_cleared_lowered(front, k);
        lemma_lowered_push(front, last, k);
        lemma_lowered_push(front, last, k + 1);
        if last.1 >= k {
            lemma_cleared_push(lowered(front, k), (last.0, (last.1 - k) as u8));
        }
    }
}

/// After `k` clearings in a row with nothing added in between, an entry that
/// had a rank below `k` is gone, every other entry is there with its rank
/// lowered by `k`, and the entries that are left stand in their old order.
pub proof fn repeated_clearing_lowers_ranks<T>(entries: Seq<(T, u8)>, k: nat)
    ensures
        cleared_times(entries, k) == lowered(entries, k),
    decreases k,
{
    if k == 0 {
        assert(lowered(entries, 0) =~= entries) by {
            lemma_lowered_zero(entries);
        }
    } else {
        repeated_clearing_lowers_ranks(entries, (k - 1) as nat);
        lemma_cleared_lowered(entries, (k - 1) as nat);
    }
}

/// A lowering by 0 changes nothing.
proof fn lemma_lowered_zero<T>(entries: Seq<(T, u8)>)
    ensures
        lowered(entries, 0) == entries,
    decreases entries.len(),
{
    if entries.len() == 0 {
        lemma_lowered_empty::<T>(0);
        assert(entries =~= Seq::<(T, u8)>::empty());
    } else {
        let front = entries.drop_last();
        let last = entries.last();
        assert(entries =~= front.push(last));
        lemma_lowered_zero(front);
        lemma_lowered_push(front, last, 0);
    }
}

/// Clearing an empty store leaves it empty, as does setting a rank in it,
/// and an empty store shows nothing.
pub proof fn empty_store_stays_empty<T>(rank: u8)
    ensures
        cleared(Seq::<(T, u8)>::empty()) == Seq::<(T, u8)>::empty(),
        ranked(Seq::<(T, u8)>::empty(), rank) == Seq::<(T, u8)>::empty(),
        visible_of(Seq::<(T, u8)>::empty()) == Seq::<T>::empty(),
{
    lemma_cleared_empty::<T>();
    lemma_visible_of_empty::<T>();
}

/// After a removal by value no entry with an equal payload is left, so that
/// a second removal of the same value changes nothing.
pub proof fn removal_by_value_is_idempotent<T: PartialEq>(entries: Seq<(T, u8)>, value: T)
    ensures
        forall|i: int|
            0 <= i < without_value(entries, value).len() ==> !(#[trigger] without_value(
                entries,
                value,
            )[i]).0.eq_spec(&value),
        without_value(without_value(entries, value), value) == without_value(entries, value),
    decreases entries.len(),
{
    if entries.len() == 0 {
        lemma_without_value_empty(value);
        assert(entries =~= Seq::<(T, u8)>::empty());
    } else {
        let front = entries.drop_last();
        let last = entries.last();
        assert(entries =~= front.push(last));
        removal_by_value_is_idempotent(front, value);
        lemma_without_value_push(front, last, value);
        lemma_without_value_push(without_value(front, value), last, value);
    }
}

/// Where no payload equals the value, its removal changes nothing.
pub proof fn removal_of_absent_value_changes_nothing<T: PartialEq>(
    entries: Seq<(T, u8)>,
    value: T,
)
    requires
        forall|i: int| 0 <= i < entries.len() ==> !(#[trigger] entries[i]).0.eq_spec(&value),
    ensures
        without_value(entries, value) == entries,
    decreases entries.len(),
{
    if entries.len() == 0 {
        lemma_without_value_empty(value);
        assert(entries =~= Seq::<(T, u8)>::empty());
    } else {
        let front = entries.drop_last();
        let last = entries.last();
        assert(entries =~= front.push(last));
        assert forall|i: int| 0 <= i < front.len() implies !(#[trigger] front[i]).0.eq_spec(
            &value,
        ) by {
            assert(front[i] == entries[i]);
        }
        removal_of_absent_value_changes_nothing(front, value);
        lemma_without_value_push(front, last, value);
    }
}

/// Whether at most one entry of `entries` holds a toast with the identifier
/// `id`.
pub open spec fn id_is_unique(entries: Seq<(Toast, u8)>, id: u128) -> bool {
    forall|i: int, j: int|
        0 <= i < entries.len() && 0 <= j < entries.len() && (#[trigger] entries[i]).0@.id == id && (
        #[trigger] entries[j]).0@.id == id ==> i == j
}

/// Where at most one entry has the identifier, no entry has it after a
/// removal by identifier, so that a second removal changes nothing.
pub proof fn removal_by_id_is_idempotent(entries: Seq<(Toast, u8)>, id: u128)
    requires
        id_is_unique(entries, id),
    ensures
        forall|i: int|
            0 <= i < without_id(entries, id).len() ==> (#[trigger] without_id(entries, id)[i]).0@.id
                != id,
        without_id(without_id(entries, id), id) == without_id(entries, id),
{
    if exists|i: int| is_first_with_id(entries, id, i) {
        let first = choose|i: int| is_first_with_id(entries, id, i);
        lemma_first_with_id_is_one(entries, id, first);
        let rest = entries.remove(first);
        assert forall|i: int| 0 <= i < rest.len() implies (#[trigger] rest[i]).0@.id != id by {
            if i < first {
                assert(rest[i] == entries[i]);
            } else {
                assert(rest[i] == entries[i + 1]);
            }
        }
        lemma_without_absent_id(rest, id);
    } else {
        assert forall|i: int| 0 <= i < entries.len() implies (#[trigger] entries[i]).0@.id
            != id by {
            if entries[i].0@.id == id {
                lemma_some_entry_is_first(entries, id, i);
            }
        }
    }
}

/// A removal by identifier takes one entry at most out of the store.
pub proof fn removal_by_id_takes_one_entry_at_most(entries: Seq<(Toast, u8)>, id: u128)
    ensures
        entries.len() - 1 <= without_id(entries, id).len() <= entries.len(),
{
}

/// Where some entry has the identifier, one entry is the first to have it.
proof fn lemma_some_entry_is_first(entries: Seq<(Toast, u8)>, id: u128, i: int)
    requires
        0 <= i < entries.len(),
        entries[i].0@.id == id,
    ensures
        exists|first: int| is_first_with_id(entries, id, first),
    decreases i,
{
    if forall|j: int| 0 <= j < i ==> (#[trigger] entries[j]).0@.id != id {
        assert(is_first_with_id(entries, id, i));
    } else {
        let j = choose|j: int| 0 <= j < i && (#[trigger] entries[j]).0@.id == id;
        lemma_some_entry_is_first(entries, id, j);
    }
}

/// The phase of a rendered toast after the events `events` have come in
/// that order, and what was to be done after each of them.
pub open spec fn run(phase: Phase, events: Seq<Event>) -> (Phase, Seq<Action>)
    decreases events.len(),
{
    if events.len() == 0 {
        (phase, Seq::<Action>::empty())
    } else {
        let before = run(phase, events.drop_last());
        let last = transition(before.0, events.last());
        (last.0, before.1.push(last.1))
    }
}

/// Whether `action` removes from the store.
pub open spec fn is_removal(action: Action) -> bool {
    action == Action::RemoveByValue || action == Action::RemoveById
}

/// The number of fade-outs that `actions` begin.
pub open spec fn fades(actions: Seq<Action>) -> nat {
    actions.filter(|a: Action| a == Action::BeginFade).len()
}

/// The number of removals that `actions` ask for.
pub open spec fn removals(actions: Seq<Action>) -> nat {
    actions.filter(|a: Action| is_removal(a)).len()
}

/// Whatever events come, and in whatever order, a toast that is rendered
/// visible begins at most one fade-out and asks for at most one removal:
/// none before the first trigger fires, one fade-out and no removal while it
/// fades, and one of each once it is removed.
pub proof fn one_fade_and_one_removal_at_most(events: Seq<Event>)
    ensures
        match run(Phase::Visible, events).0 {
            Phase::Visible => fades(run(Phase::Visible, events).1) == 0 && removals(
                run(Phase::Visible, events).1,
            ) == 0,
            Phase::Dismissing(_) => fades(run(Phase::Visible, events).1) == 1 && removals(
                run(Phase::Visible, events).1,
            ) == 0,
            Phase::Removed => fades(run(Phase::Visible, events).1) == 1 && removals(
                run(Phase::Visible, events).1,
            ) == 1,
        },
    decreases events.len(),
{
    reveal(Seq::filter);
    if events.len() > 0 {
        one_fade_and_one_removal_at_most(events.drop_last());
        let before = run(Phase::Visible, events.drop_last());
        let last = transition(before.0, events.last());
        before.1.lemma_filter_push(last.1, |a: Action| a == Action::BeginFade);
        before.1.lemma_filter_push(last.1, |a: Action| is_removal(a));
    }
}

/// Once a trigger has fired, a trigger that fires later changes nothing, and
/// once the toast is removed, no event does.
pub proof fn later_events_change_nothing(phase: Phase, event: Event)
    ensures
        phase is Dismissing && event != Event::FadeElapsed ==> transition(phase, event) == (
            phase,
            Action::Nothing,
        ),
        phase is Removed ==> transition(phase, event) == (phase, Action::Nothing),
{
}

} // verus!
