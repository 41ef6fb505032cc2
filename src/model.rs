use vstd::prelude::*;

verus! {

/// The entries of `subs` whose flag in `live` is set, in the order they stand in `subs`.
pub open spec fn keep_live<W>(subs: Seq<W>, live: Seq<bool>) -> Seq<W>
    decreases subs.len(),
{
    if subs.len() == 0 || live.len() == 0 {
        seq![]
    } else {
        let rest = keep_live(subs.drop_last(), live.drop_last());
        if live.last() {
            rest.push(subs.last())
        } else {
            rest
        }
    }
}

/// Which of the resolved handles found their referent alive.
pub open spec fn resolved_live<R>(resolved: Seq<Option<R>>) -> Seq<bool> {
    resolved.map_values(|a: Option<R>| a is Some)
}

/// How many flags of `live` are set.
pub open spec fn live_count(live: Seq<bool>) -> nat
    decreases live.len(),
{
    if live.len() == 0 {
        0
    } else {
        live_count(live.drop_last()) + if live.last() { 1nat } else { 0nat }
    }
}

/// How many flags of `live` are clear.
pub open spec fn dead_count(live: Seq<bool>) -> nat {
    (live.len() - live_count(live)) as nat
}

/// One delivery of `v` to each handle of `subs`, in order.
pub open spec fn notices<W, V>(subs: Seq<W>, v: V) -> Seq<(W, V)> {
    subs.map_values(|w: W| (w, v))
}

/// A notifying pass over `subs0`: each entry was found alive or dead, the dead
/// ones were dropped, and each live one received `v` once, in registration
/// order, after the deliveries already in `log0`.
pub open spec fn notified<W, V>(
    subs0: Seq<W>,
    log0: Seq<(W, V)>,
    v: V,
    subs1: Seq<W>,
    log1: Seq<(W, V)>,
) -> bool {
    exists|live: Seq<bool>|
        #![trigger keep_live(subs0, live)]
        live.len() == subs0.len() && subs1 == keep_live(subs0, live) && log1 == log0 + notices(
            subs1,
            v,
        )
}

/// A pruning pass over `subs0` that delivers nothing.
pub open spec fn pruned<W>(subs0: Seq<W>, subs1: Seq<W>) -> bool {
    exists|live: Seq<bool>|
        #![trigger keep_live(subs0, live)]
        live.len() == subs0.len() && subs1 == keep_live(subs0, live)
}

/// Deciding on one more entry extends the kept entries by that entry when it
/// is found alive.
pub proof fn lemma_keep_live_push<W>(subs: Seq<W>, live: Seq<bool>, alive: bool)
    requires
        live.len() < subs.len(),
    ensures
        keep_live(subs.take(live.len() + 1int), live.push(alive)) == if alive {
            keep_live(subs.take(live.len() as int), live).push(subs[live.len() as int])
        } else {
            keep_live(subs.take(live.len() as int), live)
        },
{
    assert(subs.take(live.len() + 1int).drop_last() =~= subs.take(live.len() as int));
    assert(live.push(alive).drop_last() =~= live);
}

/// A pass keeps one entry per live flag.
pub proof fn lemma_keep_live_len<W>(subs: Seq<W>, live: Seq<bool>)
    requires
        subs.len() == live.len(),
    ensures
        keep_live(subs, live).len() == live_count(live),
        live_count(live) <= live.len(),
    decreases subs.len(),
{
    if subs.len() > 0 {
        lemma_keep_live_len(subs.drop_last(), live.drop_last());
    }
}

/// A live entry lands at the slot given by the live entries before it.
pub proof fn lemma_keep_live_index<W>(subs: Seq<W>, live: Seq<bool>, i: int)
    requires
        subs.len() == live.len(),
        0 <= i < subs.len(),
        live[i],
    ensures
        live_count(live.take(i)) < keep_live(subs, live).len(),
        keep_live(subs, live)[live_count(live.take(i)) as int] == subs[i],
    decreases subs.len(),
{
    lemma_keep_live_len(subs.drop_last(), live.drop_last());
    if i == subs.len() - 1 {
        assert(live.take(i) =~= live.drop_last());
    } else {
        assert(live.drop_last().take(i) =~= live.take(i));
        lemma_keep_live_index(subs.drop_last(), live.drop_last(), i);
    }
}

/// Live flags before a live one count strictly fewer than those before any
/// later position.
pub proof fn lemma_live_count_grows(live: Seq<bool>, i: int, j: int)
    requires
        0 <= i < j <= live.len(),
        live[i],
    ensures
        live_count(live.take(i)) < live_count(live.take(j)),
    decreases j - i,
{
    assert(live.take(j).drop_last() =~= live.take(j - 1));
    if j > i + 1 {
        lemma_live_count_grows(live, i, j - 1);
    }
}

/// A notifying pass removes exactly the dead entries: the subscribers shrink
/// by the number of dead ones, and as many deliveries are made as there are
/// live ones.
pub proof fn lemma_pass_drops_dead<W, V>(subs: Seq<W>, live: Seq<bool>, v: V)
    requires
        subs.len() == live.len(),
    ensures
        keep_live(subs, live).len() == subs.len() - dead_count(live),
        notices(keep_live(subs, live), v).len() == live_count(live),
{
    lemma_keep_live_len(subs, live);
}

/// Pruning neither skips nor repeats a live entry, wherever the dead ones
/// stand: each live entry receives exactly one delivery, at its own slot, and
/// the slots follow registration order.
pub proof fn lemma_pass_reaches_each_live_once<W, V>(subs: Seq<W>, live: Seq<bool>, v: V)
    requires
        subs.len() == live.len(),
    ensures
        notices(keep_live(subs, live), v).len() == live_count(live),
        forall|i: int|
            0 <= i < subs.len() && live[i] ==> {
                &&& live_count(#[trigger] live.take(i)) < live_count(live)
                &&& notices(keep_live(subs, live), v)[live_count(live.take(i)) as int] == (
                    subs[i],
                    v,
                )
            },
        forall|i: int, j: int|
            0 <= i < j < subs.len() && live[i] && live[j] ==> live_count(#[trigger] live.take(i))
                < live_count(#[trigger] live.take(j)),
{
    lemma_keep_live_len(subs, live);
    assert forall|i: int| 0 <= i < subs.len() && live[i] implies {
        &&& live_count(#[trigger] live.take(i)) < live_count(live)
        &&& notices(keep_live(subs, live), v)[live_count(live.take(i)) as int] == (subs[i], v)
    } by {
        lemma_keep_live_index(subs, live, i);
    }
    assert forall|i: int, j: int|
        0 <= i < j < subs.len() && live[i] && live[j] implies live_count(#[trigger] live.take(i))
        < live_count(#[trigger] live.take(j)) by {
        lemma_live_count_grows(live, i, j);
    }
}

/// After a notifying pass with value `v`, the deliveries it added are one per
/// subscriber left, in order, and each carries `v`; those made before are
/// untouched.
pub proof fn lemma_pass_sends_value<W, V>(
    subs0: Seq<W>,
    log0: Seq<(W, V)>,
    v: V,
    subs1: Seq<W>,
    log1: Seq<(W, V)>,
)
    requires
        notified(subs0, log0, v, subs1, log1),
    ensures
        log1.len() == log0.len() + subs1.len(),
        subs1.len() <= subs0.len(),
        log1.take(log0.len() as int) == log0,
        forall|j: int| 0 <= j < subs1.len() ==> #[trigger] log1[log0.len() + j] == (subs1[j], v),
{
    let live = choose|live: Seq<bool>|
        #![trigger keep_live(subs0, live)]
        live.len() == subs0.len() && subs1 == keep_live(subs0, live) && log1 == log0 + notices(
            subs1,
            v,
        );
    lemma_keep_live_len(subs0, live);
    assert(log1.take(log0.len() as int) =~= log0);
}

/// A handle whose every entry was found dead is gone after a pass, and none of
/// the pass's deliveries goes to it, however many times it was registered.
pub proof fn lemma_dead_handle_dropped<W, V>(subs: Seq<W>, live: Seq<bool>, w: W, v: V)
    requires
        subs.len() == live.len(),
        forall|i: int| 0 <= i < subs.len() && subs[i] == w ==> !live[i],
    ensures
        !keep_live(subs, live).contains(w),
        forall|j: int|
            0 <= j < notices(keep_live(subs, live), v).len() ==> (#[trigger] notices(
                keep_live(subs, live),
                v,
            )[j]).0 != w,
    decreases subs.len(),
{
    if subs.len() > 0 {
        lemma_dead_handle_dropped(subs.drop_last(), live.drop_last(), w, v);
        let rest = keep_live(subs.drop_last(), live.drop_last());
        if live.last() {
            assert forall|j: int| 0 <= j < rest.len() + 1 implies rest.push(subs.last())[j] != w by {
                if j < rest.len() {
                    assert(rest[j] != w);
                }
            }
        }
    }
    let kept = keep_live(subs, live);
    assert forall|j: int| 0 <= j < notices(kept, v).len() implies (#[trigger] notices(
        kept,
        v,
    )[j]).0 != w by {
        assert(kept[j] != w);
    }
}

} // verus!
