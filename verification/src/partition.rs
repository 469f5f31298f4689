use vstd::prelude::*;

verus! {

/// The items of `items` whose verdict is `verdict`, in their order.
/// `verdicts` holds one verdict for each item.
pub open spec fn with_verdict<T>(items: Seq<T>, verdicts: Seq<bool>, verdict: bool) -> Seq<T>
    decreases items.len(),
{
    if items.len() == 0 || verdicts.len() != items.len() {
        Seq::empty()
    } else {
        let before = with_verdict(items.drop_last(), verdicts.drop_last(), verdict);
        if verdicts.last() == verdict {
            before.push(items.last())
        } else {
            before
        }
    }
}

/// `verdicts` holds, for each item of `items` in turn, an answer that `test`
/// can give for it.
pub open spec fn answers<T, F: Fn(&T) -> bool>(test: F, items: Seq<T>, verdicts: Seq<bool>) -> bool {
    &&& verdicts.len() == items.len()
    &&& forall|i: int|
        0 <= i < items.len() ==> call_ensures(test, (&items[i],), #[trigger] verdicts[i])
}

/// Splits `items` in two by the answers of `test`: first the items for which
/// it answered `true`, then those for which it answered `false`, each in
/// their order. Every item lands on one side.
pub fn partition<T: Copy, F: Fn(&T) -> bool>(items: &[T], test: F) -> (parts: (Vec<T>, Vec<T>))
    requires
        forall|i: int| 0 <= i < items@.len() ==> call_requires(test, (&#[trigger] items@[i],)),
    ensures
        exists|verdicts: Seq<bool>|
            #[trigger] answers(test, items@, verdicts) && parts.0@ == with_verdict(
                items@,
                verdicts,
                true,
            ) && parts.1@ == with_verdict(items@, verdicts, false),
        parts.0@.len() + parts.1@.len() == items@.len(),
        parts.0@.to_multiset().add(parts.1@.to_multiset()) == items@.to_multiset(),
{
    let mut accepted: Vec<T> = Vec::new();
    let mut rejected: Vec<T> = Vec::new();
    let ghost mut verdicts: Seq<bool> = Seq::empty();
    let mut i: usize = 0;
    while i < items.len()
        invariant
            i <= items@.len(),
            verdicts.len() == i,
            forall|j: int| 0 <= j < items@.len() ==> call_requires(test, (&#[trigger] items@[j],)),
            forall|j: int| 0 <= j < i ==> call_ensures(test, (&items@[j],), #[trigger] verdicts[j]),
            accepted@ == with_verdict(items@.take(i as int), verdicts, true),
            rejected@ == with_verdict(items@.take(i as int), verdicts, false),
        decreases items@.len() - i,
    {
        let item = items[i];
        let verdict = test(&items[i]);
        proof {
            assert(items@.take(i + 1).drop_last() == items@.take(i as int));
            assert(verdicts.push(verdict).drop_last() == verdicts);
            verdicts = verdicts.push(verdict);
        }
        if verdict {
            accepted.push(item);
        } else {
            rejected.push(item);
        }
        i = i + 1;
    }
    assert(items@.take(i as int) == items@);
    proof {
        assert(answers(test, items@, verdicts));
        lemma_sides_keep_all(items@, verdicts);
    }
    (accepted, rejected)
}

/// The two sides together hold what was split, no more and no less: as many
/// items, and each item as often as before.
pub proof fn lemma_sides_keep_all<T>(items: Seq<T>, verdicts: Seq<bool>)
    requires
        verdicts.len() == items.len(),
    ensures
        with_verdict(items, verdicts, true).len() + with_verdict(items, verdicts, false).len()
            == items.len(),
        with_verdict(items, verdicts, true).to_multiset().add(
            with_verdict(items, verdicts, false).to_multiset(),
        ) == items.to_multiset(),
    decreases items.len(),
{
    broadcast use vstd::seq_lib::group_to_multiset_ensures;

    if items.len() > 0 {
        lemma_sides_keep_all(items.drop_last(), verdicts.drop_last());
        assert(items.drop_last().push(items.last()) == items);
    }
}

/// Where the verdicts are those of a predicate, one side holds the items
/// that satisfy it and the other those that do not, and no item is on both
/// sides.
pub proof fn lemma_sides_of_predicate<T>(
    items: Seq<T>,
    verdicts: Seq<bool>,
    holds: spec_fn(T) -> bool,
)
    requires
        verdicts.len() == items.len(),
        forall|i: int| 0 <= i < items.len() ==> verdicts[i] == holds(#[trigger] items[i]),
    ensures
        with_verdict(items, verdicts, true) == items.filter(holds),
        with_verdict(items, verdicts, false) == items.filter(|item: T| !holds(item)),
        forall|item: T|
            !(with_verdict(items, verdicts, true).contains(item) && with_verdict(
                items,
                verdicts,
                false,
            ).contains(item)),
    decreases items.len(),
{
    reveal(Seq::filter);
    if items.len() > 0 {
        lemma_sides_of_predicate(items.drop_last(), verdicts.drop_last(), holds);
    }
}

} // verus!
