//! Searching, replacing and removing in sequences.
use vstd::prelude::*;

verus! {

/// The position of the first item that satisfies `p`.
pub open spec fn find_first<A>(items: Seq<A>, p: spec_fn(A) -> bool) -> Option<int>
    decreases items.len(),
{
    if items.len() == 0 {
        None
    } else {
        match find_first(items.drop_last(), p) {
            Some(i) => Some(i),
            None => if p(items.last()) {
                Some(items.len() - 1)
            } else {
                None
            },
        }
    }
}

/// `find_first` finds an item that satisfies `p` with none before it, and fails only where no
/// item satisfies `p`.
pub proof fn lemma_find_first<A>(items: Seq<A>, p: spec_fn(A) -> bool)
    ensures
        match find_first(items, p) {
            Some(i) => 0 <= i < items.len() && p(items[i]) && forall|j: int|
                0 <= j < i ==> !p(#[trigger] items[j]),
            None => forall|j: int| 0 <= j < items.len() ==> !p(#[trigger] items[j]),
        },
    decreases items.len(),
{
    if items.len() > 0 {
        let rest = items.drop_last();
        lemma_find_first(rest, p);
        assert(forall|j: int| 0 <= j < rest.len() ==> rest[j] == #[trigger] items[j]);
        assert(items.last() == items[items.len() - 1]);
    }
}

/// `items` with `item` in place of the first one that satisfies `p`, or at the end if none does.
pub open spec fn replace_or_push<A>(items: Seq<A>, p: spec_fn(A) -> bool, item: A) -> Seq<A> {
    match find_first(items, p) {
        Some(i) => items.update(i, item),
        None => items.push(item),
    }
}

/// The position of the first item that satisfies `p`.
pub(crate) fn position<T: DeepView, F: Fn(&T) -> bool>(
    items: &Vec<T>,
    test: F,
    Ghost(p): Ghost<spec_fn(T::V) -> bool>,
) -> (found: Option<usize>)
    requires
        forall|item: &T| #[trigger] test.requires((item,)),
        forall|item: &T, r: bool| #[trigger]
            test.ensures((item,), r) ==> r == p(item.deep_view()),
    ensures
        match found {
            Some(i) => i < items@.len() && find_first(items.deep_view(), p) == Some(i as int),
            None => find_first(items.deep_view(), p) == None::<int>,
        },
{
    let ghost models = items.deep_view();
    let n: usize = items.len();
    let mut i: usize = 0;
    assert(models.take(0) =~= Seq::empty());
    while i < n
        invariant
            i <= n,
            n == items@.len(),
            models == items.deep_view(),
            find_first(models.take(i as int), p) == None::<int>,
            forall|item: &T| #[trigger] test.requires((item,)),
            forall|item: &T, r: bool| #[trigger]
                test.ensures((item,), r) ==> r == p(item.deep_view()),
        decreases n - i,
    {
        assert(models.take(i + 1).drop_last() =~= models.take(i as int));
        if test(&items[i]) {
            proof {
                lemma_find_first_prefix(models, p, i + 1);
            }
            return Some(i);
        }
        i += 1;
    }
    assert(models.take(n as int) =~= models);
    None
}

/// What is first in a prefix is first in the whole.
proof fn lemma_find_first_prefix<A>(items: Seq<A>, p: spec_fn(A) -> bool, n: int)
    requires
        0 <= n <= items.len(),
        find_first(items.take(n), p) is Some,
    ensures
        find_first(items, p) == find_first(items.take(n), p),
    decreases items.len() - n,
{
    if n == items.len() {
        assert(items.take(n) =~= items);
    } else {
        assert(items.take(n + 1).drop_last() =~= items.take(n));
        lemma_find_first_prefix(items, p, n + 1);
    }
}

/// Keeps the items that satisfy `p`, in their order.
pub(crate) fn retain<T: DeepView, F: Fn(&T) -> bool>(
    items: &mut Vec<T>,
    test: F,
    Ghost(p): Ghost<spec_fn(T::V) -> bool>,
)
    requires
        forall|item: &T| #[trigger] test.requires((item,)),
        forall|item: &T, r: bool| #[trigger]
            test.ensures((item,), r) ==> r == p(item.deep_view()),
    ensures
        final(items).deep_view() == old(items).deep_view().filter(p),
{
    let ghost models = items.deep_view();
    let mut all: Vec<T> = Vec::new();
    core::mem::swap(items, &mut all);
    let ghost sources = all@;
    proof {
        assert(models.take(0) =~= Seq::empty());
        reveal(Seq::filter);
        assert(items.deep_view() =~= models.take(0).filter(p));
    }
    for item in iter: all
        invariant
            iter.seq() == sources,
            sources.len() == models.len(),
            forall|j: int| 0 <= j < models.len() ==> #[trigger] models[j] == sources[j].deep_view(),
            items.deep_view() == models.take(iter.index() as int).filter(p),
            forall|item: &T| #[trigger] test.requires((item,)),
            forall|item: &T, r: bool| #[trigger]
                test.ensures((item,), r) ==> r == p(item.deep_view()),
    {
        let ghost k = iter.index() as int;
        let ghost kept = items.deep_view();
        proof {
            reveal(Seq::filter);
            assert(models.take(k + 1).drop_last() =~= models.take(k));
            assert(models.take(k + 1).last() == models[k]);
            assert(item.deep_view() == models[k]);
        }
        if test(&item) {
            items.push(item);
            assert(items.deep_view() =~= kept.push(models[k]));
        }
    }
    assert(models.take(models.len() as int) =~= models);
}

/// Puts `item` in place of the first item that satisfies `p`, or at the end if none does.
pub(crate) fn put<T: DeepView, F: Fn(&T) -> bool>(
    items: &mut Vec<T>,
    item: T,
    test: F,
    Ghost(p): Ghost<spec_fn(T::V) -> bool>,
)
    requires
        forall|item: &T| #[trigger] test.requires((item,)),
        forall|item: &T, r: bool| #[trigger]
            test.ensures((item,), r) ==> r == p(item.deep_view()),
    ensures
        final(items).deep_view() == replace_or_push(old(items).deep_view(), p, item.deep_view()),
{
    let ghost models = items.deep_view();
    match position(items, test, Ghost(p)) {
        Some(i) => {
            items[i] = item;
            assert(items.deep_view() =~= models.update(i as int, item.deep_view()));
        },
        None => {
            items.push(item);
            assert(items.deep_view() =~= models.push(item.deep_view()));
        },
    }
}

} // verus!
