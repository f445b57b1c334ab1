//! First-match searches and unordered removal, the two idioms of the bounded
//! tables.
use vstd::prelude::*;

verus! {

/// `i` is the first index of `s` whose element satisfies `p`.
pub open spec fn is_first<T>(s: Seq<T>, p: spec_fn(T) -> bool, i: int) -> bool {
    &&& 0 <= i < s.len()
    &&& p(s[i])
    &&& forall|j: int| 0 <= j < i ==> !p(#[trigger] s[j])
}

/// The first index of `s` whose element satisfies `p`, or `None` if there is none.
pub open spec fn first_index<T>(s: Seq<T>, p: spec_fn(T) -> bool) -> Option<int> {
    if exists|i: int| is_first(s, p, i) {
        Some(choose|i: int| is_first(s, p, i))
    } else {
        None
    }
}

/// `s` without its element `i`, whose place the last element takes.
pub open spec fn swap_removed<T>(s: Seq<T>, i: int) -> Seq<T> {
    s.update(i, s.last()).drop_last()
}

pub proof fn lemma_first_index<T>(s: Seq<T>, p: spec_fn(T) -> bool, i: int)
    requires
        is_first(s, p, i),
    ensures
        first_index(s, p) == Some(i),
{
    let k = choose|k: int| is_first(s, p, k);
    assert(k == i);
}

pub proof fn lemma_no_first_index<T>(s: Seq<T>, p: spec_fn(T) -> bool)
    requires
        forall|j: int| 0 <= j < s.len() ==> !p(#[trigger] s[j]),
    ensures
        first_index(s, p) == None::<int>,
{
}

/// A first match exists exactly when some element matches.
pub proof fn lemma_first_index_exists<T>(s: Seq<T>, p: spec_fn(T) -> bool)
    ensures
        first_index(s, p) is None <==> (forall|j: int| 0 <= j < s.len() ==> !p(#[trigger] s[j])),
        first_index(s, p) is Some ==> is_first(s, p, first_index(s, p)->0),
{
    if forall|j: int| 0 <= j < s.len() ==> !p(#[trigger] s[j]) {
        lemma_no_first_index(s, p);
    } else {
        let j = choose|j: int| 0 <= j < s.len() && p(#[trigger] s[j]);
        lemma_least(s, p, j);
    }
}

proof fn lemma_least<T>(s: Seq<T>, p: spec_fn(T) -> bool, j: int)
    requires
        0 <= j < s.len(),
        p(s[j]),
    ensures
        exists|i: int| is_first(s, p, i),
    decreases j,
{
    if forall|k: int| 0 <= k < j ==> !p(#[trigger] s[k]) {
        assert(is_first(s, p, j));
    } else {
        let k = choose|k: int| 0 <= k < j && p(#[trigger] s[k]);
        lemma_least(s, p, k);
    }
}

/// The first index of `v` whose element satisfies `f`, which decides `p`.
pub(crate) fn find<T, F: Fn(&T) -> bool>(
    v: &Vec<T>,
    f: &F,
    Ghost(p): Ghost<spec_fn(T) -> bool>,
) -> (r: Option<usize>)
    requires
        forall|x: &T| call_requires(*f, (x,)),
        forall|x: &T, b: bool| call_ensures(*f, (x,), b) ==> b == p(*x),
    ensures
        match r {
            Some(i) => first_index(v@, p) == Some(i as int) && is_first(v@, p, i as int),
            None => first_index(v@, p) is None,
        },
{
    let mut i: usize = 0;
    while i < v.len()
        invariant
            i <= v.len(),
            forall|x: &T| call_requires(*f, (x,)),
            forall|x: &T, b: bool| call_ensures(*f, (x,), b) ==> b == p(*x),
            forall|j: int| 0 <= j < i ==> !p(#[trigger] v@[j]),
        decreases v.len() - i,
    {
        if (*f)(&v[i]) {
            proof {
                lemma_first_index(v@, p, i as int);
            }
            return Some(i);
        }
        i += 1;
    }
    proof {
        lemma_no_first_index(v@, p);
    }
    None
}

/// The first index of `v` whose element satisfies `f`, which decides `p`.
pub(crate) fn position<T, F: Fn(&T) -> bool>(
    v: &Vec<T>,
    f: F,
    Ghost(p): Ghost<spec_fn(T) -> bool>,
) -> (r: Option<usize>)
    requires
        forall|x: &T| call_requires(f, (x,)),
        forall|x: &T, b: bool| call_ensures(f, (x,), b) ==> b == p(*x),
    ensures
        match r {
            Some(i) => first_index(v@, p) == Some(i as int) && is_first(v@, p, i as int),
            None => first_index(v@, p) is None,
        },
{
    find(v, &f, Ghost(p))
}

/// Some element of `s` satisfies `p`.
pub open spec fn some<T>(s: Seq<T>, p: spec_fn(T) -> bool) -> bool {
    exists|i: int| 0 <= i < s.len() && p(#[trigger] s[i])
}

/// Whether some element of `v` satisfies `f`, which decides `p`.
pub(crate) fn any<T, F: Fn(&T) -> bool>(v: &Vec<T>, f: F, Ghost(p): Ghost<spec_fn(T) -> bool>) -> (r:
    bool)
    requires
        forall|x: &T| call_requires(f, (x,)),
        forall|x: &T, b: bool| call_ensures(f, (x,), b) ==> b == p(*x),
    ensures
        r == some(v@, p),
{
    proof {
        lemma_first_index_exists(v@, p);
    }
    position(v, f, Ghost(p)).is_some()
}

/// How many elements of `s` satisfy `p`.
pub open spec fn tally<T>(s: Seq<T>, p: spec_fn(T) -> bool) -> nat
    decreases s.len(),
{
    if s.len() == 0 {
        0
    } else {
        tally(s.drop_last(), p) + if p(s.last()) {
            1nat
        } else {
            0nat
        }
    }
}

pub proof fn lemma_tally_concat<T>(a: Seq<T>, b: Seq<T>, p: spec_fn(T) -> bool)
    ensures
        tally(a + b, p) == tally(a, p) + tally(b, p),
    decreases b.len(),
{
    if b.len() == 0 {
        assert(a + b =~= a);
    } else {
        assert((a + b).drop_last() =~= a + b.drop_last());
        lemma_tally_concat(a, b.drop_last(), p);
    }
}

pub proof fn lemma_tally_update<T>(s: Seq<T>, i: int, x: T, p: spec_fn(T) -> bool)
    requires
        0 <= i < s.len(),
    ensures
        tally(s.update(i, x), p) + (if p(s[i]) {
            1nat
        } else {
            0nat
        }) == tally(s, p) + (if p(x) {
            1nat
        } else {
            0nat
        }),
    decreases s.len(),
{
    let t = s.update(i, x);
    if i == s.len() - 1 {
        assert(t.drop_last() =~= s.drop_last());
    } else {
        lemma_tally_update(s.drop_last(), i, x, p);
        assert(t.drop_last() =~= s.drop_last().update(i, x));
    }
}

pub proof fn lemma_tally_swap_removed<T>(s: Seq<T>, i: int, p: spec_fn(T) -> bool)
    requires
        0 <= i < s.len(),
    ensures
        tally(swap_removed(s, i), p) + (if p(s[i]) {
            1nat
        } else {
            0nat
        }) == tally(s, p),
{
    lemma_tally_update(s, i, s.last(), p);
    let t = s.update(i, s.last());
    assert(t.last() == s.last());
}

pub proof fn lemma_tally_none<T>(s: Seq<T>, p: spec_fn(T) -> bool)
    requires
        forall|i: int| 0 <= i < s.len() ==> !p(#[trigger] s[i]),
    ensures
        tally(s, p) == 0,
    decreases s.len(),
{
    if s.len() > 0 {
        lemma_tally_none(s.drop_last(), p);
    }
}

} // verus!
