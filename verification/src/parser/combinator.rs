//! The values that parser combinators produce, and the permutation combinator.

use std::collections::{BTreeMap, HashSet};

use vstd::prelude::*;
use vstd::std_specs::iter::IteratorSpec;

use super::capture::StateCapture;

verus! {

/// The result of a combinator expression.
#[derive(Debug, PartialEq, Eq)]
pub enum Combinator<T> {
    /// A single `T` value.
    Single(T),
    /// A choice between multiple values.
    Choice(Choice<T>),
    /// A vector of repeated `T` values.
    Many(Vec<Combinator<T>>),
    /// A combinator value with the position in a rule in which a permutation passed it.
    Indexed(usize, Box<Combinator<T>>),
    /// A sequence of two `T` values.
    Seq2(Box<Combinator<T>>, Box<Combinator<T>>),
    /// A sequence of three `T` values.
    Seq3(Box<Combinator<T>>, Box<Combinator<T>>, Box<Combinator<T>>),
    /// A sequence of four `T` values.
    Seq4(Box<Combinator<T>>, Box<Combinator<T>>, Box<Combinator<T>>, Box<Combinator<T>>),
    /// A sequence of five `T` values.
    Seq5(Box<Combinator<T>>, Box<Combinator<T>>, Box<Combinator<T>>, Box<Combinator<T>>, Box<Combinator<T>>),
    /// A sequence of six `T` values.
    Seq6(Box<Combinator<T>>, Box<Combinator<T>>, Box<Combinator<T>>, Box<Combinator<T>>, Box<Combinator<T>>, Box<Combinator<T>>),
    /// A sequence of seven `T` values.
    Seq7(Box<Combinator<T>>, Box<Combinator<T>>, Box<Combinator<T>>, Box<Combinator<T>>, Box<Combinator<T>>, Box<Combinator<T>>, Box<Combinator<T>>),
    /// A sequence of eight `T` values.
    Seq8(Box<Combinator<T>>, Box<Combinator<T>>, Box<Combinator<T>>, Box<Combinator<T>>, Box<Combinator<T>>, Box<Combinator<T>>, Box<Combinator<T>>, Box<Combinator<T>>),
    /// An absent value for optional combinators.
    Void,
}

/// A choice between multiple combinators.
#[derive(Debug, PartialEq, Eq)]
pub enum Choice<T> {
    /// First alternative.
    A(Box<Combinator<T>>),
    /// Second alternative.
    B(Box<Combinator<T>>),
    /// Third alternative.
    C(Box<Combinator<T>>),
    /// Fourth alternative.
    D(Box<Combinator<T>>),
    /// Fifth alternative.
    E(Box<Combinator<T>>),
    /// Sixth alternative.
    F(Box<Combinator<T>>),
    /// Seventh alternative.
    G(Box<Combinator<T>>),
    /// Eighth alternative.
    H(Box<Combinator<T>>),
    /// Ninth alternative.
    I(Box<Combinator<T>>),
    /// Tenth alternative.
    J(Box<Combinator<T>>),
}

impl<T> Combinator<T> {
    /// Unwraps the combinator as a single value.
    pub fn unwrap_single(self) -> (r: T)
        requires
            self is Single,
        ensures
            self == Combinator::Single(r),
    {
        match self {
            Combinator::Single(x) => x,
            _ => unreached(),
        }
    }

    /// Unwraps the combinator as a choice between values.
    pub fn unwrap_choice(self) -> (r: Choice<T>)
        requires
            self is Choice,
        ensures
            self == Combinator::Choice(r),
    {
        match self {
            Combinator::Choice(x) => x,
            _ => unreached(),
        }
    }

    /// Unwraps the combinator as a vector of repeated values.
    pub fn unwrap_many(self) -> (r: Vec<Combinator<T>>)
        requires
            self is Many,
        ensures
            self == Combinator::Many(r),
    {
        match self {
            Combinator::Many(x) => x,
            _ => unreached(),
        }
    }

    /// Unwraps the combinator of an indexed value.
    pub fn unwrap_indexed(self) -> (r: (usize, Box<Combinator<T>>))
        requires
            self is Indexed,
        ensures
            self == Combinator::Indexed(r.0, r.1),
    {
        match self {
            Combinator::Indexed(i, x) => (i, x),
            _ => unreached(),
        }
    }

    /// Unwraps the combinator of a sequence of two values.
    pub fn unwrap_seq2(self) -> (r: (Box<Combinator<T>>, Box<Combinator<T>>))
        requires
            self is Seq2,
        ensures
            self == Combinator::Seq2(r.0, r.1),
    {
        match self {
            Combinator::Seq2(x, y) => (x, y),
            _ => unreached(),
        }
    }

    /// Unwraps the combinator of a sequence of three values.
    pub fn unwrap_seq3(self) -> (r: (Box<Combinator<T>>, Box<Combinator<T>>, Box<Combinator<T>>))
        requires
            self is Seq3,
        ensures
            self == Combinator::Seq3(r.0, r.1, r.2),
    {
        match self {
            Combinator::Seq3(x, y, z) => (x, y, z),
            _ => unreached(),
        }
    }

    /// Unwraps the combinator of a sequence of four values.
    pub fn unwrap_seq4(self) -> (r: (Box<Combinator<T>>, Box<Combinator<T>>, Box<Combinator<T>>, Box<Combinator<T>>))
        requires
            self is Seq4,
        ensures
            self == Combinator::Seq4(r.0, r.1, r.2, r.3),
    {
        match self {
            Combinator::Seq4(x, y, z, w) => (x, y, z, w),
            _ => unreached(),
        }
    }

    /// Unwraps the combinator of a sequence of five values.
    pub fn unwrap_seq5(self) -> (r: (Box<Combinator<T>>, Box<Combinator<T>>, Box<Combinator<T>>, Box<Combinator<T>>, Box<Combinator<T>>))
        requires
            self is Seq5,
        ensures
            self == Combinator::Seq5(r.0, r.1, r.2, r.3, r.4),
    {
        match self {
            Combinator::Seq5(x, y, z, w, v) => (x, y, z, w, v),
            _ => unreached(),
        }
    }

    /// Unwraps the combinator of a sequence of six values.
    pub fn unwrap_seq6(self) -> (r: (Box<Combinator<T>>, Box<Combinator<T>>, Box<Combinator<T>>, Box<Combinator<T>>, Box<Combinator<T>>, Box<Combinator<T>>))
        requires
            self is Seq6,
        ensures
            self == Combinator::Seq6(r.0, r.1, r.2, r.3, r.4, r.5),
    {
        match self {
            Combinator::Seq6(x, y, z, w, v, u) => (x, y, z, w, v, u),
            _ => unreached(),
        }
    }

    /// Unwraps the combinator of a sequence of seven values.
    pub fn unwrap_seq7(self) -> (r: (Box<Combinator<T>>, Box<Combinator<T>>, Box<Combinator<T>>, Box<Combinator<T>>, Box<Combinator<T>>, Box<Combinator<T>>, Box<Combinator<T>>))
        requires
            self is Seq7,
        ensures
            self == Combinator::Seq7(r.0, r.1, r.2, r.3, r.4, r.5, r.6),
    {
        match self {
            Combinator::Seq7(x, y, z, w, v, u, t) => (x, y, z, w, v, u, t),
            _ => unreached(),
        }
    }

    /// Unwraps the combinator of a sequence of eight values.
    pub fn unwrap_seq8(self) -> (r: (Box<Combinator<T>>, Box<Combinator<T>>, Box<Combinator<T>>, Box<Combinator<T>>, Box<Combinator<T>>, Box<Combinator<T>>, Box<Combinator<T>>, Box<Combinator<T>>))
        requires
            self is Seq8,
        ensures
            self == Combinator::Seq8(r.0, r.1, r.2, r.3, r.4, r.5, r.6, r.7),
    {
        match self {
            Combinator::Seq8(x, y, z, w, v, u, t, s) => (x, y, z, w, v, u, t, s),
            _ => unreached(),
        }
    }
}

/// The `Ok` result of the permutation operation: the combinator of each rule position, and the
/// positions whose rules passed.
pub type PermutationOk<U> = (BTreeMap<usize, Box<Combinator<U>>>, HashSet<usize>);

/// The parser functions of a permutation may be called on any parser.
pub open spec fn funcs_callable<T, U, E, F: Fn(&mut T) -> Result<Option<Combinator<U>>, E>>(
    funcs: Map<usize, F>,
) -> bool {
    forall|k: usize, p: &mut T| funcs.contains_key(k) ==> #[trigger] funcs[k].requires((p,))
}

/// A call of `f` on the parser `a` can give `r`.
pub open spec fn made_on<T, U, E, F: Fn(&mut T) -> Result<Option<Combinator<U>>, E>>(
    f: F,
    a: T,
    r: Result<Option<Combinator<U>>, E>,
) -> bool {
    exists|p: &mut T| *p == a && #[trigger] f.ensures((p,), r)
}

/// `f` can give `r` when it is called on some parser.
pub open spec fn may_give<T, U, E, F: Fn(&mut T) -> Result<Option<Combinator<U>>, E>>(
    f: F,
    r: Result<Option<Combinator<U>>, E>,
) -> bool {
    exists|p: &mut T| #[trigger] f.ensures((p,), r)
}

/// An entry of a permutation: a combinator indexed by a place below `n`.
pub open spec fn placed<U>(entry: Combinator<U>, n: int) -> bool {
    entry matches Combinator::Indexed(i, _) && i < n
}

/// The place at which an entry of the permutation passed.
pub open spec fn place_of<U>(entry: Combinator<U>) -> int {
    match entry {
        Combinator::Indexed(i, _) => i as int,
        _ => -1,
    }
}

/// What a successful permutation over the parser functions `funcs` with `index` places gives:
/// `passed` holds the keys of the rules that passed; each of them maps to its combinator indexed
/// by the place, a distinct one for each, at which it passed; each other place below `index`
/// maps to `Void`; and when fewer rules passed than there are places, every rule that did not
/// pass gave `Ok(None)` when it was last tried.
pub open spec fn permutation_result<T, U, E, F: Fn(&mut T) -> Result<Option<Combinator<U>>, E>>(
    index: usize,
    funcs: Map<usize, F>,
    map: Map<usize, Box<Combinator<U>>>,
    passed: Set<usize>,
) -> bool {
    &&& passed.finite()
    &&& passed.subset_of(funcs.dom())
    &&& passed.len() <= index
    &&& forall|k: usize| #[trigger] map.contains_key(k) <==> (k < index || passed.contains(k))
    &&& forall|k: usize|
        #[trigger] map.contains_key(k) && !passed.contains(k) ==> *map[k] == Combinator::<U>::Void
    &&& forall|k: usize|
        #[trigger] passed.contains(k) ==> {
            &&& placed(*map[k], passed.len() as int)
            &&& may_give(funcs[k], Ok::<Option<Combinator<U>>, E>(Some(*(*map[k])->Indexed_1)))
        }
    &&& forall|k1: usize, k2: usize|
        #[trigger] passed.contains(k1) && #[trigger] passed.contains(k2) && k1 != k2
            ==> place_of(*map[k1]) != place_of(*map[k2])
    &&& passed.len() < index ==> forall|k: usize|
        #[trigger] funcs.contains_key(k) && !passed.contains(k) ==> may_give(
            funcs[k],
            Ok::<Option<Combinator<U>>, E>(None),
        )
}

/// The order in which the rules of a permutation passed: the rule whose key is `order[i]` took
/// place `i`, and every rule with a smaller key that had not passed by then gave `Ok(None)` when
/// it was tried for that place.
pub open spec fn pass_order<T, U, E, F: Fn(&mut T) -> Result<Option<Combinator<U>>, E>>(
    funcs: Map<usize, F>,
    map: Map<usize, Box<Combinator<U>>>,
    passed: Set<usize>,
    order: Seq<usize>,
) -> bool {
    &&& order.no_duplicates()
    &&& forall|k: usize| passed.contains(k) <==> order.contains(k)
    &&& forall|i: int| 0 <= i < order.len() ==> place_of(*map[#[trigger] order[i]]) == i
    &&& forall|i: int, k: usize|
        #![trigger funcs.contains_key(k), order[i]]
        0 <= i < order.len() && funcs.contains_key(k) && k < order[i] && !order.take(i).contains(k)
            ==> may_give(funcs[k], Ok::<Option<Combinator<U>>, E>(None))
}

/// Where a permutation stands after some calls of its parser functions: the places taken, the
/// position in the remaining keys of the next function to try for the current place, the keys
/// not yet taken (in ascending order), the rules that passed with their combinators (in the order
/// of their places), the error that ended it, if any, and whether the calls strayed from the
/// permutation's course.
pub struct PermState<U, E> {
    pub place: nat,
    pub pos: nat,
    pub remaining: Seq<usize>,
    pub order: Seq<(usize, Combinator<U>)>,
    pub error: Option<E>,
    pub broken: bool,
}

/// The state of a permutation before any call.
pub open spec fn perm_start<U, E>(keys: Seq<usize>) -> PermState<U, E> {
    PermState { place: 0, pos: 0, remaining: keys, order: Seq::empty(), error: None, broken: false }
}

/// The permutation with `index` places is over in state `st`: it met an error, took every place,
/// or tried every remaining function for the current place without a pass.
pub open spec fn perm_over<U, E>(index: nat, st: PermState<U, E>) -> bool {
    st.error is Some || st.place >= index || st.pos >= st.remaining.len()
}

/// The state after the call of the function with key `call.0`, which gave `call.1`. The call
/// must be of the function due: the one at the current position of the remaining keys.
pub open spec fn perm_step<U, E>(
    index: nat,
    st: PermState<U, E>,
    call: (usize, Result<Option<Combinator<U>>, E>),
) -> PermState<U, E> {
    if st.broken || perm_over(index, st) || call.0 != st.remaining[st.pos as int] {
        PermState { broken: true, ..st }
    } else {
        match call.1 {
            Err(e) => PermState { error: Some(e), ..st },
            Ok(Some(c)) => PermState {
                place: st.place + 1,
                pos: 0,
                remaining: st.remaining.remove(st.pos as int),
                order: st.order.push((call.0, c)),
                ..st
            },
            Ok(None) => PermState { pos: st.pos + 1, ..st },
        }
    }
}

/// The state of a permutation with `index` places over the functions with the ascending keys
/// `keys`, after the calls `calls`.
pub open spec fn perm_run<U, E>(
    index: nat,
    keys: Seq<usize>,
    calls: Seq<(usize, Result<Option<Combinator<U>>, E>)>,
) -> PermState<U, E>
    decreases calls.len(),
{
    if calls.len() == 0 {
        perm_start(keys)
    } else {
        perm_step(index, perm_run(index, keys, calls.drop_last()), calls.last())
    }
}

/// The map and the set that a permutation with `index` places gives when the rules in `order`
/// passed, in this order.
pub open spec fn perm_output<U>(
    index: nat,
    order: Seq<(usize, Combinator<U>)>,
    map: Map<usize, Box<Combinator<U>>>,
    passed: Set<usize>,
) -> bool {
    &&& forall|k: usize| passed.contains(k) <==> exists|j: int| 0 <= j < order.len() && #[trigger] order[j].0 == k
    &&& forall|j: int|
        0 <= j < order.len() ==> map.contains_key(#[trigger] order[j].0) && *map[order[j].0]
            == Combinator::Indexed(j as usize, Box::new(order[j].1))
    &&& forall|k: usize| #[trigger] map.contains_key(k) <==> (k < index || passed.contains(k))
    &&& forall|k: usize|
        #[trigger] map.contains_key(k) && !passed.contains(k) ==> *map[k] == Combinator::<U>::Void
}

/// `keys` are the keys of `funcs`, in ascending order.
pub open spec fn ascending_keys<F>(keys: Seq<usize>, funcs: Map<usize, F>) -> bool {
    &&& forall|a: int, b: int| 0 <= a < b < keys.len() ==> keys[a] < keys[b]
    &&& forall|k: usize| keys.contains(k) <==> funcs.contains_key(k)
}

/// The calls `calls` of the functions `funcs` are the course of a permutation with `index` places
/// over the keys `keys` of `funcs` in ascending order, each call giving a result that its function
/// can give, and the course ended in `res`: the error of the last call, or the rules that passed,
/// each at the place of its pass, with `Void` at the other places.
pub open spec fn perm_traced<T, U, E, F: Fn(&mut T) -> Result<Option<Combinator<U>>, E>>(
    index: usize,
    funcs: Map<usize, F>,
    keys: Seq<usize>,
    calls: Seq<(usize, Result<Option<Combinator<U>>, E>)>,
    res: Result<PermutationOk<U>, E>,
) -> bool {
    let st = perm_run::<U, E>(index as nat, keys, calls);
    &&& ascending_keys(keys, funcs)
    &&& forall|n: int| 0 <= n < calls.len() ==> may_give(funcs[#[trigger] calls[n].0], calls[n].1)
    &&& !st.broken
    &&& perm_over(index as nat, st)
    &&& match res {
        Ok((map, passed)) => st.error is None && perm_output(index as nat, st.order, map@, passed@),
        Err(e) => st.error == Some(e),
    }
}

proof fn lemma_no_places_no_calls<U, E>(
    keys: Seq<usize>,
    calls: Seq<(usize, Result<Option<Combinator<U>>, E>)>,
)
    requires
        calls.len() > 0,
    ensures
        perm_run::<U, E>(0, keys, calls).broken,
    decreases calls.len(),
{
    if calls.len() > 1 {
        lemma_no_places_no_calls::<U, E>(keys, calls.drop_last());
    }
}

/// A permutation with no places calls no function and gives an empty map and an empty set.
pub proof fn lemma_permute_no_places<T, U, E, F: Fn(&mut T) -> Result<Option<Combinator<U>>, E>>(
    funcs: Map<usize, F>,
    keys: Seq<usize>,
    calls: Seq<(usize, Result<Option<Combinator<U>>, E>)>,
    res: Result<PermutationOk<U>, E>,
)
    requires
        perm_traced::<T, U, E, F>(0, funcs, keys, calls, res),
    ensures
        calls.len() == 0,
        res matches Ok((map, passed)) && map@ == Map::<usize, Box<Combinator<U>>>::empty()
            && passed@ == Set::<usize>::empty(),
{
    if calls.len() > 0 {
        lemma_no_places_no_calls::<U, E>(keys, calls);
    }
    if let Ok((map, passed)) = res {
        assert(map@ =~= Map::<usize, Box<Combinator<U>>>::empty());
        assert(passed@ =~= Set::<usize>::empty());
    }
}

/// The keys of a map come out of its key iterator in ascending order.
proof fn lemma_keys_ascending<F>(m: &BTreeMap<usize, F>)
    ensures
        forall|a: int, b: int|
            0 <= a < b < vstd::std_specs::btree::spec_keys_iter(m).remaining().len() ==> *vstd::std_specs::btree::spec_keys_iter(
                m,
            ).remaining()[a] < *vstd::std_specs::btree::spec_keys_iter(m).remaining()[b],
{
    broadcast use {vstd::std_specs::btree::group_btree_axioms, vstd::laws_cmp::group_laws_cmp};

    let ks = vstd::std_specs::btree::spec_keys_iter(m).remaining();
    assert(vstd::laws_cmp::obeys_cmp::<&usize>());
    vstd::std_specs::btree::axiom_increasing_seq_meaning::<&usize>(ks);
    assert forall|a: int, b: int| 0 <= a < b < ks.len() implies *ks[a] < *ks[b] by {
        assert(vstd::std_specs::cmp::OrdSpec::cmp_spec(&ks[a], &ks[b]) is Less);
    }
}

/// Permutes parser functions with support for optional rules: for each place below `index`, the
/// first function, by key, that passes is taken, indexed by the place, and is not tried again;
/// the permutation stops at the first place where no function passes, and at the first error.
/// The places that no rule took get `Void`. The calls are made on the parser: the first on the
/// parser as it is given, and the parser is left as the last call leaves it.
pub fn permute<T, U, E, F>(index: usize, parser: &mut T, parser_funcs: BTreeMap<usize, F>) -> (res:
    Result<PermutationOk<U>, E>) where
    T: StateCapture,
    U: Clone,
    F: Fn(&mut T) -> Result<Option<Combinator<U>>, E>,

    requires
        funcs_callable::<T, U, E, F>(parser_funcs@),
    ensures
        match res {
            Ok((map, passed)) => {
                &&& permutation_result::<T, U, E, F>(index, parser_funcs@, map@, passed@)
                &&& exists|order: Seq<usize>|
                    pass_order::<T, U, E, F>(parser_funcs@, map@, passed@, order)
            },
            Err(e) => exists|k: usize|
                #[trigger] parser_funcs@.contains_key(k) && may_give(
                    parser_funcs@[k],
                    Err::<Option<Combinator<U>>, E>(e),
                ),
        },
        exists|
            keys: Seq<usize>,
            calls: Seq<(usize, Result<Option<Combinator<U>>, E>)>,
            befores: Seq<T>,
        |
            #![trigger perm_traced::<T, U, E, F>(index, parser_funcs@, keys, calls, res), befores.len()]
            {
                &&& perm_traced::<T, U, E, F>(index, parser_funcs@, keys, calls, res)
                &&& befores.len() == calls.len()
                &&& forall|n: int|
                    0 <= n < calls.len() ==> made_on::<T, U, E, F>(
                        parser_funcs@[#[trigger] calls[n].0],
                        befores[n],
                        calls[n].1,
                    )
                &&& calls.len() == 0 ==> *final(parser) == *old(parser)
                &&& calls.len() > 0 ==> befores[0] == *old(parser)
                &&& calls.len() > 0 ==> exists|p: &mut T|
                    *p == befores.last() && *final(p) == *final(parser) && #[trigger] parser_funcs@[calls.last().0].ensures(
                        (p,),
                        calls.last().1,
                    )
            },
        index == 0 ==> *final(parser) == *old(parser),
{
    broadcast use {vstd::std_specs::btree::group_btree_axioms, vstd::std_specs::hash::group_hash_axioms};

    let ghost funcs = parser_funcs@;
    let mut remaining: Vec<usize> = Vec::new();
    for k in it: parser_funcs.keys()
        invariant
            remaining@ == it.seq().take(it.index()).map_values(|r: &usize| *r),
            it.seq() == vstd::std_specs::btree::spec_keys_iter(&parser_funcs).remaining(),
    {
        remaining.push(*k);
    }
    assert(remaining@ =~= vstd::std_specs::btree::spec_keys_iter(&parser_funcs).remaining().unref());
    assert(remaining@.no_duplicates());
    assert(forall|k: usize| remaining@.contains(k) <==> funcs.contains_key(k));
    proof {
        lemma_keys_ascending(&parser_funcs);
    }
    assert(forall|a: int, b: int| 0 <= a < b < remaining@.len() ==> remaining@[a] < remaining@[b]);
    let mut map: BTreeMap<usize, Box<Combinator<U>>> = BTreeMap::new();
    let mut passed: HashSet<usize> = HashSet::new();
    let mut i: usize = 0;
    let mut stop = false;
    let ghost mut order: Seq<usize> = Seq::empty();
    let ghost keys = remaining@;
    let ghost mut calls: Seq<(usize, Result<Option<Combinator<U>>, E>)> = Seq::empty();
    let ghost mut befores: Seq<T> = Seq::empty();
    let ghost mut ord: Seq<(usize, Combinator<U>)> = Seq::empty();
    assert(perm_run(index as nat, keys, calls) == perm_start::<U, E>(keys));
    while !stop && i < index
        invariant
            befores.len() == calls.len(),
            calls.len() > 0 ==> befores[0] == *old(parser),
            calls.len() == 0 ==> *parser == *old(parser),
            forall|n: int|
                0 <= n < calls.len() ==> made_on::<T, U, E, F>(
                    parser_funcs@[#[trigger] calls[n].0],
                    befores[n],
                    calls[n].1,
                ),
            calls.len() > 0 ==> exists|p: &mut T|
                *p == befores.last() && *final(p) == *parser && #[trigger] parser_funcs@[calls.last().0].ensures(
                    (p,),
                    calls.last().1,
                ),
            i == 0 && !stop ==> *parser == *old(parser),
            index == 0 ==> !stop,
            funcs == parser_funcs@,
            ascending_keys(keys, funcs),
            forall|n: int|
                0 <= n < calls.len() ==> may_give(funcs[#[trigger] calls[n].0], calls[n].1),
            perm_run(index as nat, keys, calls) == (PermState::<U, E> {
                place: i as nat,
                pos: if stop { remaining@.len() } else { 0 },
                remaining: remaining@,
                order: ord,
                error: None,
                broken: false,
            }),
            ord.len() == i,
            forall|n: int| 0 <= n < i ==> #[trigger] ord[n].0 == order[n],
            forall|n: int|
                0 <= n < i ==> *map@[#[trigger] ord[n].0] == Combinator::Indexed(n as usize, Box::new(ord[n].1)),
            forall|a: int, b: int| 0 <= a < b < remaining@.len() ==> remaining@[a] < remaining@[b],
            order.len() == i,
            pass_order::<T, U, E, F>(funcs, map@, passed@, order),
            funcs_callable::<T, U, E, F>(funcs),
            i <= index,
            remaining@.no_duplicates(),
            forall|k: usize| remaining@.contains(k) <==> funcs.contains_key(k) && !passed@.contains(k),
            passed@.finite(),
            passed@.len() == i,
            passed@.subset_of(funcs.dom()),
            forall|k: usize| #[trigger] map@.contains_key(k) <==> passed@.contains(k),
            forall|k: usize|
                #[trigger] passed@.contains(k) ==> {
                    &&& placed(*map@[k], i as int)
                    &&& may_give(funcs[k], Ok::<Option<Combinator<U>>, E>(Some(*(*map@[k])->Indexed_1)))
                },
            forall|k1: usize, k2: usize|
                #[trigger] passed@.contains(k1) && #[trigger] passed@.contains(k2) && k1 != k2
                    ==> place_of(*map@[k1]) != place_of(*map@[k2]),
            stop ==> forall|k: usize|
                #[trigger] funcs.contains_key(k) && !passed@.contains(k) ==> may_give(
                    funcs[k],
                    Ok::<Option<Combinator<U>>, E>(None),
                ),
        decreases index - i, (if stop { 0int } else { 1int }),
    {
        let mut j: usize = 0;
        let mut hit: Option<(usize, Combinator<U>)> = None;
        while hit.is_none() && j < remaining.len()
            invariant
                befores.len() == calls.len(),
                calls.len() > 0 ==> befores[0] == *old(parser),
                calls.len() == 0 ==> *parser == *old(parser),
                forall|n: int|
                    0 <= n < calls.len() ==> made_on::<T, U, E, F>(
                        parser_funcs@[#[trigger] calls[n].0],
                        befores[n],
                        calls[n].1,
                    ),
                calls.len() > 0 ==> exists|p: &mut T|
                    *p == befores.last() && *final(p) == *parser && #[trigger] parser_funcs@[calls.last().0].ensures(
                        (p,),
                        calls.last().1,
                    ),
                funcs == parser_funcs@,
                funcs_callable::<T, U, E, F>(funcs),
                forall|k: usize| remaining@.contains(k) ==> funcs.contains_key(k),
                forall|a: int, b: int| 0 <= a < b < remaining@.len() ==> remaining@[a] < remaining@[b],
                j <= remaining.len(),
                forall|j2: int|
                    0 <= j2 < j ==> may_give(
                        funcs[#[trigger] remaining@[j2]],
                        Ok::<Option<Combinator<U>>, E>(None),
                    ),
                hit matches Some((jj, c)) ==> jj == j && j < remaining.len() && may_give(
                    funcs[remaining@[j as int]],
                    Ok::<Option<Combinator<U>>, E>(Some(c)),
                ),
                i < index,
                ascending_keys(keys, funcs),
                forall|n: int|
                    0 <= n < calls.len() ==> may_give(funcs[#[trigger] calls[n].0], calls[n].1),
                hit is None ==> perm_run(index as nat, keys, calls) == (PermState::<U, E> {
                    place: i as nat,
                    pos: j as nat,
                    remaining: remaining@,
                    order: ord,
                    error: None,
                    broken: false,
                }),
                hit matches Some((jj, c)) ==> perm_run(index as nat, keys, calls) == (PermState::<U, E> {
                    place: (i + 1) as nat,
                    pos: 0,
                    remaining: remaining@.remove(jj as int),
                    order: ord.push((remaining@[jj as int], c)),
                    error: None,
                    broken: false,
                }),
            decreases remaining.len() - j, (if hit is None { 1int } else { 0int }),
        {
            let k = remaining[j];
            assert(remaining@.contains(k));
            let f = parser_funcs.get(&k).unwrap();
            let ghost prev = calls;
            let ghost before = *parser;
            let ghost prev_befores = befores;
            let r = f(parser);
            proof {
                befores = befores.push(before);
                assert(made_on::<T, U, E, F>(parser_funcs@[k], before, r));
                calls = calls.push((k, r));
                assert(calls.drop_last() =~= prev);
                assert(perm_run::<U, E>(index as nat, keys, calls) == perm_step::<U, E>(
                    index as nat,
                    perm_run::<U, E>(index as nat, keys, prev),
                    (k, r),
                ));
                assert forall|n: int| 0 <= n < calls.len() implies may_give(
                    funcs[#[trigger] calls[n].0],
                    calls[n].1,
                ) by {
                    if n < prev.len() {
                        assert(calls[n] == prev[n]);
                    }
                }
                assert forall|n: int| 0 <= n < calls.len() implies made_on::<T, U, E, F>(
                    parser_funcs@[#[trigger] calls[n].0],
                    befores[n],
                    calls[n].1,
                ) by {
                    if n < prev.len() {
                        assert(calls[n] == prev[n]);
                        assert(befores[n] == prev_befores[n]);
                    }
                }
                if prev.len() > 0 {
                    assert(befores[0] == prev_befores[0]);
                }
            }
            match r {
                Err(e) => {
                    proof {
                        assert(perm_traced::<T, U, E, F>(index, funcs, keys, calls, Err(e)));
                        assert(befores.len() == calls.len());
                    }
                    return Err(e);
                },
                Ok(Some(c)) => {
                    hit = Some((j, c));
                },
                Ok(None) => {
                    j = j + 1;
                },
            }
        }
        match hit {
            Some((jj, c)) => {
                let ghost old_map = map@;
                let ghost old_passed = passed@;
                let ghost old_rem = remaining@;
                let k = remaining.remove(jj);
                proof {
                    assert forall|x: usize| remaining@.contains(x) implies old_rem.contains(x) && x
                        != k by {
                        let n = choose|n: int| 0 <= n < remaining@.len() && remaining@[n] == x;
                        if n < jj {
                            assert(old_rem[n] == x);
                        } else {
                            assert(old_rem[n + 1] == x);
                        }
                    }
                    assert forall|x: usize| old_rem.contains(x) && x != k implies remaining@.contains(
                        x,
                    ) by {
                        let n = choose|n: int| 0 <= n < old_rem.len() && old_rem[n] == x;
                        if n < jj {
                            assert(remaining@[n] == x);
                        } else {
                            assert(remaining@[n - 1] == x);
                        }
                    }
                }
                proof {
                    assert forall|a: int, b: int|
                        0 <= a < b < remaining@.len() implies remaining@[a] < remaining@[b] by {
                        if a < jj {
                            assert(remaining@[a] == old_rem[a]);
                        } else {
                            assert(remaining@[a] == old_rem[a + 1]);
                        }
                        if b < jj {
                            assert(remaining@[b] == old_rem[b]);
                        } else {
                            assert(remaining@[b] == old_rem[b + 1]);
                        }
                    }
                }
                let ghost old_order = order;
                map.insert(k, Box::new(Combinator::Indexed(i, Box::new(c))));
                passed.insert(k);
                proof {
                    let old_ord = ord;
                    ord = ord.push((k, c));
                    assert forall|n: int|
                        0 <= n < ord.len() implies *map@[#[trigger] ord[n].0] == Combinator::Indexed(
                        n as usize,
                        Box::new(ord[n].1),
                    ) by {
                        if n < old_ord.len() {
                            assert(ord[n] == old_ord[n]);
                            assert(old_order.contains(old_order[n]));
                        }
                    }
                    order = order.push(k);
                    assert(!old_order.contains(k));
                    assert(order.no_duplicates()) by {
                        assert forall|a: int, b: int|
                            0 <= a < order.len() && 0 <= b < order.len() && a != b implies order[a]
                            != order[b] by {
                            if a < old_order.len() && b < old_order.len() {
                                assert(order[a] == old_order[a] && order[b] == old_order[b]);
                            } else if a < old_order.len() {
                                assert(old_order.contains(order[a]));
                            } else if b < old_order.len() {
                                assert(old_order.contains(order[b]));
                            }
                        }
                    }
                    assert forall|x: usize| passed@.contains(x) <==> order.contains(x) by {
                        if old_order.contains(x) {
                            let n = choose|n: int| 0 <= n < old_order.len() && old_order[n] == x;
                            assert(order[n] == x);
                        }
                        if order.contains(x) && x != k {
                            let n = choose|n: int| 0 <= n < order.len() && order[n] == x;
                            assert(old_order[n] == x);
                        }
                        if x == k {
                            assert(order[order.len() - 1] == k);
                        }
                    }
                    assert forall|n: int| 0 <= n < order.len() implies place_of(
                        *map@[#[trigger] order[n]],
                    ) == n by {
                        if n < old_order.len() {
                            assert(order[n] == old_order[n]);
                            assert(old_order.contains(old_order[n]));
                        }
                    }
                    assert forall|n: int, x: usize|
                        #![trigger funcs.contains_key(x), order[n]]
                        0 <= n < order.len() && funcs.contains_key(x) && x < order[n]
                            && !order.take(n).contains(x) implies may_give(
                        funcs[x],
                        Ok::<Option<Combinator<U>>, E>(None),
                    ) by {
                        if n < old_order.len() {
                            assert(order.take(n) =~= old_order.take(n));
                            assert(order[n] == old_order[n]);
                        } else {
                            assert(order.take(n) =~= old_order);
                            assert(old_rem.contains(x));
                            let m = choose|m: int| 0 <= m < old_rem.len() && old_rem[m] == x;
                            assert(m < jj);
                        }
                    }
                }
                i = i + 1;
            },
            None => {
                stop = true;
            },
        }
    }
    let ghost taken = map@;
    let mut v: usize = 0;
    while v < index
        invariant
            befores.len() == calls.len(),
            calls.len() > 0 ==> befores[0] == *old(parser),
            calls.len() == 0 ==> *parser == *old(parser),
            forall|n: int|
                0 <= n < calls.len() ==> made_on::<T, U, E, F>(
                    parser_funcs@[#[trigger] calls[n].0],
                    befores[n],
                    calls[n].1,
                ),
            calls.len() > 0 ==> exists|p: &mut T|
                *p == befores.last() && *final(p) == *parser && #[trigger] parser_funcs@[calls.last().0].ensures(
                    (p,),
                    calls.last().1,
                ),
            v <= index,
            forall|k: usize|
                #[trigger] map@.contains_key(k) <==> (k < v || passed@.contains(k)),
            forall|k: usize|
                #[trigger] map@.contains_key(k) && !passed@.contains(k) ==> *map@[k]
                    == Combinator::<U>::Void,
            forall|k: usize| #[trigger] passed@.contains(k) ==> map@[k] == taken[k],
            forall|k: usize| #[trigger] taken.contains_key(k) <==> passed@.contains(k),
        decreases index - v,
    {
        if !map.contains_key(&v) {
            map.insert(v, Box::new(Combinator::Void));
        }
        v = v + 1;
    }
    proof {
        assert forall|n: int| 0 <= n < order.len() implies place_of(*map@[#[trigger] order[n]])
            == n by {
            assert(order.contains(order[n]));
            assert(passed@.contains(order[n]));
        }
        assert(pass_order::<T, U, E, F>(funcs, map@, passed@, order));
        let st = perm_run::<U, E>(index as nat, keys, calls);
        assert forall|k: usize| passed@.contains(k) <==> exists|j: int|
            0 <= j < ord.len() && #[trigger] ord[j].0 == k by {
            if passed@.contains(k) {
                let j = choose|j: int| 0 <= j < order.len() && order[j] == k;
                assert(ord[j].0 == k);
            }
        }
        assert forall|j: int| 0 <= j < ord.len() implies map@.contains_key(#[trigger] ord[j].0) && *map@[ord[j].0]
            == Combinator::Indexed(j as usize, Box::new(ord[j].1)) by {
            assert(order.contains(order[j]));
        }
        assert(perm_output(index as nat, st.order, map@, passed@));
        assert(perm_traced::<T, U, E, F>(index, funcs, keys, calls, Ok((map, passed))));
        assert(befores.len() == calls.len());
    }
    Ok((map, passed))
}

} // verus!
