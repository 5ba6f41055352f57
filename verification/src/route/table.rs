//! The mathematical model of a route table: a sequence of lines, and what
//! the builder operations make of it.
use vstd::prelude::*;
use crate::handler::around::Around;
use crate::handler::responder::Responder;
use crate::handler::{equivalent, BoxHandler, Handler, Next, Transform};
use crate::types::{Error, IntoResponse, Method, Request, Response};

verus! {

/// One line of a route table: the method and the handler registered under it.
pub type Entry = (Method, BoxHandler);

/// The methods of a table, in the order of its lines.
pub open spec fn keys(table: Seq<Entry>) -> Seq<Method> {
    Seq::new(table.len(), |i: int| table[i].0)
}

/// No method occurs twice.
pub open spec fn distinct(table: Seq<Entry>) -> bool {
    forall|i: int, j: int| 0 <= i < j < table.len() ==> table[i].0 != table[j].0
}

/// Whether the table has a line for `method`.
pub open spec fn registered(table: Seq<Entry>, method: Method) -> bool {
    exists|i: int| 0 <= i < table.len() && table[i].0 == method
}

/// The place of `method` in the table: the index of its line, or the length
/// of the table, where its line would be appended.
pub open spec fn slot(table: Seq<Entry>, method: Method) -> int {
    if registered(table, method) {
        choose|i: int| 0 <= i < table.len() && table[i].0 == method
    } else {
        table.len() as int
    }
}

/// The table after a registration: the line of `method` is replaced where it
/// stands, or a new line is appended.
pub open spec fn register(table: Seq<Entry>, method: Method, handler: BoxHandler) -> Seq<Entry> {
    if registered(table, method) {
        table.update(slot(table, method), (method, handler))
    } else {
        table.push((method, handler))
    }
}

/// The table after the registrations of `pairs`, made one after the other.
pub open spec fn registered_all(table: Seq<Entry>, pairs: Seq<Entry>) -> Seq<Entry>
    decreases pairs.len(),
{
    if pairs.len() == 0 {
        table
    } else {
        register(registered_all(table, pairs.drop_last()), pairs.last().0, pairs.last().1)
    }
}

/// A registration under `method` leaves the other methods as they were:
/// registered or not, in their places, with their handlers.
pub open spec fn others_kept(before: Seq<Entry>, after: Seq<Entry>, method: Method) -> bool {
    forall|other: Method|
        other != method ==> {
            &&& #[trigger] registered(after, other) <==> registered(before, other)
            &&& registered(before, other) ==> slot(after, other) == slot(before, other)
                && after[slot(before, other)] == before[slot(before, other)]
        }
}

/// The two tables have the same methods in the same places.
pub open spec fn same_methods(before: Seq<Entry>, after: Seq<Entry>) -> bool {
    forall|method: Method|
        #![trigger registered(after, method)]
        #![trigger slot(after, method)]
        (registered(after, method) <==> registered(before, method)) && slot(after, method) == slot(
            before,
            method,
        )
}

/// The methods of a table after a registration under `method`.
pub open spec fn with_key(methods: Seq<Method>, method: Method) -> Seq<Method> {
    if methods.contains(method) {
        methods
    } else {
        methods.push(method)
    }
}

/// The methods of a table after registrations under each of `added`, made
/// one after the other.
pub open spec fn with_keys(methods: Seq<Method>, added: Seq<Method>) -> Seq<Method>
    decreases added.len(),
{
    if added.len() == 0 {
        methods
    } else {
        with_key(with_keys(methods, added.drop_last()), added.last())
    }
}

/// `after` is `before` with `handler` registered under `method`, its
/// successes turned into responses and its type erased: the line of `method`
/// stands where it stood or at the end, its handler behaves as the responder
/// over `handler`, and the other lines are untouched.
pub open spec fn placed<H, O>(
    before: Seq<Entry>,
    after: Seq<Entry>,
    method: Method,
    handler: H,
) -> bool where H: Handler<Request, Output = Result<O, Error>>, O: IntoResponse {
    &&& after == register(before, method, after[slot(before, method)].1)
    &&& equivalent(after[slot(before, method)].1, Responder { h: handler })
    &&& registered(after, method)
    &&& slot(after, method) == slot(before, method)
    &&& others_kept(before, after, method)
}

/// `after` is `before` with `handler` registered under each of the nine
/// standard verbs: the lines of `before` keep their places, the verbs that
/// `before` lacks follow in the standard order, and every handler behaves as
/// the responder over `handler`.
pub open spec fn placed_under_all<H, O>(
    before: Seq<Entry>,
    after: Seq<Entry>,
    handler: H,
) -> bool where
    H: Handler<Request, Output = Result<O, Error>>,
    O: IntoResponse,
 {
    &&& keys(after) == with_keys(keys(before), Method::standard())
    &&& after.len() == 9
    &&& forall|method: Method| #[trigger] registered(after, method)
    &&& forall|method: Method|
        registered(before, method) ==> #[trigger] slot(after, method) == slot(before, method)
    &&& forall|i: int|
        0 <= i < after.len() ==> equivalent((#[trigger] after[i]).1, Responder { h: handler })
}

/// `after` has the lines of `before`, each handler wrapped by `t` and erased
/// again: the same methods in the same order, one layer more on each.
pub open spec fn layered<T>(before: Seq<Entry>, after: Seq<Entry>, t: T) -> bool where
    T: Transform<BoxHandler>,
    T::Output: Handler<Request, Output = Result<Response, Error>>,
 {
    &&& after.len() == before.len()
    &&& forall|i: int|
        0 <= i < before.len() ==> (#[trigger] after[i]).0 == before[i].0 && equivalent(
            after[i].1,
            t.transformed(before[i].1),
        )
}

/// `after` has the lines of `before`, each handler made the inner handler of
/// the around-middleware `f` and erased again.
pub open spec fn surrounded<F>(before: Seq<Entry>, after: Seq<Entry>, f: F) -> bool where
    F: Handler<Next<Request, BoxHandler>, Output = Result<Response, Error>>,
 {
    &&& after.len() == before.len()
    &&& forall|i: int|
        0 <= i < before.len() ==> (#[trigger] after[i]).0 == before[i].0 && equivalent(
            after[i].1,
            Around { h: before[i].1, f },
        )
}

/// `after` has the lines of `before`, each handler replaced by what `f`
/// makes of it.
pub open spec fn mapped<F>(before: Seq<Entry>, after: Seq<Entry>, f: F) -> bool where
    F: Fn(BoxHandler) -> BoxHandler,
 {
    &&& after.len() == before.len()
    &&& forall|i: int|
        0 <= i < before.len() ==> (#[trigger] after[i]).0 == before[i].0 && call_ensures(
            f,
            (before[i].1,),
            after[i].1,
        )
}

/// What a registration does to a table without a repeated method.
pub proof fn lemma_register(table: Seq<Entry>, method: Method, handler: BoxHandler)
    requires
        distinct(table),
    ensures
        distinct(register(table, method, handler)),
        0 <= slot(table, method) <= table.len(),
        registered(table, method) <==> slot(table, method) < table.len(),
        register(table, method, handler).len() == if registered(table, method) {
            table.len()
        } else {
            table.len() + 1
        },
        register(table, method, handler)[slot(table, method)] == (method, handler),
        forall|i: int|
            0 <= i < register(table, method, handler).len() && i != slot(table, method) ==> i
                < table.len() && #[trigger] register(table, method, handler)[i] == table[i]
                && table[i].0 != method,
        keys(register(table, method, handler)) =~= with_key(keys(table), method),
        registered(register(table, method, handler), method),
        slot(register(table, method, handler), method) == slot(table, method),
        others_kept(table, register(table, method, handler), method),
{
    let after = register(table, method, handler);
    let at = slot(table, method);
    assert(after[at].0 == method);
    assert forall|other: Method| other != method implies {
        &&& #[trigger] registered(after, other) <==> registered(table, other)
        &&& registered(table, other) ==> slot(after, other) == slot(table, other)
            && after[slot(table, other)] == table[slot(table, other)]
    } by {
        if registered(after, other) {
            let i = choose|i: int| 0 <= i < after.len() && after[i].0 == other;
            assert(after[i] == table[i]);
        }
        if registered(table, other) {
            let i = slot(table, other);
            assert(after[i] == table[i]);
            let j = slot(after, other);
            assert(after[j].0 == other);
            if i < j {
                assert(after[i].0 != after[j].0);
            }
            if j < i {
                assert(after[j].0 != after[i].0);
            }
        }
    }
    if registered(table, method) {
        assert(keys(table)[at] == method);
        assert(keys(after) =~= keys(table));
    } else {
        assert forall|i: int| 0 <= i < keys(table).len() implies keys(table)[i] != method by {
            assert(table[i].0 == keys(table)[i]);
        }
        assert(keys(after) =~= keys(table).push(method));
    }
}

/// Tables that agree on the method of every line have the same methods in
/// the same places.
pub proof fn lemma_same_methods(before: Seq<Entry>, after: Seq<Entry>)
    requires
        distinct(before),
        after.len() == before.len(),
        forall|i: int| 0 <= i < before.len() ==> (#[trigger] after[i]).0 == before[i].0,
    ensures
        distinct(after),
        same_methods(before, after),
{
    assert forall|i: int, j: int| 0 <= i < j < after.len() implies after[i].0 != after[j].0 by {
        assert(before[i].0 != before[j].0);
    }
    assert forall|method: Method|
        #![trigger registered(after, method)]
        #![trigger slot(after, method)]
        (registered(after, method) <==> registered(before, method)) && slot(after, method) == slot(
            before,
            method,
        ) by {
        if registered(after, method) {
            let i = slot(after, method);
            assert(before[i].0 == after[i].0);
        }
        if registered(before, method) {
            let i = slot(before, method);
            assert(after[i].0 == before[i].0);
            let j = slot(after, method);
            assert(before[j].0 == after[j].0);
            if i < j {
                assert(before[i].0 != before[j].0);
            }
            if j < i {
                assert(before[j].0 != before[i].0);
            }
        }
    }
}

/// The methods of a table without a repeated method are a list without a
/// repeated place.
pub proof fn lemma_keys(table: Seq<Entry>)
    requires
        distinct(table),
    ensures
        keys(table).no_duplicates(),
{
    assert forall|i: int, j: int|
        0 <= i < keys(table).len() && 0 <= j < keys(table).len() && i != j implies keys(table)[i]
        != keys(table)[j] by {
        if i < j {
            assert(table[i].0 != table[j].0);
        } else {
            assert(table[j].0 != table[i].0);
        }
    }
}

/// Registrations under `added` keep the methods that were there, in their
/// places, and bring in each of `added`.
pub proof fn lemma_with_keys(methods: Seq<Method>, added: Seq<Method>)
    requires
        methods.no_duplicates(),
    ensures
        with_keys(methods, added).no_duplicates(),
        methods.len() <= with_keys(methods, added).len(),
        forall|i: int| 0 <= i < methods.len() ==> with_keys(methods, added)[i] == methods[i],
        forall|j: int| 0 <= j < added.len() ==> with_keys(methods, added).contains(added[j]),
        forall|m: Method|
            with_keys(methods, added).contains(m) ==> methods.contains(m) || added.contains(m),
    decreases added.len(),
{
    if added.len() > 0 {
        let earlier = with_keys(methods, added.drop_last());
        let all = with_keys(methods, added);
        lemma_with_keys(methods, added.drop_last());
        assert(all == with_key(earlier, added.last()));
        assert forall|j: int| 0 <= j < added.len() implies all.contains(added[j]) by {
            if j < added.len() - 1 {
                assert(added.drop_last()[j] == added[j]);
                let at = choose|at: int| 0 <= at < earlier.len() && earlier[at] == added[j];
                assert(all[at] == added[j]);
            } else {
                if earlier.contains(added.last()) {
                } else {
                    assert(all[earlier.len() as int] == added.last());
                }
            }
        }
        assert forall|m: Method| all.contains(m) implies methods.contains(m) || added.contains(
            m,
        ) by {
            let at = choose|at: int| 0 <= at < all.len() && all[at] == m;
            if at < earlier.len() {
                assert(earlier.contains(m));
                if !methods.contains(m) {
                    let j = choose|j: int|
                        0 <= j < added.drop_last().len() && added.drop_last()[j] == m;
                    assert(added[j] == m);
                }
            } else {
                assert(m == added.last());
                assert(added[added.len() - 1] == m);
            }
        }
    }
}

/// A list that holds every method once has nine places.
pub proof fn lemma_complete(methods: Seq<Method>)
    requires
        methods.no_duplicates(),
        forall|m: Method| methods.contains(m),
    ensures
        methods.len() == 9,
{
    let ordinals = methods.map_values(|m: Method| m.ordinal() as int);
    assert(ordinals.no_duplicates()) by {
        assert forall|i: int, j: int|
            0 <= i < ordinals.len() && 0 <= j < ordinals.len() && i != j implies ordinals[i]
            != ordinals[j] by {
            assert(methods[i] != methods[j]);
        }
    }
    ordinals.unique_seq_to_set();
    let below = Set::new(|n: int| 0 <= n < 9);
    assert(ordinals.to_set() =~= below) by {
        assert forall|n: int| below.contains(n) implies ordinals.to_set().contains(n) by {
            let m = Method::standard()[n];
            assert(m.ordinal() == n);
            assert(methods.contains(m));
            let at = choose|at: int| 0 <= at < methods.len() && methods[at] == m;
            assert(ordinals[at] == n);
            assert(ordinals.contains(n));
        }
        assert forall|n: int| ordinals.to_set().contains(n) implies below.contains(n) by {
            let at = choose|at: int| 0 <= at < ordinals.len() && ordinals[at] == n;
            assert(ordinals[at] == methods[at].ordinal());
        }
    }
    vstd::set_lib::lemma_int_range(0, 9);
    assert(below =~= vstd::set_lib::set_int_range(0, 9));
}

/// Registrations under the first `k` standard verbs in an empty table leave
/// those verbs in the standard order.
pub proof fn lemma_standard_prefix(k: int)
    requires
        0 <= k <= 9,
    ensures
        with_keys(Seq::<Method>::empty(), Method::standard().take(k)) == Method::standard().take(k),
    decreases k,
{
    let all = Method::standard();
    if k == 0 {
        assert(all.take(0) =~= Seq::<Method>::empty());
    } else {
        lemma_standard_prefix(k - 1);
        let taken = all.take(k);
        assert(taken.drop_last() =~= all.take(k - 1));
        assert(taken.last() == all[k - 1]);
        let earlier = all.take(k - 1);
        assert(!earlier.contains(all[k - 1])) by {
            assert forall|i: int| 0 <= i < k - 1 implies #[trigger] earlier[i] != all[k - 1] by {
                assert(all[i].ordinal() == i);
                assert(all[k - 1].ordinal() == k - 1);
            }
        }
        assert(all.take(k - 1).push(all[k - 1]) =~= taken);
    }
}

/// Registrations under the nine standard verbs in an empty table leave the
/// nine verbs in the standard order.
pub proof fn lemma_standard()
    ensures
        with_keys(Seq::<Method>::empty(), Method::standard()) == Method::standard(),
{
    lemma_standard_prefix(9);
    assert(Method::standard().take(9) =~= Method::standard());
}

} // verus!
