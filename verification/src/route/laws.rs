//! What holds of the builder operations of a route table when they are put
//! together.
use vstd::prelude::*;
use crate::handler::responder::Responder;
use crate::handler::around::{law_around_erased, Around};
use crate::handler::{equivalent, BoxHandler, Handler, Next, Transform};
use crate::route::table::{
    distinct, keys, layered, lemma_register, placed, placed_under_all, register, registered,
    registered_all, slot, surrounded, Entry,
};
use crate::types::{Error, IntoResponse, Method, Request, Response};

verus! {

/// Two registrations under one method leave one line for it: in the place
/// that the first registration took, holding the second handler. The first
/// handler is gone, and the other lines are those of one registration.
pub proof fn law_register_twice(
    table: Seq<Entry>,
    method: Method,
    first: BoxHandler,
    second: BoxHandler,
)
    requires
        distinct(table),
    ensures
        register(register(table, method, first), method, second) == register(
            table,
            method,
            second,
        ),
        slot(register(table, method, first), method) == slot(table, method),
        register(table, method, second)[slot(table, method)] == (method, second),
        forall|i: int|
            0 <= i < register(table, method, second).len() ==> ((#[trigger] register(
                table,
                method,
                second,
            )[i]).0 == method <==> i == slot(table, method)),
{
    let once = register(table, method, first);
    let twice = register(once, method, second);
    let direct = register(table, method, second);
    lemma_register(table, method, first);
    lemma_register(once, method, second);
    lemma_register(table, method, second);
    assert(twice =~= direct);
}

/// `on` with `h1` and then `on` with `h2` under one method: the table has
/// exactly one line for the method, it behaves as the responder over `h2`,
/// and it stands where the first of the two registrations put it. The
/// second registration adds no line.
pub proof fn law_on_twice<H1, O1, H2, O2>(
    start: Seq<Entry>,
    once: Seq<Entry>,
    twice: Seq<Entry>,
    method: Method,
    h1: H1,
    h2: H2,
) where
    H1: Handler<Request, Output = Result<O1, Error>>,
    O1: IntoResponse,
    H2: Handler<Request, Output = Result<O2, Error>>,
    O2: IntoResponse,

    requires
        distinct(start),
        placed(start, once, method, h1),
        placed(once, twice, method, h2),
    ensures
        twice.len() == once.len(),
        keys(twice) == keys(once),
        slot(twice, method) == slot(once, method) == slot(start, method),
        forall|i: int|
            0 <= i < twice.len() ==> ((#[trigger] twice[i]).0 == method <==> i == slot(
                start,
                method,
            )),
        equivalent(twice[slot(start, method)].1, Responder { h: h2 }),
{
    let first = once[slot(start, method)].1;
    let second = twice[slot(once, method)].1;
    lemma_register(start, method, first);
    lemma_register(once, method, second);
    law_register_twice(start, method, first, second);
    assert(keys(once).contains(method)) by {
        assert(keys(once)[slot(once, method)] == method);
    }
}

/// A registration under a method that the table has changes the handler of
/// that line and nothing else: the length, the methods and the other lines
/// stay. So after a registration under all the verbs, `on` under one verb
/// overrides that verb alone.
pub proof fn law_on_overrides<H, O>(
    before: Seq<Entry>,
    after: Seq<Entry>,
    method: Method,
    handler: H,
) where H: Handler<Request, Output = Result<O, Error>>, O: IntoResponse
    requires
        distinct(before),
        registered(before, method),
        placed(before, after, method, handler),
    ensures
        after.len() == before.len(),
        keys(after) == keys(before),
        forall|i: int|
            0 <= i < after.len() ==> if before[i].0 == method {
                equivalent((#[trigger] after[i]).1, Responder { h: handler })
            } else {
                after[i] == before[i]
            },
{
    let erased = after[slot(before, method)].1;
    lemma_register(before, method, erased);
    assert(keys(before).contains(method)) by {
        assert(keys(before)[slot(before, method)] == method);
    }
    assert forall|i: int| 0 <= i < after.len() implies if before[i].0 == method {
        equivalent((#[trigger] after[i]).1, Responder { h: handler })
    } else {
        after[i] == before[i]
    } by {
        if before[i].0 == method {
            if i != slot(before, method) {
                assert(after[i] == before[i]);
            }
        }
    }
}

/// `any` with `h` and then `on` with `h2` under one verb: the table has its
/// nine lines, one for each standard verb, in the places that `any` gave
/// them. The line of that verb behaves as the responder over `h2`, every
/// other line as the responder over `h`.
pub proof fn law_any_then_on<H, O, H2, O2>(
    start: Seq<Entry>,
    all: Seq<Entry>,
    after: Seq<Entry>,
    method: Method,
    h: H,
    h2: H2,
) where
    H: Handler<Request, Output = Result<O, Error>>,
    O: IntoResponse,
    H2: Handler<Request, Output = Result<O2, Error>>,
    O2: IntoResponse,

    requires
        distinct(all),
        placed_under_all(start, all, h),
        placed(all, after, method, h2),
    ensures
        after.len() == 9,
        keys(after) == keys(all),
        forall|verb: Method| #[trigger] registered(after, verb),
        forall|i: int|
            0 <= i < 9 ==> if (#[trigger] after[i]).0 == method {
                equivalent(after[i].1, Responder { h: h2 })
            } else {
                equivalent(after[i].1, Responder { h })
            },
{
    law_on_overrides(all, after, method, h2);
    assert forall|verb: Method| #[trigger] registered(after, verb) by {
        let at = slot(all, verb);
        assert(registered(all, verb));
        assert(keys(after)[at] == keys(all)[at]);
        assert(after[at].0 == verb);
    }
    assert forall|i: int| 0 <= i < 9 implies if (#[trigger] after[i]).0 == method {
        equivalent(after[i].1, Responder { h: h2 })
    } else {
        equivalent(after[i].1, Responder { h })
    } by {
        assert(keys(after)[i] == keys(all)[i]);
        assert(after[i].0 == all[i].0);
        if all[i].0 != method {
            assert(after[i] == all[i]);
        }
    }
}

/// Two layerings with one transform put two layers on every line: each
/// handler of the last table is the transform of the handler that stands in
/// the same line of the middle table, which is the transform of the handler
/// in the same line of the first. No line is left out, none is wrapped twice
/// by one layering, and the methods stay where they were.
pub proof fn law_layered_twice<T>(
    first: Seq<Entry>,
    middle: Seq<Entry>,
    last: Seq<Entry>,
    t: T,
) where
    T: Transform<BoxHandler>,
    T::Output: Handler<Request, Output = Result<Response, Error>>,

    requires
        layered(first, middle, t),
        layered(middle, last, t),
    ensures
        last.len() == first.len(),
        forall|i: int|
            0 <= i < first.len() ==> {
                &&& (#[trigger] last[i]).0 == first[i].0
                &&& equivalent(last[i].1, t.transformed(middle[i].1))
                &&& equivalent(middle[i].1, t.transformed(first[i].1))
            },
{
    assert forall|i: int| 0 <= i < first.len() implies {
        &&& (#[trigger] last[i]).0 == first[i].0
        &&& equivalent(last[i].1, t.transformed(middle[i].1))
        &&& equivalent(middle[i].1, t.transformed(first[i].1))
    } by {
        assert(middle[i].0 == first[i].0);
    }
}

/// Two around-middlewares put on a table one after the other nest as a
/// stack: on every line the middleware put on last is the outermost. What it
/// is handed as its inner handler is the whole tower that stood there before
/// it, which is the first middleware around the handler of the first table.
/// So the last one is entered first and left last.
pub proof fn law_surrounded_twice<F1, F2>(
    first: Seq<Entry>,
    middle: Seq<Entry>,
    last: Seq<Entry>,
    f1: F1,
    f2: F2,
) where
    F1: Handler<Next<Request, BoxHandler>, Output = Result<Response, Error>>,
    F2: Handler<Next<Request, BoxHandler>, Output = Result<Response, Error>>,

    requires
        surrounded(first, middle, f1),
        surrounded(middle, last, f2),
    ensures
        last.len() == first.len(),
        forall|i: int|
            0 <= i < first.len() ==> {
                &&& (#[trigger] last[i]).0 == first[i].0
                &&& equivalent(middle[i].1, Around { h: first[i].1, f: f1 })
                &&& forall|req: Request, res: Result<Response, Error>| #[trigger]
                    last[i].1.responds(req, res) ==> f2.responds((req, middle[i].1), res)
            },
{
    assert forall|i: int| 0 <= i < first.len() implies {
        &&& (#[trigger] last[i]).0 == first[i].0
        &&& equivalent(middle[i].1, Around { h: first[i].1, f: f1 })
        &&& forall|req: Request, res: Result<Response, Error>| #[trigger]
            last[i].1.responds(req, res) ==> f2.responds((req, middle[i].1), res)
    } by {
        assert(middle[i].0 == first[i].0);
        let outer = Around { h: middle[i].1, f: f2 };
        assert(equivalent(last[i].1, outer));
        assert forall|req: Request, res: Result<Response, Error>| #[trigger]
            last[i].1.responds(req, res) implies f2.responds((req, middle[i].1), res) by {
            assert(outer.responds(req, res));
            law_around_erased(outer, req, res);
        }
    }
}

/// A table taken apart and built again from its lines is the same table.
pub proof fn law_reassemble(table: Seq<Entry>)
    requires
        distinct(table),
    ensures
        registered_all(Seq::<Entry>::empty(), table) == table,
    decreases table.len(),
{
    if table.len() > 0 {
        let earlier = table.drop_last();
        assert(distinct(earlier)) by {
            assert forall|i: int, j: int| 0 <= i < j < earlier.len() implies earlier[i].0
                != earlier[j].0 by {
                assert(table[i].0 != table[j].0);
            }
        }
        law_reassemble(earlier);
        assert(!registered(earlier, table.last().0)) by {
            if registered(earlier, table.last().0) {
                let i = slot(earlier, table.last().0);
                assert(table[i].0 != table[table.len() - 1].0);
            }
        }
        assert(earlier.push(table.last()) =~= table);
    }
}

} // verus!
