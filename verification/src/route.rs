//! The per-method route table and its builder operations.
use std::sync::Arc;
use vstd::prelude::*;
use crate::handler::around::Around;
use crate::handler::responder::{converted, Responder};
use crate::handler::{equivalent, share, BoxHandler, Handler, Next, Transform};
use crate::route::table::{
    distinct, keys, layered, lemma_complete, lemma_keys, lemma_register, lemma_same_methods,
    lemma_standard, lemma_with_keys, mapped, others_kept, placed, placed_under_all, register,
    registered, registered_all, same_methods, slot, surrounded, with_keys, Entry,
};
use crate::types::{Error, IntoResponse, Method, Request, Response};

pub mod laws;
pub mod table;

verus! {

/// The dispatch table of one path: erased handlers keyed by method, in the
/// order in which the methods were first registered.
pub struct Route {
    methods: Vec<Entry>,
}

impl View for Route {
    type V = Seq<Entry>;

    closed spec fn view(&self) -> Seq<Entry> {
        self.methods@
    }
}

impl Route {
    #[verifier::type_invariant]
    spec fn unique(self) -> bool {
        distinct(self.methods@)
    }

    /// The empty table.
    pub fn new() -> (route: Route)
        ensures
            route@ == Seq::<Entry>::empty(),
    {
        Route { methods: Vec::new() }
    }

    /// Registers `handler` under `method`. A handler already registered under
    /// `method` is replaced where it stands.
    pub fn push(self, method: Method, handler: BoxHandler) -> (route: Route)
        ensures
            distinct(self@),
            distinct(route@),
            route@ == register(self@, method, handler),
            registered(route@, method),
            slot(route@, method) == slot(self@, method),
            others_kept(self@, route@, method),
    {
        proof {
            use_type_invariant(&self);
        }
        let ghost before = self@;
        let Route { methods } = self;
        let mut methods = methods;
        let mut i: usize = 0;
        while i < methods.len()
            invariant
                i <= methods.len(),
                methods@ == before,
                before == self@,
                distinct(before),
                forall|k: int| 0 <= k < i ==> before[k].0 != method,
            decreases methods.len() - i,
        {
            if methods[i].0 == method {
                proof {
                    assert(registered(before, method));
                    assert(slot(before, method) == i);
                    lemma_register(before, method, handler);
                }
                methods.set(i, (method, handler));
                return Route { methods };
            }
            i += 1;
        }
        proof {
            assert(!registered(before, method));
            lemma_register(before, method, handler);
        }
        methods.push((method, handler));
        Route { methods }
    }

    /// Registers `handler` under `method`, its successes turned into
    /// responses and its type erased.
    pub fn on<H, O>(self, method: Method, handler: H) -> (route: Route) where
        H: Handler<Request, Output = Result<O, Error>>,
        O: IntoResponse + Send + Sync + 'static,

        ensures
            distinct(self@),
            distinct(route@),
            placed(self@, route@, method, handler),
    {
        self.push(method, BoxHandler::new(Responder::new(handler)))
    }
}

/// A handle that erases a responder over a shared handler behaves as a
/// responder over the handler itself.
proof fn lemma_shared_responder<H, O>(erased: BoxHandler, shared: Arc<H>, handler: H) where
    H: Handler<Request, Output = Result<O, Error>>,
    O: IntoResponse,

    requires
        *shared == handler,
        equivalent(erased, Responder { h: shared }),
    ensures
        equivalent(erased, Responder { h: handler }),
{
    let over_shared = Responder { h: shared };
    let over_handler = Responder { h: handler };
    assert forall|req: Request, res: Result<Response, Error>|
        over_shared.responds(req, res) <==> #[trigger] over_handler.responds(req, res) by {
        if over_shared.responds(req, res) {
            let typed = choose|typed: Result<O, Error>| #[trigger]
                over_shared.h.responds(req, typed) && converted(typed, res);
            assert(over_handler.h.responds(req, typed) && converted(typed, res));
        }
        if over_handler.responds(req, res) {
            let typed = choose|typed: Result<O, Error>| #[trigger]
                over_handler.h.responds(req, typed) && converted(typed, res);
            assert(over_shared.h.responds(req, typed) && converted(typed, res));
        }
    }
    assert forall|req: Request, res: Result<Response, Error>|
        erased.responds(req, res) <==> #[trigger] over_handler.responds(req, res) by {
        assert(erased.responds(req, res) <==> over_shared.responds(req, res));
    }
}

/// A handle that erases an around-layer with a shared middleware behaves as
/// the layer with the middleware itself.
proof fn lemma_shared_around<F>(erased: BoxHandler, inner: BoxHandler, shared: Arc<F>, f: F) where
    F: Handler<Next<Request, BoxHandler>, Output = Result<Response, Error>>,

    requires
        *shared == f,
        equivalent(erased, Around { h: inner, f: shared }),
    ensures
        equivalent(erased, Around { h: inner, f }),
{
    let with_shared = Around { h: inner, f: shared };
    let with_f = Around { h: inner, f };
    assert forall|req: Request, res: Result<Response, Error>|
        with_shared.responds(req, res) <==> #[trigger] with_f.responds(req, res) by {
        if with_shared.responds(req, res) {
            let copy = choose|copy: BoxHandler|
                cloned::<BoxHandler>(with_shared.h, copy) && #[trigger] with_shared.f.responds(
                    (req, copy),
                    res,
                );
            assert(cloned::<BoxHandler>(with_f.h, copy) && with_f.f.responds((req, copy), res));
        }
        if with_f.responds(req, res) {
            let copy = choose|copy: BoxHandler|
                cloned::<BoxHandler>(with_f.h, copy) && #[trigger] with_f.f.responds(
                    (req, copy),
                    res,
                );
            assert(cloned::<BoxHandler>(with_shared.h, copy) && with_shared.f.responds(
                (req, copy),
                res,
            ));
        }
    }
    assert forall|req: Request, res: Result<Response, Error>|
        erased.responds(req, res) <==> #[trigger] with_f.responds(req, res) by {
        assert(erased.responds(req, res) <==> with_shared.responds(req, res));
    }
}

impl Route {
    /// Registers `handler` under each of the nine standard verbs, as nine
    /// calls of [`Route::on`] in the standard order would. Each registration
    /// is erased on its own; the handler behind them is shared.
    pub fn any<H, O>(self, handler: H) -> (route: Route) where
        H: Handler<Request, Output = Result<O, Error>>,
        O: IntoResponse + Send + Sync + 'static,

        ensures
            distinct(route@),
            placed_under_all(self@, route@, handler),
    {
        proof {
            use_type_invariant(&self);
        }
        let ghost start = self@;
        let shared = Arc::new(handler);
        let verbs = Method::all();
        let mut route = self;
        let mut k: usize = 0;
        assert(Method::standard().take(0) =~= Seq::<Method>::empty());
        assert(keys(start) =~= with_keys(keys(start), Method::standard().take(0)));
        while k < 9
            invariant
                k <= 9,
                verbs@ == Method::standard(),
                *shared == handler,
                distinct(start),
                distinct(route@),
                keys(route@) == with_keys(keys(start), Method::standard().take(k as int)),
                forall|i: int|
                    0 <= i < route@.len() && (#[trigger] route@[i]).0.ordinal() < k ==> equivalent(
                        route@[i].1,
                        Responder { h: handler },
                    ),
            decreases 9 - k,
        {
            let verb = verbs[k];
            let ghost before = route@;
            route = route.on(verb, share(&shared));
            proof {
                let at = slot(before, verb);
                let erased = route@[at].1;
                lemma_register(before, verb, erased);
                lemma_shared_responder(erased, shared, handler);
                let taken = Method::standard().take(k as int + 1);
                assert(taken.drop_last() =~= Method::standard().take(k as int));
                assert(taken.last() == verb);
                assert(verb.ordinal() == k);
                assert forall|i: int|
                    0 <= i < route@.len() && (#[trigger] route@[i]).0.ordinal() < k
                        + 1 implies equivalent(route@[i].1, Responder { h: handler }) by {
                    if i != at {
                        assert(route@[i] == before[i]);
                    }
                }
            }
            k += 1;
        }
        proof {
            assert(Method::standard().take(9) =~= Method::standard());
            lemma_keys(start);
            lemma_with_keys(keys(start), Method::standard());
            assert forall|m: Method| keys(route@).contains(m) by {
                assert(Method::standard()[m.ordinal() as int] == m);
            }
            lemma_complete(keys(route@));
            assert forall|method: Method| #[trigger] registered(route@, method) by {
                let at = choose|at: int|
                    0 <= at < keys(route@).len() && keys(route@)[at] == method;
                assert(route@[at].0 == method);
            }
            assert forall|method: Method| registered(start, method) implies #[trigger] slot(
                route@,
                method,
            ) == slot(start, method) by {
                let i = slot(start, method);
                assert(keys(route@)[i] == keys(start)[i]);
                let j = slot(route@, method);
                if i < j {
                    assert(route@[i].0 != route@[j].0);
                }
                if j < i {
                    assert(route@[j].0 != route@[i].0);
                }
            }
        }
        route
    }
}

impl Route {
    /// Registers `handler` under `GET`, as [`Route::on`] does.
    pub fn get<H, O>(self, handler: H) -> (route: Route) where
        H: Handler<Request, Output = Result<O, Error>>,
        O: IntoResponse + Send + Sync + 'static,

        ensures
            distinct(self@),
            distinct(route@),
            placed(self@, route@, Method::GET, handler),
    {
        self.on(Method::GET, handler)
    }

    /// Registers `handler` under `POST`, as [`Route::on`] does.
    pub fn post<H, O>(self, handler: H) -> (route: Route) where
        H: Handler<Request, Output = Result<O, Error>>,
        O: IntoResponse + Send + Sync + 'static,

        ensures
            distinct(self@),
            distinct(route@),
            placed(self@, route@, Method::POST, handler),
    {
        self.on(Method::POST, handler)
    }

    /// Registers `handler` under `PUT`, as [`Route::on`] does.
    pub fn put<H, O>(self, handler: H) -> (route: Route) where
        H: Handler<Request, Output = Result<O, Error>>,
        O: IntoResponse + Send + Sync + 'static,

        ensures
            distinct(self@),
            distinct(route@),
            placed(self@, route@, Method::PUT, handler),
    {
        self.on(Method::PUT, handler)
    }

    /// Registers `handler` under `DELETE`, as [`Route::on`] does.
    pub fn delete<H, O>(self, handler: H) -> (route: Route) where
        H: Handler<Request, Output = Result<O, Error>>,
        O: IntoResponse + Send + Sync + 'static,

        ensures
            distinct(self@),
            distinct(route@),
            placed(self@, route@, Method::DELETE, handler),
    {
        self.on(Method::DELETE, handler)
    }

    /// Registers `handler` under `HEAD`, as [`Route::on`] does.
    pub fn head<H, O>(self, handler: H) -> (route: Route) where
        H: Handler<Request, Output = Result<O, Error>>,
        O: IntoResponse + Send + Sync + 'static,

        ensures
            distinct(self@),
            distinct(route@),
            placed(self@, route@, Method::HEAD, handler),
    {
        self.on(Method::HEAD, handler)
    }

    /// Registers `handler` under `OPTIONS`, as [`Route::on`] does.
    pub fn options<H, O>(self, handler: H) -> (route: Route) where
        H: Handler<Request, Output = Result<O, Error>>,
        O: IntoResponse + Send + Sync + 'static,

        ensures
            distinct(self@),
            distinct(route@),
            placed(self@, route@, Method::OPTIONS, handler),
    {
        self.on(Method::OPTIONS, handler)
    }

    /// Registers `handler` under `CONNECT`, as [`Route::on`] does.
    pub fn connect<H, O>(self, handler: H) -> (route: Route) where
        H: Handler<Request, Output = Result<O, Error>>,
        O: IntoResponse + Send + Sync + 'static,

        ensures
            distinct(self@),
            distinct(route@),
            placed(self@, route@, Method::CONNECT, handler),
    {
        self.on(Method::CONNECT, handler)
    }

    /// Registers `handler` under `PATCH`, as [`Route::on`] does.
    pub fn patch<H, O>(self, handler: H) -> (route: Route) where
        H: Handler<Request, Output = Result<O, Error>>,
        O: IntoResponse + Send + Sync + 'static,

        ensures
            distinct(self@),
            distinct(route@),
            placed(self@, route@, Method::PATCH, handler),
    {
        self.on(Method::PATCH, handler)
    }

    /// Registers `handler` under `TRACE`, as [`Route::on`] does.
    pub fn trace<H, O>(self, handler: H) -> (route: Route) where
        H: Handler<Request, Output = Result<O, Error>>,
        O: IntoResponse + Send + Sync + 'static,

        ensures
            distinct(self@),
            distinct(route@),
            placed(self@, route@, Method::TRACE, handler),
    {
        self.on(Method::TRACE, handler)
    }

    /// Rebuilds the table with every handler wrapped by `t` and erased again.
    /// The methods and their order stay.
    pub fn with<T>(self, t: T) -> (route: Route) where
        T: Transform<BoxHandler>,
        T::Output: Handler<Request, Output = Result<Response, Error>>,

        ensures
            distinct(route@),
            same_methods(self@, route@),
            layered(self@, route@, t),
    {
        proof {
            use_type_invariant(&self);
        }
        let mut methods: Vec<Entry> = Vec::new();
        let mut i: usize = 0;
        while i < self.methods.len()
            invariant
                i <= self.methods.len(),
                methods@.len() == i,
                forall|k: int|
                    0 <= k < i ==> (#[trigger] methods@[k]).0 == self.methods@[k].0 && equivalent(
                        methods@[k].1,
                        t.transformed(self.methods@[k].1),
                    ),
            decreases self.methods.len() - i,
        {
            let method = self.methods[i].0;
            let wrapped = t.transform(self.methods[i].1.clone());
            methods.push((method, BoxHandler::new(wrapped)));
            i += 1;
        }
        proof {
            lemma_same_methods(self.methods@, methods@);
        }
        Route { methods }
    }

    /// Rebuilds the table with every handler made the inner handler of the
    /// around-middleware `f` and erased again. The one `f` is shared by all
    /// the lines. The methods and their order stay.
    pub fn with_handler<F>(self, f: F) -> (route: Route) where
        F: Handler<Next<Request, BoxHandler>, Output = Result<Response, Error>>,

        ensures
            distinct(route@),
            same_methods(self@, route@),
            surrounded(self@, route@, f),
    {
        proof {
            use_type_invariant(&self);
        }
        let shared = Arc::new(f);
        let mut methods: Vec<Entry> = Vec::new();
        let mut i: usize = 0;
        while i < self.methods.len()
            invariant
                i <= self.methods.len(),
                methods@.len() == i,
                *shared == f,
                forall|k: int|
                    0 <= k < i ==> (#[trigger] methods@[k]).0 == self.methods@[k].0 && equivalent(
                        methods@[k].1,
                        Around { h: self.methods@[k].1, f },
                    ),
            decreases self.methods.len() - i,
        {
            let method = self.methods[i].0;
            let around = Around::new(self.methods[i].1.clone(), share(&shared));
            let erased = BoxHandler::new(around);
            proof {
                lemma_shared_around(erased, self.methods@[i as int].1, shared, f);
            }
            methods.push((method, erased));
            i += 1;
        }
        proof {
            lemma_same_methods(self.methods@, methods@);
        }
        Route { methods }
    }

    /// Rebuilds the table with every handler replaced by what `f` makes of
    /// it. The methods and their order stay.
    pub fn map_handler<F>(self, f: F) -> (route: Route) where F: Fn(BoxHandler) -> BoxHandler
        requires
            forall|i: int| 0 <= i < self@.len() ==> call_requires(f, ((#[trigger] self@[i]).1,)),
        ensures
            distinct(route@),
            same_methods(self@, route@),
            mapped(self@, route@, f),
    {
        proof {
            use_type_invariant(&self);
            assert(self@ == self.methods@);
        }
        let mut methods: Vec<Entry> = Vec::new();
        let mut i: usize = 0;
        while i < self.methods.len()
            invariant
                i <= self.methods.len(),
                methods@.len() == i,
                forall|k: int|
                    0 <= k < self.methods@.len() ==> call_requires(
                        f,
                        ((#[trigger] self.methods@[k]).1,),
                    ),
                forall|k: int|
                    0 <= k < i ==> (#[trigger] methods@[k]).0 == self.methods@[k].0
                        && call_ensures(f, (self.methods@[k].1,), methods@[k].1),
            decreases self.methods.len() - i,
        {
            let method = self.methods[i].0;
            let handler = f(self.methods[i].1.clone());
            methods.push((method, handler));
            i += 1;
        }
        proof {
            lemma_same_methods(self.methods@, methods@);
        }
        Route { methods }
    }

    /// The handler registered under `method`, or `None` where the table has
    /// no line for it.
    pub fn handler(&self, method: Method) -> (found: Option<&BoxHandler>)
        ensures
            distinct(self@),
            match found {
                Some(handler) => registered(self@, method) && *handler == self@[slot(
                    self@,
                    method,
                )].1,
                None => !registered(self@, method),
            },
    {
        proof {
            use_type_invariant(self);
        }
        let mut i: usize = 0;
        while i < self.methods.len()
            invariant
                i <= self.methods.len(),
                distinct(self.methods@),
                forall|k: int| 0 <= k < i ==> self.methods@[k].0 != method,
            decreases self.methods.len() - i,
        {
            if self.methods[i].0 == method {
                assert(registered(self@, method));
                assert(slot(self@, method) == i);
                return Some(&self.methods[i].1);
            }
            i += 1;
        }
        None
    }

    /// Answers `req` with the handler registered under `method`: with its
    /// success, or with the response that its failure becomes. `None` where
    /// the table has no line for the method.
    pub fn dispatch(&self, method: Method, req: Request) -> (answer: Option<Response>)
        ensures
            distinct(self@),
            answer is Some <==> registered(self@, method),
            answer matches Some(res) ==> exists|out: Result<Response, Error>| #[trigger]
                self@[slot(self@, method)].1.responds(req, out) && res@ == out.response(),
    {
        match self.handler(method) {
            Some(handler) => Some(handler.call(req).into_response()),
            None => None,
        }
    }

    /// The methods of the table, in the order of their first registration.
    pub fn methods(&self) -> (list: Vec<Method>)
        ensures
            distinct(self@),
            list@ == keys(self@),
    {
        proof {
            use_type_invariant(self);
        }
        let mut list: Vec<Method> = Vec::new();
        let mut i: usize = 0;
        while i < self.methods.len()
            invariant
                i <= self.methods.len(),
                list@.len() == i,
                forall|k: int| 0 <= k < i ==> list@[k] == self.methods@[k].0,
            decreases self.methods.len() - i,
        {
            list.push(self.methods[i].0);
            i += 1;
        }
        assert(list@ =~= keys(self@));
        list
    }

    /// Takes the table apart into its lines, in their order.
    pub fn into_pairs(self) -> (pairs: Vec<Entry>)
        ensures
            pairs@ == self@,
            distinct(pairs@),
    {
        proof {
            use_type_invariant(&self);
        }
        self.methods
    }

    /// Builds a table from lines, registering them one after the other. Of
    /// lines with the same method the last one stays, in the place of the
    /// first.
    pub fn from_pairs(pairs: Vec<Entry>) -> (route: Route)
        ensures
            distinct(route@),
            route@ == registered_all(Seq::<Entry>::empty(), pairs@),
    {
        let mut route = Route::new();
        let mut i: usize = 0;
        assert(pairs@.take(0) =~= Seq::<Entry>::empty());
        while i < pairs.len()
            invariant
                i <= pairs.len(),
                distinct(route@),
                route@ == registered_all(Seq::<Entry>::empty(), pairs@.take(i as int)),
            decreases pairs.len() - i,
        {
            let method = pairs[i].0;
            let handler = pairs[i].1.clone();
            route = route.push(method, handler);
            proof {
                let taken = pairs@.take(i as int + 1);
                assert(taken.drop_last() =~= pairs@.take(i as int));
                assert(taken.last() == pairs@[i as int]);
            }
            i += 1;
        }
        assert(pairs@.take(pairs@.len() as int) =~= pairs@);
        route
    }
}

impl Clone for Route {
    /// A table with the same lines, each handler a second handle to the same
    /// handler.
    fn clone(&self) -> (copy: Route)
        ensures
            copy@ == self@,
            distinct(copy@),
    {
        proof {
            use_type_invariant(self);
        }
        let mut methods: Vec<Entry> = Vec::new();
        let mut i: usize = 0;
        while i < self.methods.len()
            invariant
                i <= self.methods.len(),
                methods@.len() == i,
                forall|k: int| 0 <= k < i ==> methods@[k] == self.methods@[k],
            decreases self.methods.len() - i,
        {
            methods.push((self.methods[i].0, self.methods[i].1.clone()));
            i += 1;
        }
        assert(methods@ =~= self.methods@);
        Route { methods }
    }
}

impl Default for Route {
    /// The empty table.
    fn default() -> (route: Route)
        ensures
            route@ == Seq::<Entry>::empty(),
    {
        Route::new()
    }
}

/// A table with `handler` registered under `method` and nothing else.
pub fn on<H, O>(method: Method, handler: H) -> (route: Route) where
    H: Handler<Request, Output = Result<O, Error>>,
    O: IntoResponse + Send + Sync + 'static,

    ensures
        distinct(route@),
        keys(route@) == seq![method],
        equivalent(route@[0].1, Responder { h: handler }),
{
    let route = Route::new().on(method, handler);
    assert(keys(route@) =~= seq![method]);
    route
}

/// A table with `handler` registered under each of the nine standard verbs.
pub fn any<H, O>(handler: H) -> (route: Route) where
    H: Handler<Request, Output = Result<O, Error>>,
    O: IntoResponse + Send + Sync + 'static,

    ensures
        distinct(route@),
        keys(route@) == Method::standard(),
        forall|i: int|
            0 <= i < 9 ==> equivalent((#[trigger] route@[i]).1, Responder { h: handler }),
{
    let route = Route::new().any(handler);
    proof {
        lemma_standard();
        assert(keys(Seq::<Entry>::empty()) =~= Seq::<Method>::empty());
    }
    route
}

/// A table with `handler` registered under `GET` and nothing else.
pub fn get<H, O>(handler: H) -> (route: Route) where
    H: Handler<Request, Output = Result<O, Error>>,
    O: IntoResponse + Send + Sync + 'static,

    ensures
        distinct(route@),
        keys(route@) == seq![Method::GET],
        equivalent(route@[0].1, Responder { h: handler }),
{
    let route = Route::new().get(handler);
    assert(keys(route@) =~= seq![Method::GET]);
    route
}

/// A table with `handler` registered under `POST` and nothing else.
pub fn post<H, O>(handler: H) -> (route: Route) where
    H: Handler<Request, Output = Result<O, Error>>,
    O: IntoResponse + Send + Sync + 'static,

    ensures
        distinct(route@),
        keys(route@) == seq![Method::POST],
        equivalent(route@[0].1, Responder { h: handler }),
{
    let route = Route::new().post(handler);
    assert(keys(route@) =~= seq![Method::POST]);
    route
}

/// A table with `handler` registered under `PUT` and nothing else.
pub fn put<H, O>(handler: H) -> (route: Route) where
    H: Handler<Request, Output = Result<O, Error>>,
    O: IntoResponse + Send + Sync + 'static,

    ensures
        distinct(route@),
        keys(route@) == seq![Method::PUT],
        equivalent(route@[0].1, Responder { h: handler }),
{
    let route = Route::new().put(handler);
    assert(keys(route@) =~= seq![Method::PUT]);
    route
}

/// A table with `handler` registered under `DELETE` and nothing else.
pub fn delete<H, O>(handler: H) -> (route: Route) where
    H: Handler<Request, Output = Result<O, Error>>,
    O: IntoResponse + Send + Sync + 'static,

    ensures
        distinct(route@),
        keys(route@) == seq![Method::DELETE],
        equivalent(route@[0].1, Responder { h: handler }),
{
    let route = Route::new().delete(handler);
    assert(keys(route@) =~= seq![Method::DELETE]);
    route
}

/// A table with `handler` registered under `HEAD` and nothing else.
pub fn head<H, O>(handler: H) -> (route: Route) where
    H: Handler<Request, Output = Result<O, Error>>,
    O: IntoResponse + Send + Sync + 'static,

    ensures
        distinct(route@),
        keys(route@) == seq![Method::HEAD],
        equivalent(route@[0].1, Responder { h: handler }),
{
    let route = Route::new().head(handler);
    assert(keys(route@) =~= seq![Method::HEAD]);
    route
}

/// A table with `handler` registered under `OPTIONS` and nothing else.
pub fn options<H, O>(handler: H) -> (route: Route) where
    H: Handler<Request, Output = Result<O, Error>>,
    O: IntoResponse + Send + Sync + 'static,

    ensures
        distinct(route@),
        keys(route@) == seq![Method::OPTIONS],
        equivalent(route@[0].1, Responder { h: handler }),
{
    let route = Route::new().options(handler);
    assert(keys(route@) =~= seq![Method::OPTIONS]);
    route
}

/// A table with `handler` registered under `CONNECT` and nothing else.
pub fn connect<H, O>(handler: H) -> (route: Route) where
    H: Handler<Request, Output = Result<O, Error>>,
    O: IntoResponse + Send + Sync + 'static,

    ensures
        distinct(route@),
        keys(route@) == seq![Method::CONNECT],
        equivalent(route@[0].1, Responder { h: handler }),
{
    let route = Route::new().connect(handler);
    assert(keys(route@) =~= seq![Method::CONNECT]);
    route
}

/// A table with `handler` registered under `PATCH` and nothing else.
pub fn patch<H, O>(handler: H) -> (route: Route) where
    H: Handler<Request, Output = Result<O, Error>>,
    O: IntoResponse + Send + Sync + 'static,

    ensures
        distinct(route@),
        keys(route@) == seq![Method::PATCH],
        equivalent(route@[0].1, Responder { h: handler }),
{
    let route = Route::new().patch(handler);
    assert(keys(route@) =~= seq![Method::PATCH]);
    route
}

/// A table with `handler` registered under `TRACE` and nothing else.
pub fn trace<H, O>(handler: H) -> (route: Route) where
    H: Handler<Request, Output = Result<O, Error>>,
    O: IntoResponse + Send + Sync + 'static,

    ensures
        distinct(route@),
        keys(route@) == seq![Method::TRACE],
        equivalent(route@[0].1, Responder { h: handler }),
{
    let route = Route::new().trace(handler);
    assert(keys(route@) =~= seq![Method::TRACE]);
    route
}

} // verus!
