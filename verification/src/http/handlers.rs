use vstd::prelude::*;
use vstd::string::*;

use super::errors::HandlerRegistrationError;
use super::method::HttpMethod;
use super::request::HttpRequestLine;
use crate::text::str_eq;

verus! {

/// A registered handler as the store sees it: the path and method it
/// answers, and the handler itself.
pub type HandlerEntryView<H> = (Seq<char>, HttpMethod, H);

/// One registered handler.
struct HandlerInfo<H> {
    path: String,
    method: HttpMethod,
    handler: H,
}

/// The handlers of a server, by path and method, in the order they were
/// registered. They are kept in one list rather than in a map keyed by the
/// path as a `String`: nothing about such a map's contents can be proved,
/// while the list keeps, for each path, its methods in registration order,
/// which is what a 405 response lists.
pub struct HttpHandlerStore<H> {
    entries: Vec<HandlerInfo<H>>,
}

/// What the store gives for a request line: the handler for its path and
/// method; the methods that have a handler for its path, when its own method
/// has none; or nothing, when no handler serves its path.
pub enum HttpHandler<'a, H> {
    Found(&'a H),
    MethodNotAllowed(Vec<HttpMethod>),
    NotFound,
}

/// `es[i]` answers `path` with `method`.
pub open spec fn answers<H>(es: Seq<HandlerEntryView<H>>, i: int, path: Seq<char>, method: HttpMethod) -> bool {
    0 <= i < es.len() && es[i].0 == path && es[i].1 == method
}

/// Some handler answers `path` with `method`.
pub open spec fn has_route<H>(es: Seq<HandlerEntryView<H>>, path: Seq<char>, method: HttpMethod) -> bool {
    exists|i: int| answers(es, i, path, method)
}

/// The handler that answers `path` with `method` (meaningful when `has_route`).
pub open spec fn route_handler<H>(es: Seq<HandlerEntryView<H>>, path: Seq<char>, method: HttpMethod) -> H {
    es[choose|i: int| answers(es, i, path, method)].2
}

/// The methods that have a handler for `path`, in registration order.
pub open spec fn methods_for<H>(es: Seq<HandlerEntryView<H>>, path: Seq<char>) -> Seq<HttpMethod>
    decreases es.len(),
{
    if es.len() == 0 {
        Seq::<HttpMethod>::empty()
    } else if es.last().0 == path {
        methods_for(es.drop_last(), path).push(es.last().1)
    } else {
        methods_for(es.drop_last(), path)
    }
}

/// A well-formed store: every path starts with `/`, and no two handlers
/// answer the same path with the same method.
pub open spec fn routes_wf<H>(es: Seq<HandlerEntryView<H>>) -> bool {
    &&& forall|i: int| 0 <= i < es.len() ==> seq!['/'].is_prefix_of(#[trigger] es[i].0)
    &&& forall|i: int, j: int|
        0 <= i < es.len() && 0 <= j < es.len() && i != j ==> !(#[trigger] es[i].0 == #[trigger] es[j].0
            && es[i].1 == es[j].1)
}

/// What registering a handler for `path` and `method` gives: an error when
/// the path does not start with `/` or a handler for the path and method
/// already exists, and success otherwise.
pub open spec fn registration_result<H>(es: Seq<HandlerEntryView<H>>, path: Seq<char>, method: HttpMethod) -> Result<(), Seq<char>> {
    if !seq!['/'].is_prefix_of(path) {
        Err("The path must start with '/'"@)
    } else if has_route(es, path, method) {
        Err("There is already a handler for this path"@)
    } else {
        Ok(())
    }
}

/// What a lookup of `path` and `method` gives.
pub open spec fn lookup_matches<H>(es: Seq<HandlerEntryView<H>>, path: Seq<char>, method: HttpMethod, r: HttpHandler<H>) -> bool {
    match r {
        HttpHandler::Found(h) => has_route(es, path, method) && *h == route_handler(es, path, method),
        HttpHandler::MethodNotAllowed(ms) => !has_route(es, path, method) && methods_for(es, path).len() > 0
            && ms@ == methods_for(es, path),
        HttpHandler::NotFound => !has_route(es, path, method) && methods_for(es, path).len() == 0,
    }
}

impl<H> View for HttpHandlerStore<H> {
    type V = Seq<HandlerEntryView<H>>;

    closed spec fn view(&self) -> Seq<HandlerEntryView<H>> {
        self.entries@.map_values(|e: HandlerInfo<H>| (e.path@, e.method, e.handler))
    }
}

/// The methods for a path grow by one when a handler for it is added, and
/// are unchanged when a handler for another path is added.
proof fn lemma_methods_for_push<H>(es: Seq<HandlerEntryView<H>>, e: HandlerEntryView<H>, path: Seq<char>)
    ensures
        methods_for(es.push(e), path) == if e.0 == path {
            methods_for(es, path).push(e.1)
        } else {
            methods_for(es, path)
        },
{
    assert(es.push(e).drop_last() =~= es);
}

/// A path with a handler has at least one method.
proof fn lemma_route_has_methods<H>(es: Seq<HandlerEntryView<H>>, path: Seq<char>, method: HttpMethod)
    requires
        has_route(es, path, method),
    ensures
        methods_for(es, path).len() > 0,
    decreases es.len(),
{
    let i = choose|i: int| answers(es, i, path, method);
    if i < es.len() - 1 {
        assert(answers(es.drop_last(), i, path, method));
        lemma_route_has_methods(es.drop_last(), path, method);
    }
}

/// In a well-formed store, the handler for a path and method is the one at
/// any position that answers them.
proof fn lemma_route_handler_at<H>(es: Seq<HandlerEntryView<H>>, path: Seq<char>, method: HttpMethod, i: int)
    requires
        routes_wf(es),
        answers(es, i, path, method),
    ensures
        route_handler(es, path, method) == es[i].2,
{
    let k = choose|k: int| answers(es, k, path, method);
    if k != i {
        assert(es[k].0 == es[i].0 && es[k].1 == es[i].1);
    }
}

/// Registering succeeds exactly when the path starts with `/` and no handler
/// has that very path with that method: a handler for another path, even one
/// that is a prefix of it, or for the same path with another method, does not
/// stand in the way. A path without `/` in front is refused first; a path and
/// method that already have a handler are refused as a duplicate.
pub proof fn law_registration_result<H>(es: Seq<HandlerEntryView<H>>, path: Seq<char>, method: HttpMethod)
    ensures
        registration_result(es, path, method) is Ok <==> (seq!['/'].is_prefix_of(path) && forall|i: int|
            #![trigger es[i]]
            0 <= i < es.len() ==> !(es[i].0 == path && es[i].1 == method)),
        !seq!['/'].is_prefix_of(path) ==> registration_result(es, path, method) == Err::<
            (),
            Seq<char>,
        >("The path must start with '/'"@),
        seq!['/'].is_prefix_of(path) && (exists|i: int|
            #![trigger es[i]]
            0 <= i < es.len() && es[i].0 == path && es[i].1 == method) ==> registration_result(
            es,
            path,
            method,
        ) == Err::<(), Seq<char>>("There is already a handler for this path"@),
{
    if exists|i: int| #![trigger es[i]] 0 <= i < es.len() && es[i].0 == path && es[i].1 == method {
        let i = choose|i: int| #![trigger es[i]] 0 <= i < es.len() && es[i].0 == path && es[i].1 == method;
        assert(answers(es, i, path, method));
    }
    if has_route(es, path, method) {
        let i = choose|i: int| answers(es, i, path, method);
        assert(0 <= i < es.len() && es[i].0 == path && es[i].1 == method);
    }
}

/// Registering a handler and then looking up its path and method gives that
/// handler; every other path and method keeps what it had; and the methods
/// listed for its path gain its method at the end.
pub proof fn law_register_then_get<H>(
    es: Seq<HandlerEntryView<H>>,
    path: Seq<char>,
    method: HttpMethod,
    handler: H,
    other_path: Seq<char>,
    other_method: HttpMethod,
)
    requires
        routes_wf(es),
        registration_result(es, path, method) is Ok,
    ensures
        routes_wf(es.push((path, method, handler))),
        has_route(es.push((path, method, handler)), path, method),
        route_handler(es.push((path, method, handler)), path, method) == handler,
        registration_result(es.push((path, method, handler)), path, method) is Err,
        !(other_path == path && other_method == method) ==> {
            &&& has_route(es.push((path, method, handler)), other_path, other_method) == has_route(
                es,
                other_path,
                other_method,
            )
            &&& (has_route(es, other_path, other_method) ==> route_handler(
                es.push((path, method, handler)),
                other_path,
                other_method,
            ) == route_handler(es, other_path, other_method))
        },
        methods_for(es.push((path, method, handler)), path) == methods_for(es, path).push(method),
        other_path != path ==> methods_for(es.push((path, method, handler)), other_path)
            == methods_for(es, other_path),
{
    let e = (path, method, handler);
    let es2 = es.push(e);
    let n = es.len() as int;
    assert(answers(es2, n, path, method));
    assert(routes_wf(es2)) by {
        assert forall|i: int, j: int|
            0 <= i < es2.len() && 0 <= j < es2.len() && i != j implies !(#[trigger] es2[i].0
            == #[trigger] es2[j].0 && es2[i].1 == es2[j].1) by {
            if i == n {
                assert(!answers(es, j, path, method));
            } else if j == n {
                assert(!answers(es, i, path, method));
            }
        }
    }
    lemma_route_handler_at(es2, path, method, n);
    lemma_methods_for_push(es, e, path);
    lemma_methods_for_push(es, e, other_path);
    if !(other_path == path && other_method == method) {
        if has_route(es, other_path, other_method) {
            let k = choose|k: int| answers(es, k, other_path, other_method);
            assert(answers(es2, k, other_path, other_method));
            lemma_route_handler_at(es, other_path, other_method, k);
            lemma_route_handler_at(es2, other_path, other_method, k);
        }
        if has_route(es2, other_path, other_method) {
            let k = choose|k: int| answers(es2, k, other_path, other_method);
            assert(k != n);
            assert(answers(es, k, other_path, other_method));
        }
    }
}

/// The store after a series of registrations, each made as `register` makes
/// it: added when `registration_result` allows it, refused otherwise.
pub open spec fn apply_registrations<H>(
    es: Seq<HandlerEntryView<H>>,
    regs: Seq<HandlerEntryView<H>>,
) -> Seq<HandlerEntryView<H>>
    decreases regs.len(),
{
    if regs.len() == 0 {
        es
    } else {
        let before = apply_registrations(es, regs.drop_last());
        let r = regs.last();
        if registration_result(before, r.0, r.1) is Ok {
            before.push(r)
        } else {
            before
        }
    }
}

/// One registration, as `apply_registrations` makes it.
proof fn lemma_apply_one<H>(es: Seq<HandlerEntryView<H>>, r: HandlerEntryView<H>)
    ensures
        apply_registrations(es, seq![r]) == if registration_result(es, r.0, r.1) is Ok {
            es.push(r)
        } else {
            es
        },
{
    let regs = seq![r];
    assert(regs.drop_last() =~= Seq::<HandlerEntryView<H>>::empty());
    assert(apply_registrations(es, regs.drop_last()) == es);
    assert(regs.last() == r);
}

/// Whatever registrations follow, successful or refused: the store stays
/// well formed (every path starts with `/`, no two handlers for one path and
/// method), every path in it has at least one method, and a handler once
/// registered stays the one found for its path and method.
pub proof fn law_registrations_keep_routes<H>(
    es: Seq<HandlerEntryView<H>>,
    regs: Seq<HandlerEntryView<H>>,
    path: Seq<char>,
    method: HttpMethod,
)
    requires
        routes_wf(es),
    ensures
        routes_wf(apply_registrations(es, regs)),
        forall|i: int|
            0 <= i < apply_registrations(es, regs).len() ==> methods_for(
                apply_registrations(es, regs),
                (#[trigger] apply_registrations(es, regs)[i]).0,
            ).len() > 0,
        has_route(es, path, method) ==> {
            &&& has_route(apply_registrations(es, regs), path, method)
            &&& route_handler(apply_registrations(es, regs), path, method) == route_handler(
                es,
                path,
                method,
            )
        },
    decreases regs.len(),
{
    let result = apply_registrations(es, regs);
    if regs.len() > 0 {
        let before = apply_registrations(es, regs.drop_last());
        law_registrations_keep_routes(es, regs.drop_last(), path, method);
        let r = regs.last();
        if registration_result(before, r.0, r.1) is Ok {
            law_register_then_get(before, r.0, r.1, r.2, path, method);
            if has_route(es, path, method) {
                assert(has_route(before, path, method));
                assert(!(path == r.0 && method == r.1));
            }
        }
    }
    assert forall|i: int| 0 <= i < result.len() implies methods_for(
        result,
        (#[trigger] result[i]).0,
    ).len() > 0 by {
        assert(answers(result, i, result[i].0, result[i].1));
        lemma_route_has_methods(result, result[i].0, result[i].1);
    }
}

impl<H> HttpHandlerStore<H> {
    #[verifier::type_invariant]
    spec fn wf(self) -> bool {
        routes_wf(self@)
    }

    /// An empty store.
    pub fn new() -> (s: Self)
        ensures
            s@ == Seq::<HandlerEntryView<H>>::empty(),
            routes_wf(s@),
    {
        let s = HttpHandlerStore { entries: Vec::new() };
        assert(s@ =~= Seq::<HandlerEntryView<H>>::empty());
        s
    }

    /// Whether some handler answers `path` with `method`.
    fn has_handler(&self, path: &str, method: HttpMethod) -> (b: bool)
        ensures
            b == has_route(self@, path@, method),
    {
        let ghost es = self@;
        let mut i: usize = 0;
        while i < self.entries.len()
            invariant
                es == self@,
                es.len() == self.entries@.len(),
                i <= es.len(),
                forall|j: int| 0 <= j < i ==> !answers(es, j, path@, method),
            decreases es.len() - i,
        {
            let e = &self.entries[i];
            assert(es[i as int] == (e.path@, e.method, e.handler));
            if e.method == method && str_eq(e.path.as_str(), path) {
                assert(answers(es, i as int, path@, method));
                return true;
            }
            i = i + 1;
        }
        false
    }

    /// Registers `handler` for `path` and `method`, unless the path does not
    /// start with `/` or a handler for the path and method already exists.
    pub fn register(&mut self, path: &str, method: HttpMethod, handler: H) -> (r: Result<
        (),
        HandlerRegistrationError,
    >)
        ensures
            routes_wf(final(self)@),
            final(self)@ == apply_registrations(old(self)@, seq![(path@, method, handler)]),
            match r {
                Ok(_) => registration_result(old(self)@, path@, method) is Ok
                    && final(self)@ == old(self)@.push((path@, method, handler)),
                Err(e) => registration_result(old(self)@, path@, method) == Err::<(), Seq<char>>(e@)
                    && final(self)@ == old(self)@,
            },
    {
        proof {
            use_type_invariant(&*self);
            lemma_apply_one(self@, (path@, method, handler));
        }
        let chars = crate::text::chars_of(path);
        let slash = vec!['/'];
        assert(slash@ =~= seq!['/']);
        if !crate::text::starts_with(chars.as_slice(), slash.as_slice()) {
            return Err(HandlerRegistrationError::new(String::from_str("The path must start with '/'")));
        }
        if self.has_handler(path, method) {
            return Err(
                HandlerRegistrationError::new(String::from_str("There is already a handler for this path")),
            );
        }
        let ghost old_es = self@;
        proof {
            law_register_then_get(old_es, path@, method, handler, path@, method);
        }
        let mut entries: Vec<HandlerInfo<H>> = Vec::new();
        std::mem::swap(&mut entries, &mut self.entries);
        entries.push(HandlerInfo { path: String::from_str(path), method, handler });
        assert(entries@.map_values(|e: HandlerInfo<H>| (e.path@, e.method, e.handler)) =~= old_es.push(
            (path@, method, handler),
        ));
        self.entries = entries;
        Ok(())
    }

    /// The handler for the path and method of `req`, or why there is none.
    pub fn get(&self, req: &HttpRequestLine) -> (r: HttpHandler<'_, H>)
        ensures
            lookup_matches(self@, req@.target, req@.method, r),
    {
        proof {
            use_type_invariant(self);
        }
        let ghost es = self@;
        let target = req.target();
        let method = req.method();
        let mut i: usize = 0;
        while i < self.entries.len()
            invariant
                es == self@,
                routes_wf(es),
                target@ == req@.target,
                method == req@.method,
                es.len() == self.entries@.len(),
                i <= es.len(),
                forall|j: int| 0 <= j < i ==> !answers(es, j, target@, method),
            decreases es.len() - i,
        {
            let e = &self.entries[i];
            assert(es[i as int] == (e.path@, e.method, e.handler));
            if e.method == method && str_eq(e.path.as_str(), target.as_str()) {
                assert(answers(es, i as int, target@, method));
                proof {
                    lemma_route_handler_at(es, target@, method, i as int);
                }
                return HttpHandler::Found(&e.handler);
            }
            i = i + 1;
        }
        let mut methods: Vec<HttpMethod> = Vec::new();
        let mut k: usize = 0;
        assert(es.take(0) =~= Seq::<HandlerEntryView<H>>::empty());
        while k < self.entries.len()
            invariant
                es == self@,
                es.len() == self.entries@.len(),
                k <= es.len(),
                methods@ == methods_for(es.take(k as int), target@),
            decreases es.len() - k,
        {
            let e = &self.entries[k];
            assert(es[k as int] == (e.path@, e.method, e.handler));
            assert(es.take(k + 1) =~= es.take(k as int).push(es[k as int]));
            proof {
                lemma_methods_for_push(es.take(k as int), es[k as int], target@);
            }
            if str_eq(e.path.as_str(), target.as_str()) {
                methods.push(e.method);
            }
            k = k + 1;
        }
        assert(es.take(k as int) =~= es);
        if methods.len() == 0 {
            HttpHandler::NotFound
        } else {
            HttpHandler::MethodNotAllowed(methods)
        }
    }
}

} // verus!
