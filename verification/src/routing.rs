use vstd::prelude::*;

verus! {

/// A request handler that failed to produce a result.
#[derive(Debug)]
pub struct ControllerError {}

/// What a request handler produces: a string, an integer, or a payload `A` of the
/// application's choosing that a custom controller hands on to its response handler.
pub enum ControllerResult<A> {
    StringResult(String),
    IntResult(i32),
    AnyResult(A),
}

/// The outcome of a custom request handler as a controller outcome: a payload
/// becomes an `AnyResult`, an error stays the same error.
pub open spec fn wrapped_outcome<A>(outcome: Result<A, ControllerError>) -> Result<
    ControllerResult<A>,
    ControllerError,
> {
    match outcome {
        Ok(a) => Ok(ControllerResult::AnyResult(a)),
        Err(e) => Err(e),
    }
}

/// A custom request handler together with the wrapping of its outcome: calling it
/// calls the inner handler once and answers its outcome as a controller outcome.
pub struct AnyHandler<F> {
    pub inner: F,
}

impl<F> AnyHandler<F> {
    /// Calls the inner handler, which takes no input, and wraps its outcome.
    pub fn call<A>(&self) -> (r: Result<ControllerResult<A>, ControllerError>) where
        F: Fn() -> Result<A, ControllerError>,

        requires
            call_requires(self.inner, ()),
        ensures
            exists|o: Result<A, ControllerError>|
                call_ensures(self.inner, (), o) && r == wrapped_outcome(o),
    {
        let o = (self.inner)();
        ControllerResult::wrap_any(o)
    }

    /// Hands `input` to the inner handler and wraps its outcome.
    pub fn call_with<A, V>(&self, input: V) -> (r: Result<ControllerResult<A>, ControllerError>) where
        F: Fn(V) -> Result<A, ControllerError>,

        requires
            call_requires(self.inner, (input,)),
        ensures
            exists|o: Result<A, ControllerError>|
                call_ensures(self.inner, (input,), o) && r == wrapped_outcome(o),
    {
        let o = (self.inner)(input);
        ControllerResult::wrap_any(o)
    }
}

impl<A> ControllerResult<A> {
    /// The outcome of a custom request handler, as a controller outcome.
    pub fn wrap_any(outcome: Result<A, ControllerError>) -> (wrapped: Result<
        ControllerResult<A>,
        ControllerError,
    >)
        ensures
            wrapped == wrapped_outcome(outcome),
    {
        match outcome {
            Ok(a) => Ok(ControllerResult::AnyResult(a)),
            Err(e) => Err(e),
        }
    }
}

/// A route whose handler answers a string.
pub struct StringController<R, H> {
    pub path: String,
    pub method: String,
    pub req_handler: R,
    pub handler: H,
}

/// A route whose handler answers an integer.
pub struct IntController<R, H> {
    pub path: String,
    pub method: String,
    pub req_handler: R,
    pub handler: H,
}

/// A route whose handler answers a payload of the application's choosing.
pub struct CustomController<R, H> {
    pub path: String,
    pub method: String,
    pub req_handler: R,
    pub handler: H,
}

/// A route whose handler receives the request and answers a payload of the
/// application's choosing.
pub struct CustomPostController<R, H> {
    pub path: String,
    pub method: String,
    pub req_handler: R,
    pub handler: H,
}

/// A route: the path and method it serves, the handler that computes the result
/// (`R`), and the handler that answers it (`H`).
pub enum Controller<R, H> {
    StringController(StringController<R, H>),
    IntController(IntController<R, H>),
    CustomController(CustomController<R, H>),
    CustomPostController(CustomPostController<R, H>),
}

/// The four sorts of controllers.
#[derive(PartialEq, Eq, Structural, Clone, Copy)]
pub enum ControllerKind {
    Text,
    Int,
    Custom,
    CustomPost,
}

/// What to do with the outcome of a request handler.
pub enum Action<A> {
    /// Hand the string to the response handler.
    DeliverString(String),
    /// Hand the integer to the response handler.
    DeliverInt(i32),
    /// Hand the payload to the response handler.
    DeliverAny(A),
    /// The controller has no way to answer a result of this sort.
    Unimplemented,
    /// Print an empty line and answer nothing.
    EmptyLine,
    /// Report the handler's error and answer nothing.
    ReportError(ControllerError),
}

/// The action for the outcome of a request handler of a controller of the given sort:
/// a failure is reported; a string controller answers only strings, an integer
/// controller only integers, and a custom controller only payloads.
pub open spec fn decision<A>(kind: ControllerKind, outcome: Result<ControllerResult<A>, ControllerError>) -> Action<A> {
    match outcome {
        Err(e) => Action::ReportError(e),
        Ok(res) => match kind {
            ControllerKind::Text => match res {
                ControllerResult::StringResult(s) => Action::DeliverString(s),
                _ => Action::Unimplemented,
            },
            ControllerKind::Int => match res {
                ControllerResult::IntResult(n) => Action::DeliverInt(n),
                _ => Action::Unimplemented,
            },
            _ => match res {
                ControllerResult::AnyResult(a) => Action::DeliverAny(a),
                _ => Action::EmptyLine,
            },
        },
    }
}

impl<R, H> Controller<R, H> {
    /// The path the controller serves.
    pub open spec fn route_path(&self) -> Seq<char> {
        match self {
            Controller::StringController(c) => c.path@,
            Controller::IntController(c) => c.path@,
            Controller::CustomController(c) => c.path@,
            Controller::CustomPostController(c) => c.path@,
        }
    }

    /// The method the controller serves.
    pub open spec fn route_method(&self) -> Seq<char> {
        match self {
            Controller::StringController(c) => c.method@,
            Controller::IntController(c) => c.method@,
            Controller::CustomController(c) => c.method@,
            Controller::CustomPostController(c) => c.method@,
        }
    }

    /// The sort of the controller.
    pub open spec fn route_kind(&self) -> ControllerKind {
        match self {
            Controller::StringController(_) => ControllerKind::Text,
            Controller::IntController(_) => ControllerKind::Int,
            Controller::CustomController(_) => ControllerKind::Custom,
            Controller::CustomPostController(_) => ControllerKind::CustomPost,
        }
    }

    /// A controller whose handler answers a string.
    pub fn new_string_controller(path: String, method: String, req_handler: R, handler: H) -> (c:
        Self)
        ensures
            c == Controller::StringController(StringController { path, method, req_handler, handler }),
    {
        Controller::StringController(StringController { path, method, req_handler, handler })
    }

    /// A controller whose handler answers an integer.
    pub fn new_int_controller(path: String, method: String, req_handler: R, handler: H) -> (c: Self)
        ensures
            c == Controller::IntController(IntController { path, method, req_handler, handler }),
    {
        Controller::IntController(IntController { path, method, req_handler, handler })
    }

    /// A controller whose handler answers a payload. The request handler that it keeps
    /// is `req_handler` with the wrapping of its outcome (`AnyHandler`), in the form
    /// that `keep` makes of it.
    pub fn custom_controller<F, K>(
        path: String,
        method: String,
        req_handler: F,
        handler: H,
        keep: K,
    ) -> (c: Self) where K: FnOnce(AnyHandler<F>) -> R
        requires
            call_requires(keep, (AnyHandler { inner: req_handler },)),
        ensures
            exists|r: R|
                #![trigger call_ensures(keep, (AnyHandler { inner: req_handler },), r)]
                call_ensures(keep, (AnyHandler { inner: req_handler },), r) && c
                    == Controller::CustomController(
                    CustomController { path, method, req_handler: r, handler },
                ),
    {
        let kept = keep(AnyHandler { inner: req_handler });
        Controller::CustomController(CustomController { path, method, req_handler: kept, handler })
    }

    /// A controller whose handler receives the request and answers a payload. The
    /// request handler that it keeps is `req_handler` with the wrapping of its outcome
    /// (`AnyHandler`), in the form that `keep` makes of it.
    pub fn custom_post_controller<F, K>(
        path: String,
        method: String,
        req_handler: F,
        handler: H,
        keep: K,
    ) -> (c: Self) where K: FnOnce(AnyHandler<F>) -> R
        requires
            call_requires(keep, (AnyHandler { inner: req_handler },)),
        ensures
            exists|r: R|
                #![trigger call_ensures(keep, (AnyHandler { inner: req_handler },), r)]
                call_ensures(keep, (AnyHandler { inner: req_handler },), r) && c
                    == Controller::CustomPostController(
                    CustomPostController { path, method, req_handler: r, handler },
                ),
    {
        let kept = keep(AnyHandler { inner: req_handler });
        Controller::CustomPostController(
            CustomPostController { path, method, req_handler: kept, handler },
        )
    }

    /// The sort of the controller.
    pub fn kind(&self) -> (k: ControllerKind)
        ensures
            k == self.route_kind(),
    {
        match self {
            Controller::StringController(_) => ControllerKind::Text,
            Controller::IntController(_) => ControllerKind::Int,
            Controller::CustomController(_) => ControllerKind::Custom,
            Controller::CustomPostController(_) => ControllerKind::CustomPost,
        }
    }

    /// The path the controller serves.
    pub fn path(&self) -> (p: &String)
        ensures
            p@ == self.route_path(),
    {
        match self {
            Controller::StringController(c) => &c.path,
            Controller::IntController(c) => &c.path,
            Controller::CustomController(c) => &c.path,
            Controller::CustomPostController(c) => &c.path,
        }
    }

    /// The method the controller serves.
    pub fn method(&self) -> (m: &String)
        ensures
            m@ == self.route_method(),
    {
        match self {
            Controller::StringController(c) => &c.method,
            Controller::IntController(c) => &c.method,
            Controller::CustomController(c) => &c.method,
            Controller::CustomPostController(c) => &c.method,
        }
    }

    /// The handler that computes the controller's result.
    pub fn req_handler(&self) -> (r: &R)
        ensures
            *r == match self {
                Controller::StringController(c) => c.req_handler,
                Controller::IntController(c) => c.req_handler,
                Controller::CustomController(c) => c.req_handler,
                Controller::CustomPostController(c) => c.req_handler,
            },
    {
        match self {
            Controller::StringController(c) => &c.req_handler,
            Controller::IntController(c) => &c.req_handler,
            Controller::CustomController(c) => &c.req_handler,
            Controller::CustomPostController(c) => &c.req_handler,
        }
    }

    /// The handler that answers the controller's result.
    pub fn handler(&self) -> (h: &H)
        ensures
            *h == match self {
                Controller::StringController(c) => c.handler,
                Controller::IntController(c) => c.handler,
                Controller::CustomController(c) => c.handler,
                Controller::CustomPostController(c) => c.handler,
            },
    {
        match self {
            Controller::StringController(c) => &c.handler,
            Controller::IntController(c) => &c.handler,
            Controller::CustomController(c) => &c.handler,
            Controller::CustomPostController(c) => &c.handler,
        }
    }

    /// Whether the controller serves a request with this path and method.
    pub fn matches(&self, path: &String, method: &String) -> (b: bool)
        ensures
            b == route_matches(*self, path@, method@),
    {
        *path == *self.path() && *method == *self.method()
    }

    /// Whether the request handler of the controller takes the request as its input.
    pub fn takes_request(&self) -> (b: bool)
        ensures
            b == (self.route_kind() == ControllerKind::CustomPost),
    {
        match self {
            Controller::CustomPostController(_) => true,
            _ => false,
        }
    }

    /// What to do with the outcome of this controller's request handler.
    pub fn decide<A>(&self, outcome: Result<ControllerResult<A>, ControllerError>) -> (action:
        Action<A>)
        ensures
            action == decision(self.route_kind(), outcome),
    {
        let kind = self.kind();
        match outcome {
            Err(e) => Action::ReportError(e),
            Ok(res) => match kind {
                ControllerKind::Text => match res {
                    ControllerResult::StringResult(s) => Action::DeliverString(s),
                    _ => Action::Unimplemented,
                },
                ControllerKind::Int => match res {
                    ControllerResult::IntResult(n) => Action::DeliverInt(n),
                    _ => Action::Unimplemented,
                },
                _ => match res {
                    ControllerResult::AnyResult(a) => Action::DeliverAny(a),
                    _ => Action::EmptyLine,
                },
            },
        }
    }
}

/// A controller serves a request when both its path and its method equal the request's.
pub open spec fn route_matches<R, H>(c: Controller<R, H>, path: Seq<char>, method: Seq<char>) -> bool {
    c.route_path() == path && c.route_method() == method
}

/// The positions of the routes that serve a request, in the order of the routes.
pub open spec fn matching_routes<R, H>(
    routes: Seq<Controller<R, H>>,
    path: Seq<char>,
    method: Seq<char>,
) -> Seq<usize>
    decreases routes.len(),
{
    if routes.len() == 0 {
        Seq::empty()
    } else {
        let rest = matching_routes(routes.drop_last(), path, method);
        if route_matches(routes.last(), path, method) {
            rest.push((routes.len() - 1) as usize)
        } else {
            rest
        }
    }
}

/// The routing table: the controllers in the order in which they were registered.
pub struct Router<R, H> {
    pub routes: Vec<Controller<R, H>>,
}

impl<R, H> Router<R, H> {
    /// A routing table made of the given controllers, in their order.
    pub fn init(controllers: Vec<Controller<R, H>>) -> (router: Self)
        ensures
            router.routes == controllers,
    {
        Router { routes: controllers }
    }

    /// The positions of the controllers that serve a request with this path and
    /// method, in the order of the routing table. Each of them is invoked.
    pub fn targets(&self, path: &String, method: &String) -> (found: Vec<usize>)
        ensures
            found@ == matching_routes(self.routes@, path@, method@),
    {
        let mut found: Vec<usize> = Vec::new();
        let n = self.routes.len();
        for i in 0..n
            invariant
                n == self.routes.len(),
                found@ == matching_routes(self.routes@.take(i as int), path@, method@),
        {
            assert(self.routes@.take(i + 1).drop_last() =~= self.routes@.take(i as int));
            if self.routes[i].matches(path, method) {
                found.push(i);
            }
        }
        assert(self.routes@.take(n as int) =~= self.routes@);
        found
    }
}

} // verus!

verus! {

/// Every controller that serves a request is invoked, none other is, and they are
/// invoked in the order of the routing table, each once.
pub proof fn law_targets_are_exactly_the_matching_routes<R, H>(
    routes: Seq<Controller<R, H>>,
    path: Seq<char>,
    method: Seq<char>,
)
    requires
        routes.len() <= usize::MAX,
    ensures
        ({
            let found = matching_routes(routes, path, method);
            &&& forall|i: int|
                0 <= i < found.len() ==> #[trigger] found[i] < routes.len() && route_matches(
                    routes[found[i] as int],
                    path,
                    method,
                )
            &&& forall|j: int|
                0 <= j < routes.len() && route_matches(#[trigger] routes[j], path, method)
                    ==> found.contains(j as usize)
            &&& forall|a: int, b: int| 0 <= a < b < found.len() ==> found[a] < found[b]
        }),
    decreases routes.len(),
{
    if routes.len() > 0 {
        let rest = routes.drop_last();
        law_targets_are_exactly_the_matching_routes(rest, path, method);
        let found = matching_routes(routes, path, method);
        let found_rest = matching_routes(rest, path, method);
        assert forall|j: int|
            0 <= j < routes.len() && route_matches(#[trigger] routes[j], path, method)
            implies found.contains(j as usize) by {
            if j < routes.len() - 1 {
                assert(rest[j] == routes[j]);
                let k = choose|k: int| 0 <= k < found_rest.len() && found_rest[k] == j as usize;
                assert(found[k] == j as usize);
            } else {
                assert(found[found.len() - 1] == j as usize);
            }
        }
        assert forall|i: int| 0 <= i < found.len() implies #[trigger] found[i] < routes.len()
            && route_matches(routes[found[i] as int], path, method) by {
            if i < found_rest.len() {
                assert(found[i] == found_rest[i]);
                assert(rest[found_rest[i] as int] == routes[found_rest[i] as int]);
            }
        }
    }
}

/// A failed request handler is reported and never answered, whatever the controller.
pub proof fn law_failure_is_reported<A>(kind: ControllerKind, e: ControllerError)
    ensures
        decision::<A>(kind, Err(e)) == Action::<A>::ReportError(e),
{
}

/// A controller answers a result of its own sort by handing it on unchanged.
pub proof fn law_own_sort_is_delivered<A>(s: String, n: i32, a: A)
    ensures
        decision::<A>(ControllerKind::Text, Ok(ControllerResult::StringResult(s)))
            == Action::<A>::DeliverString(s),
        decision::<A>(ControllerKind::Int, Ok(ControllerResult::IntResult(n))) == Action::<
            A,
        >::DeliverInt(n),
        decision::<A>(ControllerKind::Custom, Ok(ControllerResult::AnyResult(a)))
            == Action::<A>::DeliverAny(a),
        decision::<A>(ControllerKind::CustomPost, Ok(ControllerResult::AnyResult(a)))
            == Action::<A>::DeliverAny(a),
{
}

/// A controller serves a request exactly when its path and its method both equal the
/// request's: no prefix, no pattern.
pub proof fn law_match_is_equality<R, H>(c: Controller<R, H>, path: Seq<char>, method: Seq<char>)
    ensures
        route_matches(c, path, method) <==> (c.route_path() == path && c.route_method() == method),
{
}

/// The controllers invoked for a request are those whose path and method equal the
/// request's, all of them, and only those.
pub proof fn law_targets_have_the_request_path_and_method<R, H>(
    routes: Seq<Controller<R, H>>,
    path: Seq<char>,
    method: Seq<char>,
)
    requires
        routes.len() <= usize::MAX,
    ensures
        forall|i: int|
            0 <= i < matching_routes(routes, path, method).len() ==> {
                let k = #[trigger] matching_routes(routes, path, method)[i] as int;
                &&& 0 <= k < routes.len()
                &&& routes[k].route_path() == path
                &&& routes[k].route_method() == method
            },
        forall|j: int|
            0 <= j < routes.len() && #[trigger] routes[j].route_path() == path
                && routes[j].route_method() == method ==> matching_routes(
                routes,
                path,
                method,
            ).contains(j as usize),
{
    law_targets_are_exactly_the_matching_routes(routes, path, method);
    let found = matching_routes(routes, path, method);
    assert forall|j: int|
        0 <= j < routes.len() && #[trigger] routes[j].route_path() == path
            && routes[j].route_method() == method implies found.contains(j as usize) by {
        law_match_is_equality(routes[j], path, method);
    }
}

/// A controller answers only results of its own sort: a string controller hands on
/// only strings and an integer controller only integers, and has no answer for any
/// other result; a custom controller hands on only payloads and prints an empty line
/// for any other result.
pub proof fn law_other_sorts_are_not_delivered<A>(kind: ControllerKind, res: ControllerResult<A>)
    ensures
        kind == ControllerKind::Text ==> (decision(kind, Ok(res)) is DeliverString <==> res is StringResult)
            && (res !is StringResult ==> decision(kind, Ok(res)) is Unimplemented),
        kind == ControllerKind::Int ==> (decision(kind, Ok(res)) is DeliverInt <==> res is IntResult)
            && (res !is IntResult ==> decision(kind, Ok(res)) is Unimplemented),
        (kind == ControllerKind::Custom || kind == ControllerKind::CustomPost) ==> (decision(
            kind,
            Ok(res),
        ) is DeliverAny <==> res is AnyResult) && (res !is AnyResult ==> decision(kind, Ok(res)) is EmptyLine),
        !(decision(kind, Ok(res)) is ReportError),
{
}

} // verus!
