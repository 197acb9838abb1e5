//! The route table: per HTTP method, a set of patterns each bound to a
//! handler. Matching itself is done by `matchit`'s radix tree; this module
//! keeps the table's invariants and decides 404, 405 and the trailing-slash
//! rule around it.
use crate::context::{map_of, pairs_view, str_eq, Context};
use crate::path::{
    bindings, check_path, check_pattern, check_same_shape, is_literal, literal_first, normalize, normalized, pattern_matches, same_shape,
    valid_path, valid_pattern,
};
use vstd::prelude::*;
use vstd::string::StringExecFns;

verus! {

#[verifier::external_type_specification]
#[verifier::external_body]
#[verifier::reject_recursive_types(T)]
pub struct ExRouter<T>(matchit::Router<T>);

/// The routes a `matchit` router holds: each inserted pattern, as written,
/// with its value.
pub uninterp spec fn router_routes(r: matchit::Router<usize>) -> Map<Seq<char>, usize>;

/// What `matchit::Router::at` returns for `path` on a router holding
/// `routes`: the value and the parameters, in path order.
pub uninterp spec fn router_match(routes: Map<Seq<char>, usize>, path: Seq<char>) -> Option<
    (usize, Seq<(Seq<char>, Seq<char>)>),
>;

/// Some route of `routes` has the shape of `pattern`.
pub open spec fn has_same_shape(routes: Map<Seq<char>, usize>, pattern: Seq<char>) -> bool {
    exists|q: Seq<char>| #[trigger] routes.contains_key(q) && same_shape(q, pattern)
}

/// Some route of `routes` matches `path`.
pub open spec fn some_route_matches(routes: Map<Seq<char>, usize>, path: Seq<char>) -> bool {
    exists|p: Seq<char>| #[trigger] routes.contains_key(p) && pattern_matches(p, path)
}

/// `value` and `params` are what some route of `routes` that matches
/// `path` holds and binds, a route over which no other matching route
/// takes priority.
pub open spec fn is_route_match(
    routes: Map<Seq<char>, usize>,
    path: Seq<char>,
    value: usize,
    params: Seq<(Seq<char>, Seq<char>)>,
) -> bool {
    exists|p: Seq<char>|
        #[trigger] routes.contains_key(p) && pattern_matches(p, path) && routes[p] == value
            && params == bindings(p, path) && forall|o: Seq<char>|
            #[trigger] routes.contains_key(o) && pattern_matches(o, path) ==> !literal_first(o, p)
}

pub open spec fn no_routes() -> Map<Seq<char>, usize> {
    Map::empty()
}

pub open spec fn all_valid(routes: Map<Seq<char>, usize>) -> bool {
    forall|p: Seq<char>| #[trigger] routes.contains_key(p) ==> valid_pattern(p)
}

/// A match as `matchit` reports it: the route's value and the parameters.
pub struct RawMatch {
    pub value: usize,
    pub params: Vec<(String, String)>,
}

/// Relies on `matchit::Router::new`: a router with no routes.
#[verifier::external_body]
fn router_new() -> (r: matchit::Router<usize>)
    ensures
        router_routes(r) == no_routes(),
{
    matchit::Router::new()
}

/// Relies on `matchit::Router::insert`: a pattern of the grammar with no
/// route of the same shape present is added (parameter names are
/// normalized before the tree is walked, so only a route of the same shape
/// reaches an occupied leaf). Callers never hand it a conflicting pattern:
/// building the conflict error can panic on patterns that are not ASCII.
#[verifier::external_body]
fn router_insert(r: &mut matchit::Router<usize>, pattern: &str, value: usize) -> (ok: bool)
    requires
        valid_pattern(pattern@),
        all_valid(router_routes(*old(r))),
        !has_same_shape(router_routes(*old(r)), pattern@),
    ensures
        ok,
        router_routes(*final(r)) == router_routes(*old(r)).insert(pattern@, value),
{
    r.insert(pattern, value).is_ok()
}

/// Relies on `matchit::Router::at` for a path without empty segments over
/// routes of the pattern grammar: the result depends on the routes held and
/// the path alone; a match is a route that matches the path, with the
/// parameters it binds (a parameter takes the path up to the next `/`),
/// and no other matching route has a literal at the first segment where
/// the two differ in kind (the walk tries static children first);
/// some route matches only if the call succeeds (the walk backtracks from
/// static segments to parameters); a path that is itself a route without
/// parameters finds that route (static segments come first).
#[verifier::external_body]
fn router_at(r: &matchit::Router<usize>, path: &str) -> (res: Option<RawMatch>)
    requires
        valid_path(path@),
        all_valid(router_routes(*r)),
    ensures
        res matches Some(m) ==> router_match(router_routes(*r), path@) == Some((m.value, pairs_view(m.params@))),
        res is None ==> router_match(router_routes(*r), path@) is None,
        res matches Some(m) ==> is_route_match(router_routes(*r), path@, m.value, pairs_view(m.params@)),
        some_route_matches(router_routes(*r), path@) ==> res is Some,
        router_routes(*r).contains_key(path@) && is_literal(path@) ==> res is Some && res->Some_0.value == router_routes(*r)[path@]
            && res->Some_0.params@.len() == 0,
{
    match r.at(path) {
        Ok(m) => Some(RawMatch {
            value: *m.value,
            params: m.params.iter().map(|(k, v)| (k.to_string(), v.to_string())).collect(),
        }),
        Err(_) => None,
    }
}

/// The request methods a route can be registered for.
#[derive(Clone, Copy, PartialEq, Eq, Debug, Structural)]
pub enum Method {
    Get,
    Post,
    Put,
    Delete,
    Head,
    Options,
    Connect,
    Patch,
    Trace,
}

impl Method {
    /// The method a request line names, if it is one of these.
    pub fn from_name(name: &str) -> (r: Option<Method>)
        ensures
            r matches Some(m) ==> name@ == method_name(m),
            r is None ==> forall|m: Method| name@ != #[trigger] method_name(m),
    {
        if str_eq(name, "GET") {
            Some(Method::Get)
        } else if str_eq(name, "POST") {
            Some(Method::Post)
        } else if str_eq(name, "PUT") {
            Some(Method::Put)
        } else if str_eq(name, "DELETE") {
            Some(Method::Delete)
        } else if str_eq(name, "HEAD") {
            Some(Method::Head)
        } else if str_eq(name, "OPTIONS") {
            Some(Method::Options)
        } else if str_eq(name, "CONNECT") {
            Some(Method::Connect)
        } else if str_eq(name, "PATCH") {
            Some(Method::Patch)
        } else if str_eq(name, "TRACE") {
            Some(Method::Trace)
        } else {
            None
        }
    }
}

/// The name of a method in a request line.
pub open spec fn method_name(m: Method) -> Seq<char> {
    match m {
        Method::Get => "GET"@,
        Method::Post => "POST"@,
        Method::Put => "PUT"@,
        Method::Delete => "DELETE"@,
        Method::Head => "HEAD"@,
        Method::Options => "OPTIONS"@,
        Method::Connect => "CONNECT"@,
        Method::Patch => "PATCH"@,
        Method::Trace => "TRACE"@,
    }
}

/// Why a route was not registered.
#[derive(Clone, Copy, PartialEq, Eq, Debug, Structural)]
pub enum RouteError {
    /// The pattern is outside the grammar of `valid_pattern`.
    InvalidPattern,
    /// A route of the same shape is already registered for the method.
    Conflict,
}

/// The outcome of looking a request up.
pub enum RouteMatch<H> {
    /// A route matched: its handler and the parameters the path bound.
    Found(H, Context),
    /// The method has routes, but none matches the path (404).
    NotFound,
    /// No route is registered for the method (405).
    MethodNotAllowed,
}

/// The strings held by `v`.
pub open spec fn pattern_set(v: Seq<String>) -> Set<Seq<char>> {
    Set::new(|p: Seq<char>| exists|i: int| 0 <= i < v.len() && #[trigger] v[i]@ == p)
}

/// The routes of one method: patterns in a `matchit` router, whose values
/// index `handlers`, and the same patterns as written, for finding
/// conflicts before the router sees them.
pub struct MethodRoutes<H> {
    pub method: Method,
    pub router: matchit::Router<usize>,
    pub handlers: Vec<H>,
    pub patterns: Vec<String>,
}

impl<H> MethodRoutes<H> {
    pub open spec fn wf(&self) -> bool {
        &&& all_valid(router_routes(self.router))
        &&& router_routes(self.router).dom() == pattern_set(self.patterns@)
        &&& forall|p: Seq<char>| #[trigger]
            router_routes(self.router).contains_key(p) ==> router_routes(self.router)[p]
                < self.handlers@.len()
    }

    /// Each pattern with its handler.
    pub open spec fn route_map(&self) -> Map<Seq<char>, H> {
        Map::new(
            |p: Seq<char>| router_routes(self.router).contains_key(p),
            |p: Seq<char>| self.handlers@[router_routes(self.router)[p] as int],
        )
    }
}

/// Position of the entry for `m` (the last one), or -1.
pub open spec fn method_pos<H>(ts: Seq<MethodRoutes<H>>, m: Method) -> int
    decreases ts.len(),
{
    if ts.len() == 0 {
        -1
    } else if ts.last().method == m {
        ts.len() - 1
    } else {
        method_pos(ts.drop_last(), m)
    }
}

/// What `lookup` decides from a method's routes and handlers (if it has
/// any) and a path.
pub open spec fn lookup_result<H>(t: Option<(Map<Seq<char>, usize>, Seq<H>)>, path: Seq<char>) -> RouteMatchView<H> {
    match t {
        None => RouteMatchView::MethodNotAllowed,
        Some(t) => {
            let p = normalized(path);
            if !valid_path(p) {
                RouteMatchView::NotFound
            } else {
                match router_match(t.0, p) {
                    None => RouteMatchView::NotFound,
                    Some(m) => RouteMatchView::Found(t.1[m.0 as int], map_of(m.1)),
                }
            }
        }
    }
}

/// `RouteMatch` with the context as a map.
pub enum RouteMatchView<H> {
    Found(H, Map<Seq<char>, Seq<char>>),
    NotFound,
    MethodNotAllowed,
}

impl<H> RouteMatch<H> {
    pub open spec fn view(&self) -> RouteMatchView<H> {
        match self {
            RouteMatch::Found(h, c) => RouteMatchView::Found(*h, c@),
            RouteMatch::NotFound => RouteMatchView::NotFound,
            RouteMatch::MethodNotAllowed => RouteMatchView::MethodNotAllowed,
        }
    }
}

/// What `register` decides from a method's routes and a pattern.
pub open spec fn register_result(patterns: Set<Seq<char>>, pattern: Seq<char>) -> Result<(), RouteError> {
    if !valid_pattern(pattern) {
        Err(RouteError::InvalidPattern)
    } else if exists|q: Seq<char>| #[trigger] patterns.contains(q) && same_shape(q, pattern) {
        Err(RouteError::Conflict)
    } else {
        Ok(())
    }
}

/// Per method, the routes registered for it; built once, then only read.
/// The methods are kept in a vector with each method at most once: a std
/// map keyed by a type of this library has no specification the proofs
/// could use (its `Hash` and `Eq` are derived, and unread by the verifier),
/// and a table of at most nine methods is searched in a few steps.
pub struct RouteTable<H> {
    tables: Vec<MethodRoutes<H>>,
}

impl<H: Copy> RouteTable<H> {
    pub closed spec fn wf(&self) -> bool {
        &&& forall|i: int| 0 <= i < self.tables@.len() ==> (#[trigger] self.tables@[i]).wf()
        &&& forall|i: int|
            0 <= i < self.tables@.len() ==> method_pos(self.tables@, #[trigger] self.tables@[i].method) == i
    }

    /// The routes of method `m`, if any was registered for it.
    pub closed spec fn entry(&self, m: Method) -> Option<MethodRoutes<H>> {
        let i = method_pos(self.tables@, m);
        if i < 0 {
            None
        } else {
            Some(self.tables@[i])
        }
    }

    /// The routes of method `m` and its handlers, if any was registered.
    pub closed spec fn entry_view(&self, m: Method) -> Option<(Map<Seq<char>, usize>, Seq<H>)> {
        match self.entry(m) {
            None => None,
            Some(t) => Some((router_routes(t.router), t.handlers@)),
        }
    }

    /// The patterns of method `m` with their handlers (empty if none).
    pub closed spec fn routes(&self, m: Method) -> Map<Seq<char>, H> {
        match self.entry_view(m) {
            None => Map::empty(),
            Some(t) => Map::new(|p: Seq<char>| t.0.contains_key(p), |p: Seq<char>| t.1[t.0[p] as int]),
        }
    }

    /// The patterns of method `m` (empty if none).
    pub closed spec fn patterns(&self, m: Method) -> Set<Seq<char>> {
        match self.entry_view(m) {
            None => Set::empty(),
            Some(t) => t.0.dom(),
        }
    }

    /// What `lookup` answers for `m` and `path`.
    pub open spec fn lookup_view(&self, m: Method, path: Seq<char>) -> RouteMatchView<H> {
        lookup_result(self.entry_view(m), path)
    }

    /// A table without routes.
    pub fn new() -> (r: RouteTable<H>)
        ensures
            r.wf(),
            forall|m: Method| #[trigger] r.entry_view(m) is None,
            forall|m: Method| #[trigger] r.routes(m) == Map::<Seq<char>, H>::empty(),
            forall|m: Method| #[trigger] r.patterns(m) == Set::<Seq<char>>::empty(),
    {
        let r = RouteTable { tables: Vec::new() };
        assert forall|m: Method| #[trigger] r.routes(m) == Map::<Seq<char>, H>::empty() by {
            assert(r.routes(m) =~= Map::<Seq<char>, H>::empty());
        }
        r
    }

    /// Binds `pattern` to `handler` for `method`. Refused when the pattern
    /// is outside the grammar, or when a route of the same shape is
    /// already registered for the method; nothing changes then.
    pub fn register(&mut self, method: Method, pattern: &str, handler: H) -> (r: Result<(), RouteError>)
        requires
            old(self).wf(),
        ensures
            final(self).wf(),
            r == register_result(old(self).patterns(method), pattern@),
            r is Ok ==> final(self).routes(method) == old(self).routes(method).insert(pattern@, handler),
            r is Ok ==> final(self).patterns(method) == old(self).patterns(method).insert(pattern@),
            r is Ok ==> final(self).entry_view(method) is Some,
            r is Err ==> final(self).entry_view(method) == old(self).entry_view(method),
            forall|m: Method| m != method ==> #[trigger] final(self).entry_view(m) == old(self).entry_view(m),
            forall|m: Method| m != method ==> #[trigger] final(self).routes(m) == old(self).routes(m),
            forall|m: Method| m != method ==> #[trigger] final(self).patterns(m) == old(self).patterns(m),
            r is Err ==> final(self).routes(method) == old(self).routes(method),
            r is Err ==> final(self).patterns(method) == old(self).patterns(method),
    {
        if !check_pattern(pattern) {
            return Err(RouteError::InvalidPattern);
        }
        let ghost old_tables = self.tables@;
        let ghost mut fresh_entry = false;
        let idx = match self.find(method) {
            Some(i) => i,
            None => {
                proof {
                    fresh_entry = true;
                }
                proof {
                    lemma_method_pos_absent(self.tables@, method);
                }
                let fresh = MethodRoutes { method, router: router_new(), handlers: Vec::new(), patterns: Vec::new() };
                assert(pattern_set(fresh.patterns@) =~= Set::<Seq<char>>::empty());
                self.tables.push(fresh);
                proof {
                    assert(self.tables@.drop_last() =~= old_tables);
                    assert forall|m: Method| m != method implies method_pos(self.tables@, m) == method_pos(old_tables, m) by {}
                    assert forall|i: int| 0 <= i < self.tables@.len() implies method_pos(self.tables@, #[trigger] self.tables@[i].method) == i by {
                        if i < old_tables.len() {
                            assert(self.tables@[i] == old_tables[i]);
                        }
                    }
                }
                self.tables.len() - 1
            }
        };
        let ghost mid_tables = self.tables@;
        assert(mid_tables[idx as int].wf());
        assert(method_pos(mid_tables, method) == idx);
        let n = self.tables[idx].patterns.len();
        let mut j: usize = 0;
        while j < n
            invariant
                idx < self.tables@.len(),
                self.tables@ == mid_tables,
                mid_tables[idx as int].wf(),
                n == mid_tables[idx as int].patterns@.len(),
                valid_pattern(pattern@),
                !fresh_entry ==> mid_tables == old(self).tables@,
                old(self).wf(),
                fresh_entry ==> n == 0,
                method_pos(mid_tables, method) == idx,
                j <= n,
                forall|k: int| 0 <= k < j ==> !same_shape(#[trigger] mid_tables[idx as int].patterns@[k]@, pattern@),
            decreases n - j,
        {
            let ghost pj = self.tables@[idx as int].patterns@[j as int]@;
            assert(pattern_set(mid_tables[idx as int].patterns@).contains(pj));
            if check_same_shape(self.tables[idx].patterns[j].as_str(), pattern) {
                proof {
                    assert(router_routes(mid_tables[idx as int].router).contains_key(pj));
                    assert(old(self).patterns(method) == router_routes(mid_tables[idx as int].router).dom());
                    assert(old(self).patterns(method).contains(pj));
                    assert(!fresh_entry);
                    assert(self.tables@ == old(self).tables@);
                    assert forall|i: int| 0 <= i < self.tables@.len() implies (#[trigger] self.tables@[i]).wf() by {
                        assert(old(self).tables@[i].wf());
                    }
                    assert forall|i: int| 0 <= i < self.tables@.len() implies method_pos(self.tables@, #[trigger] self.tables@[i].method) == i by {
                        assert(method_pos(old(self).tables@, old(self).tables@[i].method) == i);
                    }
                }
                return Err(RouteError::Conflict);
            }
            j = j + 1;
        }
        proof {
            let routes = router_routes(mid_tables[idx as int].router);
            assert forall|q: Seq<char>| #[trigger] routes.contains_key(q) implies !same_shape(q, pattern@) by {
                assert(pattern_set(mid_tables[idx as int].patterns@).contains(q));
                let k = choose|k: int| 0 <= k < mid_tables[idx as int].patterns@.len() && #[trigger] mid_tables[idx as int].patterns@[k]@ == q;
                assert(!same_shape(mid_tables[idx as int].patterns@[k]@, pattern@));
            }
        }
        let mut t = self.tables.remove(idx);
        let hid = t.handlers.len();
        let ghost before_pats = t.patterns@;
        let inserted = router_insert(&mut t.router, pattern, hid);
        assert(inserted);
        t.handlers.push(handler);
        t.patterns.push(String::from_str(pattern));
        proof {
            assert(pattern_set(t.patterns@) =~= pattern_set(before_pats).insert(pattern@)) by {
                assert forall|p: Seq<char>| pattern_set(t.patterns@).contains(p) implies pattern_set(before_pats).insert(pattern@).contains(p) by {
                    let k = choose|k: int| 0 <= k < t.patterns@.len() && #[trigger] t.patterns@[k]@ == p;
                    if k < before_pats.len() {
                        assert(t.patterns@[k] == before_pats[k]);
                    }
                }
                assert forall|p: Seq<char>| pattern_set(before_pats).insert(pattern@).contains(p) implies pattern_set(t.patterns@).contains(p) by {
                    if p == pattern@ {
                        assert(t.patterns@[before_pats.len() as int]@ == p);
                    } else {
                        let k = choose|k: int| 0 <= k < before_pats.len() && #[trigger] before_pats[k]@ == p;
                        assert(t.patterns@[k] == before_pats[k]);
                    }
                }
            }
        }
        self.tables.insert(idx, t);
        proof {
            assert(self.tables@ =~= mid_tables.update(idx as int, t));
            lemma_method_pos_update(mid_tables, idx as int, t);
            assert forall|i: int| 0 <= i < self.tables@.len() implies (#[trigger] self.tables@[i]).wf() by {
                if i == idx {
                    assert forall|p: Seq<char>| #[trigger] router_routes(t.router).contains_key(p) implies router_routes(t.router)[p] < t.handlers@.len() by {
                        if p != pattern@ {
                            assert(router_routes(mid_tables[idx as int].router).contains_key(p));
                        }
                    }
                    assert(router_routes(t.router).dom() =~= router_routes(mid_tables[idx as int].router).dom().insert(pattern@));
                }
            }
            assert forall|m: Method| m != method implies #[trigger] self.entry_view(m) == old(self).entry_view(m) by {
                lemma_method_pos_range(old(self).tables@, m);
                lemma_method_pos_range(mid_tables, m);
                lemma_method_pos_range(mid_tables, method);
                if method_pos(mid_tables, m) >= 0 {
                    assert(method_pos(mid_tables, m) != idx);
                    if method_pos(old(self).tables@, m) >= 0 {
                        assert(mid_tables[method_pos(old(self).tables@, m)] == old(self).tables@[method_pos(old(self).tables@, m)]);
                    }
                }
            }
            assert(self.routes(method) =~= old(self).routes(method).insert(pattern@, handler));
            assert(self.patterns(method) =~= old(self).patterns(method).insert(pattern@));
        }
        Ok(())
    }

    /// Looks `path` up among the routes of `method`: 405 when the method
    /// has none; the path with one trailing `/` removed is what is matched;
    /// 404 when it has an empty segment or no route matches it. A match
    /// binds the parameters of a matching route; a path that is itself a
    /// route without parameters finds that route.
    pub fn lookup(&self, method: Method, path: &str) -> (r: RouteMatch<H>)
        requires
            self.wf(),
        ensures
            r@ == lookup_result(self.entry_view(method), path@),
            lookup_laws(*self, method, path@, r@),
    {
        match self.find(method) {
            None => RouteMatch::MethodNotAllowed,
            Some(i) => {
                proof {
                    lemma_method_pos_range(self.tables@, method);
                }
                let t = &self.tables[i];
                let p = normalize(path);
                if !check_path(p) {
                    return RouteMatch::NotFound;
                }
                match router_at(&t.router, p) {
                    None => RouteMatch::NotFound,
                    Some(m) => {
                        assert(t.wf());
                        let h = t.handlers[m.value];
                        proof {
                            if self.patterns(method).contains(p@) && is_literal(p@) {
                                assert(pairs_view(m.params@) =~= Seq::empty());
                            }
                        }
                        RouteMatch::Found(h, Context { vars: m.params })
                    }
                }
            }
        }
    }

    /// Position of the entry for `m`.
    fn find(&self, m: Method) -> (r: Option<usize>)
        ensures
            r is None ==> method_pos(self.tables@, m) == -1,
            r matches Some(i) ==> i == method_pos(self.tables@, m) && i < self.tables@.len(),
    {
        let mut i: usize = self.tables.len();
        assert(self.tables@.subrange(0, i as int) =~= self.tables@);
        while i > 0
            invariant
                i <= self.tables@.len(),
                method_pos(self.tables@, m) == method_pos(self.tables@.subrange(0, i as int), m),
            decreases i,
        {
            assert(self.tables@.subrange(0, i as int).drop_last() =~= self.tables@.subrange(0, i - 1));
            if self.tables[i - 1].method == m {
                return Some(i - 1);
            }
            i = i - 1;
        }
        None
    }
}

/// What every answer `r` of a lookup of `path` for method `m` satisfies:
/// 405 exactly when the method has no routes; a match is a registered
/// pattern that matches the path (with one trailing `/` removed), with its
/// handler and exactly the parameters it binds, and no other matching
/// pattern takes priority over it (a literal where it has a parameter, at
/// the first segment where the two differ in kind); some pattern matches a
/// path without empty segments exactly when there is a match, and such a
/// path is 404 otherwise, as is a path with an empty segment; a path that
/// is itself a pattern without parameters finds that pattern's handler
/// with no parameters.
pub open spec fn lookup_laws<H: Copy>(t: RouteTable<H>, m: Method, path: Seq<char>, r: RouteMatchView<H>) -> bool {
    let p = normalized(path);
    &&& (t.entry_view(m) is None <==> r is MethodNotAllowed)
    &&& (r matches RouteMatchView::Found(h, ctx) ==> exists|q: Seq<char>|
        #[trigger] t.patterns(m).contains(q) && pattern_matches(q, p) && h == t.routes(m)[q]
            && ctx == map_of(bindings(q, p)) && forall|o: Seq<char>|
            #[trigger] t.patterns(m).contains(o) && pattern_matches(o, p) ==> !literal_first(o, q))
    &&& (t.entry_view(m) is Some && valid_path(p) ==> (r is Found <==> exists|q: Seq<char>|
        #[trigger] t.patterns(m).contains(q) && pattern_matches(q, p)))
    &&& (t.entry_view(m) is Some && valid_path(p) ==> (r is Found || r is NotFound))
    &&& (t.entry_view(m) is Some && !valid_path(p) ==> r is NotFound)
    &&& (t.patterns(m).contains(p) && is_literal(p) ==> r == RouteMatchView::Found(t.routes(m)[p], Map::empty()))
}

/// Every pattern registered in a table is in the grammar of
/// `valid_pattern`.
pub proof fn lemma_registered_valid<H: Copy>(t: RouteTable<H>, m: Method, p: Seq<char>)
    requires
        t.wf(),
        t.patterns(m).contains(p),
    ensures
        valid_pattern(p),
{
    lemma_method_pos_range(t.tables@, m);
    let e = t.tables@[method_pos(t.tables@, m)];
    assert(e.wf());
    assert(router_routes(e.router).contains_key(p));
}

/// A request whose path is a registered pattern without parameters reaches
/// that pattern's handler, with no parameters, whatever else is registered.
pub proof fn lemma_literal_route_found<H: Copy>(t: RouteTable<H>, m: Method, p: Seq<char>, answer: RouteMatchView<H>)
    requires
        t.wf(),
        t.patterns(m).contains(p),
        is_literal(p),
        lookup_laws(t, m, p, answer),
    ensures
        answer == RouteMatchView::Found(t.routes(m)[p], Map::<Seq<char>, Seq<char>>::empty()),
{
    lemma_registered_valid(t, m, p);
    assert(normalized(p) == p);
}

/// A path with one more trailing `/` is routed exactly as the path itself
/// (when that path does not already end in `/`).
pub proof fn lemma_trailing_slash_same_route<H: Copy>(table: RouteTable<H>, m: Method, path: Seq<char>)
    requires
        path.len() >= 1,
        path.last() != '/',
    ensures
        table.lookup_view(m, path.push('/')) == table.lookup_view(m, path),
{
    assert(path.push('/').drop_last() =~= path);
}

/// Once a pattern is registered for a method, registering it again, or any
/// pattern of the same shape, is refused as a conflict.
pub proof fn lemma_same_shape_refused(registered: Set<Seq<char>>, p: Seq<char>, q: Seq<char>)
    requires
        valid_pattern(q),
        p == q || same_shape(p, q),
    ensures
        register_result(registered.insert(p), q) == Err::<(), RouteError>(RouteError::Conflict),
{
    assert(registered.insert(p).contains(p));
    assert(same_shape(p, q));
}

proof fn lemma_method_pos_range<H>(ts: Seq<MethodRoutes<H>>, m: Method)
    ensures
        -1 <= method_pos(ts, m) < ts.len(),
        method_pos(ts, m) >= 0 ==> ts[method_pos(ts, m)].method == m,
    decreases ts.len(),
{
    if ts.len() > 0 {
        lemma_method_pos_range(ts.drop_last(), m);
    }
}

proof fn lemma_method_pos_absent<H>(ts: Seq<MethodRoutes<H>>, m: Method)
    requires
        method_pos(ts, m) == -1,
    ensures
        forall|i: int| 0 <= i < ts.len() ==> (#[trigger] ts[i]).method != m,
    decreases ts.len(),
{
    if ts.len() > 0 {
        lemma_method_pos_absent(ts.drop_last(), m);
        assert forall|i: int| 0 <= i < ts.len() implies (#[trigger] ts[i]).method != m by {
            if i < ts.len() - 1 {
                assert(ts[i] == ts.drop_last()[i]);
            }
        }
    }
}

/// Replacing an entry by one of the same method moves no method.
proof fn lemma_method_pos_update<H>(ts: Seq<MethodRoutes<H>>, k: int, x: MethodRoutes<H>)
    requires
        0 <= k < ts.len(),
        x.method == ts[k].method,
    ensures
        forall|m: Method| #[trigger] method_pos(ts.update(k, x), m) == method_pos(ts, m),
    decreases ts.len(),
{
    let us = ts.update(k, x);
    assert(us.len() == ts.len());
    if k < ts.len() - 1 {
        lemma_method_pos_update(ts.drop_last(), k, x);
        assert(us.drop_last() =~= ts.drop_last().update(k, x));
        assert(us.last() == ts.last());
    } else {
        assert(us.drop_last() =~= ts.drop_last());
        assert(us.last() == x);
    }
    assert(us.last().method == ts.last().method);
    assert forall|m: Method| #[trigger] method_pos(us, m) == method_pos(ts, m) by {
        assert(method_pos(us.drop_last(), m) == method_pos(ts.drop_last(), m));
    }
}

} // verus!
