//! Path patterns and the handlers they select, kept in a `matchit` tree.

use vstd::prelude::*;
use vstd::utf8::is_ascii_chars;
use crate::text::{occurrences, occurs_at_most, str_eq};

verus! {

/// The handlers that a route can select.
#[derive(Clone, Copy, Debug, PartialEq, Eq, Structural)]
pub enum Handler {
    AboutPage,
    AboutNav,
    AboutClicked,
    TodosPage,
    TodosNav,
    TodoAdd,
    TodoDelete,
    TodoToggle,
    TodoToggleAll,
    TodoFilter,
}

/// Why a path selected no handler.
#[derive(Clone, Copy, Debug, PartialEq, Eq, Structural)]
pub enum MatchFailure {
    /// No route matches the path.
    NotFound,
    /// A route matches the path with a slash added at its end.
    MissingTrailingSlash,
    /// A route matches the path without the slash at its end.
    ExtraTrailingSlash,
}

/// A pattern that could not be registered.
#[derive(Debug)]
pub struct RouteBuildError {
    /// The pattern that was refused.
    pub pattern: String,
    /// Why it was refused, in words.
    pub reason: String,
}

/// The number under which a handler is kept in the tree.
pub open spec fn handler_code(handler: Handler) -> u8 {
    match handler {
        Handler::AboutPage => 0,
        Handler::AboutNav => 1,
        Handler::AboutClicked => 2,
        Handler::TodosPage => 3,
        Handler::TodosNav => 4,
        Handler::TodoAdd => 5,
        Handler::TodoDelete => 6,
        Handler::TodoToggle => 7,
        Handler::TodoToggleAll => 8,
        Handler::TodoFilter => 9,
    }
}

/// The handler that a number stands for; numbers above 9 stand for the last.
pub open spec fn handler_of_code(code: u8) -> Handler {
    if code == 0 {
        Handler::AboutPage
    } else if code == 1 {
        Handler::AboutNav
    } else if code == 2 {
        Handler::AboutClicked
    } else if code == 3 {
        Handler::TodosPage
    } else if code == 4 {
        Handler::TodosNav
    } else if code == 5 {
        Handler::TodoAdd
    } else if code == 6 {
        Handler::TodoDelete
    } else if code == 7 {
        Handler::TodoToggle
    } else if code == 8 {
        Handler::TodoToggleAll
    } else {
        Handler::TodoFilter
    }
}

impl Handler {
    /// The number under which this handler is kept in the tree.
    pub fn code(self) -> (code: u8)
        ensures
            code == handler_code(self),
            code <= 9,
            handler_of_code(code) == self,
    {
        match self {
            Handler::AboutPage => 0,
            Handler::AboutNav => 1,
            Handler::AboutClicked => 2,
            Handler::TodosPage => 3,
            Handler::TodosNav => 4,
            Handler::TodoAdd => 5,
            Handler::TodoDelete => 6,
            Handler::TodoToggle => 7,
            Handler::TodoToggleAll => 8,
            Handler::TodoFilter => 9,
        }
    }

    /// The handler that a number stands for.
    pub fn from_code(code: u8) -> (handler: Handler)
        ensures
            handler == handler_of_code(code),
            code <= 9 ==> handler_code(handler) == code,
    {
        if code == 0 {
            Handler::AboutPage
        } else if code == 1 {
            Handler::AboutNav
        } else if code == 2 {
            Handler::AboutClicked
        } else if code == 3 {
            Handler::TodosPage
        } else if code == 4 {
            Handler::TodosNav
        } else if code == 5 {
            Handler::TodoAdd
        } else if code == 6 {
            Handler::TodoDelete
        } else if code == 7 {
            Handler::TodoToggle
        } else if code == 8 {
            Handler::TodoToggleAll
        } else {
            Handler::TodoFilter
        }
    }
}

/// `matchit::Router`, the tree that holds the routes.
#[verifier::external_type_specification]
#[verifier::external_body]
#[verifier::reject_recursive_types(T)]
pub struct ExTree<T>(matchit::Router<T>);

/// `matchit::InsertError`, what the tree answers to a pattern it refuses.
#[verifier::external_type_specification]
#[verifier::external_body]
pub struct ExInsertError(matchit::InsertError);

/// The routes that a tree holds, each a pattern with the number stored under
/// it, in the order in which they went in.
pub uninterp spec fn tree_routes(tree: matchit::Router<u8>) -> Seq<(Seq<char>, u8)>;

/// Whether a tree that holds the given routes takes one more pattern.
pub uninterp spec fn tree_accepts(routes: Seq<(Seq<char>, u8)>, pattern: Seq<char>) -> bool;

/// What a tree that holds the given routes answers for a path: the number
/// stored under the route that matches, with the parameters it captured as
/// pairs of name and value in the order of the pattern, or why none matches.
pub uninterp spec fn tree_lookup(routes: Seq<(Seq<char>, u8)>, path: Seq<char>) -> Result<
    (u8, Seq<(Seq<char>, Seq<char>)>),
    MatchFailure,
>;

/// The most parameters that the tree can name in one pattern.
pub const MAX_PARAMS: usize = 25;

/// Pairs of strings as contracts see them.
pub open spec fn pair_views(pairs: Seq<(String, String)>) -> Seq<(Seq<char>, Seq<char>)> {
    pairs.map_values(|pair: (String, String)| (pair.0@, pair.1@))
}

/// `matchit::Router::new`: a tree that holds no route.
#[verifier::external_body]
fn tree_new() -> (tree: matchit::Router<u8>)
    ensures
        tree_routes(tree) == Seq::<(Seq<char>, u8)>::empty(),
{
    matchit::Router::new()
}

/// Whether every pattern among the routes is ASCII.
pub open spec fn plain_patterns(routes: Seq<(Seq<char>, u8)>) -> bool {
    forall|i: int| 0 <= i < routes.len() ==> is_ascii_chars(#[trigger] routes[i].0)
}

/// `matchit::Router::insert`. Whether the tree takes the pattern depends on
/// the routes it holds and on the pattern alone; where it does, the route is
/// added behind the others. A refusal gives the tree up. Two kinds of pattern
/// are kept away, because the call can panic on them: those with more than 25
/// colons (it panics past 25 parameters), and those that are not ASCII (the
/// tree cuts patterns between bytes, and a refusal that quotes half a
/// character panics). The empty pattern is kept away too: a tree that holds
/// nothing else takes itself for empty, and the next route replaces it.
#[verifier::external_body]
fn tree_insert(tree: matchit::Router<u8>, pattern: &str, code: u8) -> (grown: Result<
    matchit::Router<u8>,
    matchit::InsertError,
>)
    requires
        pattern@.len() > 0,
        occurrences(pattern@, ':') <= MAX_PARAMS,
        is_ascii_chars(pattern@),
        plain_patterns(tree_routes(tree)),
    ensures
        grown is Ok <==> tree_accepts(tree_routes(tree), pattern@),
        grown matches Ok(t) ==> tree_routes(t) == tree_routes(tree).push((pattern@, code)),
{
    let mut tree = tree;
    tree.insert(pattern, code)?;
    Ok(tree)
}

/// `Display` of `matchit::InsertError`: the refusal in words.
#[verifier::external_body]
fn insert_error_text(error: &matchit::InsertError) -> (text: String) {
    error.to_string()
}

/// `matchit::Router::at`, on a tree of ASCII patterns. The answer depends on
/// the routes held and on the path alone, and a number that comes back is one
/// that was stored.
#[verifier::external_body]
fn tree_at(tree: &matchit::Router<u8>, path: &str) -> (found: Result<
    (u8, Vec<(String, String)>),
    MatchFailure,
>)
    requires
        plain_patterns(tree_routes(*tree)),
    ensures
        match found {
            Ok((code, params)) => tree_lookup(tree_routes(*tree), path@) == Ok::<
                (u8, Seq<(Seq<char>, Seq<char>)>),
                MatchFailure,
            >((code, pair_views(params@))),
            Err(failure) => tree_lookup(tree_routes(*tree), path@) == Err::<
                (u8, Seq<(Seq<char>, Seq<char>)>),
                MatchFailure,
            >(failure),
        },
        found matches Ok((code, _)) ==> exists|i: int|
            0 <= i < tree_routes(*tree).len() && (#[trigger] tree_routes(*tree)[i]).1 == code,
{
    match tree.at(path) {
        Ok(m) => Ok(
            (*m.value, m.params.iter().map(|(k, v)| (k.to_string(), v.to_string())).collect()),
        ),
        Err(matchit::MatchError::NotFound) => Err(MatchFailure::NotFound),
        Err(matchit::MatchError::MissingTrailingSlash) => Err(MatchFailure::MissingTrailingSlash),
        Err(matchit::MatchError::ExtraTrailingSlash) => Err(MatchFailure::ExtraTrailingSlash),
    }
}

/// The parameters that a match captured, as pairs of name and value in the
/// order of the pattern.
#[derive(Debug)]
pub struct Params {
    pairs: Vec<(String, String)>,
}

impl View for Params {
    type V = Seq<(Seq<char>, Seq<char>)>;

    closed spec fn view(&self) -> Seq<(Seq<char>, Seq<char>)> {
        pair_views(self.pairs@)
    }
}

/// The value of the first pair with the given name.
pub open spec fn first_value(pairs: Seq<(Seq<char>, Seq<char>)>, name: Seq<char>) -> Option<
    Seq<char>,
>
    decreases pairs.len(),
{
    if pairs.len() == 0 {
        None
    } else if pairs[0].0 == name {
        Some(pairs[0].1)
    } else {
        first_value(pairs.drop_first(), name)
    }
}

impl Params {
    /// Parameters from pairs of name and value.
    pub fn from_pairs(pairs: Vec<(String, String)>) -> (params: Params)
        ensures
            params@ == pair_views(pairs@),
    {
        Params { pairs }
    }

    /// The pairs of name and value.
    pub fn pairs(&self) -> (pairs: &Vec<(String, String)>)
        ensures
            pair_views(pairs@) == self@,
    {
        &self.pairs
    }

    /// A copy of the pairs of name and value.
    pub fn to_pairs(&self) -> (pairs: Vec<(String, String)>)
        ensures
            pair_views(pairs@) == self@,
    {
        let mut pairs: Vec<(String, String)> = Vec::new();
        let mut i: usize = 0;
        while i < self.pairs.len()
            invariant
                i <= self.pairs.len(),
                pair_views(pairs@) == self@.take(i as int),
            decreases self.pairs.len() - i,
        {
            let ghost before = pair_views(pairs@);
            let name = self.pairs[i].0.clone();
            let value = self.pairs[i].1.clone();
            pairs.push((name, value));
            proof {
                assert(pair_views(pairs@) =~= before.push((name@, value@)));
                assert(before.push((name@, value@)) =~= self@.take(i + 1));
            }
            i = i + 1;
        }
        proof {
            assert(self@.take(i as int) =~= self@);
        }
        pairs
    }

    /// The number of parameters.
    pub fn len(&self) -> (len: usize)
        ensures
            len == self@.len(),
    {
        self.pairs.len()
    }

    /// The value of the first parameter with the given name.
    pub fn get(&self, name: &str) -> (value: Option<&str>)
        ensures
            match value {
                Some(v) => first_value(self@, name@) == Some(v@),
                None => first_value(self@, name@) is None,
            },
    {
        let mut i: usize = 0;
        proof {
            assert(self@.skip(0) =~= self@);
        }
        while i < self.pairs.len()
            invariant
                i <= self.pairs.len(),
                first_value(self@, name@) == first_value(self@.skip(i as int), name@),
            decreases self.pairs.len() - i,
        {
            proof {
                assert(self@.skip(i as int).drop_first() =~= self@.skip(i + 1));
                assert(self@.skip(i as int)[0] == (
                    self.pairs@[i as int].0@,
                    self.pairs@[i as int].1@,
                ));
            }
            if str_eq(self.pairs[i].0.as_str(), name) {
                return Some(self.pairs[i].1.as_str());
            }
            i = i + 1;
        }
        None
    }
}

/// A route that matched: the handler it selects and what it captured.
#[derive(Debug)]
pub struct Match {
    pub handler: Handler,
    pub params: Params,
}

/// The routes with the handlers' numbers in place of the handlers.
pub open spec fn route_codes(routes: Seq<(Seq<char>, Handler)>) -> Seq<(Seq<char>, u8)> {
    routes.map_values(|route: (Seq<char>, Handler)| (route.0, handler_code(route.1)))
}

/// Whether a table that holds `routes` takes one more pattern. A pattern
/// that is empty, is not ASCII or has more than [`MAX_PARAMS`] colons is never
/// taken; of any other the tree decides.
pub open spec fn accepts(routes: Seq<(Seq<char>, Handler)>, pattern: Seq<char>) -> bool {
    &&& pattern.len() > 0
    &&& is_ascii_chars(pattern)
    &&& occurrences(pattern, ':') <= MAX_PARAMS
    &&& tree_accepts(route_codes(routes), pattern)
}

/// What a table that holds `routes` answers for a path.
pub open spec fn lookup(routes: Seq<(Seq<char>, Handler)>, path: Seq<char>) -> Result<
    (Handler, Seq<(Seq<char>, Seq<char>)>),
    MatchFailure,
> {
    match tree_lookup(route_codes(routes), path) {
        Ok((code, params)) => Ok((handler_of_code(code), params)),
        Err(failure) => Err(failure),
    }
}

/// Registered patterns with the handlers they select.
pub struct RouteTable {
    tree: matchit::Router<u8>,
}

impl View for RouteTable {
    type V = Seq<(Seq<char>, Handler)>;

    closed spec fn view(&self) -> Seq<(Seq<char>, Handler)> {
        tree_routes(self.tree).map_values(
            |route: (Seq<char>, u8)| (route.0, handler_of_code(route.1)),
        )
    }
}

impl RouteTable {
    /// Every number in the tree stands for a handler, and every pattern is
    /// ASCII.
    #[verifier::type_invariant]
    closed spec fn well_formed(self) -> bool {
        &&& forall|i: int|
            0 <= i < tree_routes(self.tree).len() ==> (#[trigger] tree_routes(self.tree)[i]).1 <= 9
        &&& plain_patterns(tree_routes(self.tree))
    }

    /// A table without routes.
    pub fn new() -> (table: RouteTable)
        ensures
            table@ == Seq::<(Seq<char>, Handler)>::empty(),
    {
        let table = RouteTable { tree: tree_new() };
        assert(table@ =~= Seq::<(Seq<char>, Handler)>::empty());
        table
    }

    /// Registers a pattern. The table that comes back holds it behind the
    /// routes it had; a refusal names the pattern and gives the table up.
    pub fn insert(self, pattern: &str, handler: Handler) -> (grown: Result<
        RouteTable,
        RouteBuildError,
    >)
        ensures
            grown is Ok <==> accepts(self@, pattern@),
            grown matches Ok(table) ==> table@ == self@.push((pattern@, handler)),
            grown matches Err(error) ==> error.pattern@ == pattern@,
    {
        proof {
            use_type_invariant(&self);
            assert(route_codes(self@) =~= tree_routes(self.tree));
        }
        if pattern.is_empty() {
            return Err(
                RouteBuildError {
                    pattern: pattern.to_owned(),
                    reason: "pattern is empty".to_owned(),
                },
            );
        }
        if !pattern.is_ascii() {
            return Err(
                RouteBuildError {
                    pattern: pattern.to_owned(),
                    reason: "pattern is not ASCII".to_owned(),
                },
            );
        }
        if !occurs_at_most(pattern, ':', MAX_PARAMS) {
            return Err(
                RouteBuildError {
                    pattern: pattern.to_owned(),
                    reason: "too many route parameters".to_owned(),
                },
            );
        }
        match tree_insert(self.tree, pattern, handler.code()) {
            Ok(tree) => {
                let table = RouteTable { tree };
                assert(table@ =~= self@.push((pattern@, handler)));
                Ok(table)
            },
            Err(error) => Err(
                RouteBuildError { pattern: pattern.to_owned(), reason: insert_error_text(&error) },
            ),
        }
    }

    /// The handler that a path selects, with the parameters it captured.
    pub fn at(&self, path: &str) -> (found: Result<Match, MatchFailure>)
        ensures
            match found {
                Ok(m) => lookup(self@, path@) == Ok::<
                    (Handler, Seq<(Seq<char>, Seq<char>)>),
                    MatchFailure,
                >((m.handler, m.params@)),
                Err(failure) => lookup(self@, path@) == Err::<
                    (Handler, Seq<(Seq<char>, Seq<char>)>),
                    MatchFailure,
                >(failure),
            },
            found matches Ok(m) ==> exists|i: int|
                0 <= i < self@.len() && (#[trigger] self@[i]).1 == m.handler,
    {
        proof {
            use_type_invariant(self);
            assert(route_codes(self@) =~= tree_routes(self.tree));
        }
        match tree_at(&self.tree, path) {
            Ok((code, pairs)) => {
                proof {
                    let i = choose|i: int|
                        0 <= i < tree_routes(self.tree).len() && (#[trigger] tree_routes(
                            self.tree,
                        )[i]).1 == code;
                    assert(self@[i].1 == handler_of_code(code));
                }
                Ok(Match { handler: Handler::from_code(code), params: Params::from_pairs(pairs) })
            },
            Err(failure) => Err(failure),
        }
    }
}

/// Patterns with their handlers as contracts see them.
pub open spec fn route_views(routes: Seq<(&'static str, Handler)>) -> Seq<(Seq<char>, Handler)> {
    routes.map_values(|route: (&'static str, Handler)| (route.0@, route.1))
}

/// The first of `more` that a table refuses when they are registered in
/// order behind `routes`; `None` where it takes them all.
pub open spec fn first_refused(
    routes: Seq<(Seq<char>, Handler)>,
    more: Seq<(Seq<char>, Handler)>,
) -> Option<Seq<char>>
    decreases more.len(),
{
    if more.len() == 0 {
        None
    } else if !accepts(routes, more[0].0) {
        Some(more[0].0)
    } else {
        first_refused(routes.push(more[0]), more.drop_first())
    }
}

/// Registering two runs of routes one after the other refuses what
/// registering them as one run refuses.
pub proof fn lemma_first_refused_appends(
    routes: Seq<(Seq<char>, Handler)>,
    first: Seq<(Seq<char>, Handler)>,
    second: Seq<(Seq<char>, Handler)>,
)
    ensures
        first_refused(routes, first + second) == match first_refused(routes, first) {
            Some(pattern) => Some(pattern),
            None => first_refused(routes + first, second),
        },
    decreases first.len(),
{
    if first.len() == 0 {
        assert(first + second =~= second);
        assert(routes + first =~= routes);
    } else {
        assert((first + second).drop_first() =~= first.drop_first() + second);
        assert((first + second)[0] == first[0]);
        if accepts(routes, first[0].0) {
            lemma_first_refused_appends(routes.push(first[0]), first.drop_first(), second);
            assert(routes.push(first[0]) + first.drop_first() =~= routes + first);
        }
    }
}

/// The routes of the about page.
pub open spec fn about_routes() -> Seq<(Seq<char>, Handler)> {
    seq![
        ("/"@, Handler::AboutPage),
        ("/;nav"@, Handler::AboutNav),
        ("/;clicked"@, Handler::AboutClicked),
    ]
}

/// The routes of the list.
pub open spec fn todos_routes() -> Seq<(Seq<char>, Handler)> {
    seq![
        ("/todos"@, Handler::TodosPage),
        ("/todos;nav"@, Handler::TodosNav),
        ("/todos;add"@, Handler::TodoAdd),
        ("/todos/:id"@, Handler::TodoDelete),
        ("/todos/:id/toggle"@, Handler::TodoToggle),
        ("/todos;toggleall"@, Handler::TodoToggleAll),
        ("/todos;filter=:filter"@, Handler::TodoFilter),
    ]
}

impl RouteTable {
    /// Registers routes in order. The table that comes back holds them all
    /// behind the routes it had; the first refusal ends the registration.
    pub fn insert_all(self, routes: Vec<(&'static str, Handler)>) -> (grown: Result<
        RouteTable,
        RouteBuildError,
    >)
        ensures
            match first_refused(self@, route_views(routes@)) {
                None => grown matches Ok(table) && table@ == self@ + route_views(routes@),
                Some(pattern) => grown matches Err(error) && error.pattern@ == pattern,
            },
    {
        let ghost all = route_views(routes@);
        let mut table = self;
        let mut i: usize = 0;
        proof {
            assert(all.skip(0) =~= all);
            assert(self@ + all.take(0) =~= self@);
        }
        while i < routes.len()
            invariant
                i <= routes.len(),
                all == route_views(routes@),
                table@ == self@ + all.take(i as int),
                first_refused(self@, all) == first_refused(table@, all.skip(i as int)),
            decreases routes.len() - i,
        {
            let ghost held = table@;
            proof {
                assert(all.skip(i as int)[0] == (routes@[i as int].0@, routes@[i as int].1));
                assert(all.skip(i as int).drop_first() =~= all.skip(i + 1));
                assert(held.push(all[i as int]) =~= self@ + all.take(i + 1));
            }
            match table.insert(routes[i].0, routes[i].1) {
                Ok(grown) => {
                    table = grown;
                },
                Err(error) => {
                    return Err(error);
                },
            }
            i = i + 1;
        }
        proof {
            assert(all.take(i as int) =~= all);
        }
        Ok(table)
    }
}

/// Registers the routes of the about page.
pub fn register_about(table: RouteTable) -> (grown: Result<RouteTable, RouteBuildError>)
    ensures
        match first_refused(table@, about_routes()) {
            None => grown matches Ok(t) && t@ == table@ + about_routes(),
            Some(pattern) => grown matches Err(error) && error.pattern@ == pattern,
        },
{
    let routes = vec![
        ("/", Handler::AboutPage),
        ("/;nav", Handler::AboutNav),
        ("/;clicked", Handler::AboutClicked),
    ];
    assert(route_views(routes@) =~= about_routes());
    table.insert_all(routes)
}

/// Registers the routes of the list.
pub fn register_todos(table: RouteTable) -> (grown: Result<RouteTable, RouteBuildError>)
    ensures
        match first_refused(table@, todos_routes()) {
            None => grown matches Ok(t) && t@ == table@ + todos_routes(),
            Some(pattern) => grown matches Err(error) && error.pattern@ == pattern,
        },
{
    let routes = vec![
        ("/todos", Handler::TodosPage),
        ("/todos;nav", Handler::TodosNav),
        ("/todos;add", Handler::TodoAdd),
        ("/todos/:id", Handler::TodoDelete),
        ("/todos/:id/toggle", Handler::TodoToggle),
        ("/todos;toggleall", Handler::TodoToggleAll),
        ("/todos;filter=:filter", Handler::TodoFilter),
    ];
    assert(route_views(routes@) =~= todos_routes());
    table.insert_all(routes)
}

/// The table of the whole site: the routes of the about page, then those of
/// the list.
pub fn build_router() -> (built: Result<RouteTable, RouteBuildError>)
    ensures
        match first_refused(Seq::empty(), about_routes() + todos_routes()) {
            None => built matches Ok(table) && table@ == about_routes() + todos_routes(),
            Some(pattern) => built matches Err(error) && error.pattern@ == pattern,
        },
{
    proof {
        lemma_first_refused_appends(Seq::empty(), about_routes(), todos_routes());
        assert(Seq::<(Seq<char>, Handler)>::empty() + about_routes() =~= about_routes());
    }
    match register_about(RouteTable::new()) {
        Ok(table) => register_todos(table),
        Err(error) => Err(error),
    }
}

} // verus!
