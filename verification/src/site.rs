//! The state of the whole site and the way from a request to its reply.

use vstd::prelude::*;
use crate::filter::Filter;
use crate::handlers::{
    about_clicked, added, clicked, deleted, filtered, hx_add, hx_delete, hx_filter, hx_toggle,
    hx_toggleall, summary, summary_of, toggled, toggled_all,
};
use crate::reply::{Reply, ReplyView};
use crate::request::{path_of, Request, RequestView};
use crate::router::{
    about_routes, build_router, first_refused, lookup, todos_routes, Handler, Match, MatchFailure,
    Params, RouteBuildError, RouteTable,
};
use crate::store::{listing, ItemView, StoreView, TodoStore};
use crate::text::{strip_leading, without_leading};

verus! {

/// The state of the site as contracts see it.
pub struct AppView {
    /// How often the button of the about page was clicked.
    pub clicks: u64,
    /// The list.
    pub todos: StoreView,
    /// The registered routes, or why they could not be registered.
    pub routes: Result<Seq<(Seq<char>, Handler)>, Seq<char>>,
}

/// The state of the site: the click counter, the list and the routes. It is
/// handed to every handler call; nothing else holds state.
pub struct AppState {
    clicks: u64,
    todos: TodoStore,
    router: Result<RouteTable, RouteBuildError>,
}

impl View for AppState {
    type V = AppView;

    closed spec fn view(&self) -> AppView {
        AppView {
            clicks: self.clicks,
            todos: self.todos@,
            routes: match self.router {
                Ok(table) => Ok(table@),
                Err(error) => Err(error.reason@),
            },
        }
    }
}

/// The prefix under which the site is mounted. Where a path starts with it,
/// it is taken off, once, before the path is matched.
pub fn mount_prefix() -> (prefix: &'static str)
    ensures
        prefix@ == mount(),
{
    "/wasm-service"
}

/// The prefix under which the site is mounted.
pub open spec fn mount() -> Seq<char> {
    "/wasm-service"@
}

/// What a handler does to the state and answers, given the parameters that
/// the path gave and the request.
pub open spec fn dispatched(
    app: AppView,
    handler: Handler,
    params: Seq<(Seq<char>, Seq<char>)>,
    request: RequestView,
) -> (AppView, ReplyView) {
    let url = path_of(request.url)->Some_0;
    let page = listing(app.todos.items, app.todos.filter);
    let on_list = |change: (StoreView, ReplyView)|
        (AppView { clicks: app.clicks, todos: change.0, routes: app.routes }, change.1);
    match handler {
        Handler::AboutPage => (app, ReplyView::AboutPage { url, clicks: app.clicks }),
        Handler::AboutNav => (app, ReplyView::AboutNav { url, clicks: app.clicks }),
        Handler::AboutClicked => (
            AppView { clicks: clicked(app.clicks, url).0, todos: app.todos, routes: app.routes },
            clicked(app.clicks, url).1,
        ),
        Handler::TodosPage => (
            app,
            ReplyView::TodosPage {
                items: page,
                filter: app.todos.filter,
                summary: summary_of(app.todos.items),
            },
        ),
        Handler::TodosNav => (
            app,
            ReplyView::TodosNav {
                items: page,
                filter: app.todos.filter,
                summary: summary_of(app.todos.items),
            },
        ),
        Handler::TodoAdd => on_list(added(app.todos, request.body)),
        Handler::TodoDelete => on_list(deleted(app.todos, params)),
        Handler::TodoToggle => on_list(toggled(app.todos, params)),
        Handler::TodoToggleAll => on_list(toggled_all(app.todos)),
        Handler::TodoFilter => on_list(filtered(app.todos, params)),
    }
}

/// What the answer of the routes to a path leads to: the handler's work where
/// one was selected, else the reply that says why none was.
pub open spec fn routed(
    app: AppView,
    found: Result<(Handler, Seq<(Seq<char>, Seq<char>)>), MatchFailure>,
    request: RequestView,
) -> (AppView, ReplyView) {
    match found {
        Ok((handler, params)) => dispatched(app, handler, params, request),
        Err(MatchFailure::NotFound) => (app, ReplyView::NotFound),
        Err(failure) => (app, ReplyView::MatchFailed { failure }),
    }
}

/// What a request does to the state and is answered with.
pub open spec fn handled(app: AppView, request: RequestView) -> (AppView, ReplyView) {
    match app.routes {
        Err(reason) => (app, ReplyView::RouterUnavailable { reason }),
        Ok(routes) => routed(
            app,
            lookup(routes, without_leading(path_of(request.url)->Some_0, mount())),
            request,
        ),
    }
}

impl AppState {
    /// The state at the start: no click, an empty list under the filter
    /// `All`, and the routes of the site, or the reason why the first of them
    /// that was refused could not be registered.
    pub fn new() -> (app: AppState)
        ensures
            app@.clicks == 0,
            app@.todos.items == Seq::<ItemView>::empty(),
            app@.todos.last_id == 0,
            app@.todos.filter == Filter::All,
            first_refused(Seq::empty(), about_routes() + todos_routes()) is None ==> app@.routes
                == Ok::<Seq<(Seq<char>, Handler)>, Seq<char>>(about_routes() + todos_routes()),
            first_refused(Seq::empty(), about_routes() + todos_routes()) is Some
                ==> app@.routes is Err,
    {
        AppState::with_router(build_router())
    }

    /// The state at the start with routes of the caller's choice, or with the
    /// failure to register them.
    pub fn with_router(router: Result<RouteTable, RouteBuildError>) -> (app: AppState)
        ensures
            app@.clicks == 0,
            app@.todos.items == Seq::<ItemView>::empty(),
            app@.todos.last_id == 0,
            app@.todos.filter == Filter::All,
            app@.routes == match router {
                Ok(table) => Ok::<Seq<(Seq<char>, Handler)>, Seq<char>>(table@),
                Err(error) => Err::<Seq<(Seq<char>, Handler)>, Seq<char>>(error.reason@),
            },
    {
        AppState { clicks: 0, todos: TodoStore::new(), router }
    }

    /// How often the button of the about page was clicked.
    pub fn clicks(&self) -> (clicks: u64)
        ensures
            clicks == self@.clicks,
    {
        self.clicks
    }

    /// The list.
    pub fn todos(&self) -> (todos: &TodoStore)
        ensures
            todos@ == self@.todos,
    {
        &self.todos
    }
}

/// Runs a handler on the state. The click counter must have room for the
/// click that the handler of clicks adds.
pub fn dispatch(app: &mut AppState, handler: Handler, params: &Params, request: &Request) -> (reply:
    Reply)
    requires
        handler == Handler::AboutClicked ==> old(app)@.clicks < u64::MAX,
    ensures
        (final(app)@, reply@) == dispatched(old(app)@, handler, params@, request@),
{
    match handler {
        Handler::AboutPage => Reply::AboutPage {
            url: request.path().to_owned(),
            clicks: app.clicks,
        },
        Handler::AboutNav => Reply::AboutNav { url: request.path().to_owned(), clicks: app.clicks },
        Handler::AboutClicked => about_clicked(&mut app.clicks, request.path()),
        Handler::TodosPage => Reply::TodosPage {
            items: app.todos.list(app.todos.filter()),
            filter: app.todos.filter(),
            summary: summary(&app.todos),
        },
        Handler::TodosNav => Reply::TodosNav {
            items: app.todos.list(app.todos.filter()),
            filter: app.todos.filter(),
            summary: summary(&app.todos),
        },
        Handler::TodoAdd => hx_add(&mut app.todos, request),
        Handler::TodoDelete => hx_delete(&mut app.todos, params),
        Handler::TodoToggle => hx_toggle(&mut app.todos, params),
        Handler::TodoToggleAll => hx_toggleall(&mut app.todos),
        Handler::TodoFilter => hx_filter(&mut app.todos, params),
    }
}

/// Acts on what the routes answered for the path of a request.
pub fn respond(app: &mut AppState, found: Result<Match, MatchFailure>, request: &Request) -> (reply:
    Reply)
    requires
        found matches Ok(m) && m.handler == Handler::AboutClicked ==> old(app)@.clicks
            < u64::MAX,
    ensures
        (final(app)@, reply@) == routed(
            old(app)@,
            match found {
                Ok(m) => Ok((m.handler, m.params@)),
                Err(failure) => Err(failure),
            },
            request@,
        ),
{
    match found {
        Ok(m) => dispatch(app, m.handler, &m.params, request),
        Err(MatchFailure::NotFound) => Reply::NotFound,
        Err(failure) => Reply::MatchFailed { failure },
    }
}

/// Answers a request: takes the mount prefix off its path, once, asks the
/// routes for the handler and runs it. Where the routes could not be registered,
/// every request is answered with the reason.
pub fn handle_request(app: &mut AppState, request: &Request) -> (reply: Reply)
    requires
        old(app)@.clicks < u64::MAX,
    ensures
        (final(app)@, reply@) == handled(old(app)@, request@),
{
    let found = match &app.router {
        Err(error) => {
            return Reply::RouterUnavailable { reason: error.reason.clone() };
        },
        Ok(table) => table.at(strip_leading(request.path(), mount_prefix())),
    };
    respond(app, found, request)
}

} // verus!
