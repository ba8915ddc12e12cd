//! The routing table: which inbound path goes to the request relay, which
//! to the WebSocket bridge and which is served from a local directory.
//!
//! A table is data. Two tables exist, one per path layout; a flag takes the
//! local directories out of either.

use crate::cfg::Cfg;
use crate::text::chars_of;
use vstd::prelude::*;

verus! {

/// The method of a request, as far as routing tells methods apart.
#[derive(Debug, Clone, Copy, PartialEq, Eq, Structural)]
pub enum Method {
    Get,
    Head,
    Post,
    Other,
}

/// The methods that a literal route answers.
#[derive(Debug, Clone, Copy, PartialEq, Eq, Structural)]
pub enum Methods {
    /// `GET`, and `HEAD` with it.
    Get,
    /// `GET`, `HEAD` and `POST`.
    GetOrPost,
}

/// The two handlers that a literal route can name.
#[derive(Debug, Clone, Copy, PartialEq, Eq, Structural)]
pub enum Endpoint {
    /// The request relay.
    Relay,
    /// The WebSocket bridge.
    Bridge,
}

/// One line of the routing table.
#[derive(Debug, Clone, PartialEq, Eq)]
pub enum Route {
    /// The path itself, and nothing below it, goes to a handler.
    Exact { path: String, methods: Methods, endpoint: Endpoint },
    /// The path and everything below it is served from `dir`, or from the
    /// directory `sub` inside `dir`.
    Tree { prefix: String, dir: String, sub: Option<String> },
}

/// Where a request goes.
#[derive(Debug, Clone, PartialEq, Eq)]
pub enum Target {
    /// To the upstream, through the request relay.
    Relay,
    /// To the upstream, through a WebSocket bridge.
    Bridge,
    /// To the local file `rest` below `dir`, or below `sub` inside `dir`.
    Static { dir: String, sub: Option<String>, rest: String },
    /// Nowhere: the path is a literal route that does not answer the method.
    MethodNotAllowed,
}

/// One line of the routing table as mathematical values.
pub enum RouteView {
    Exact { path: Seq<char>, methods: Methods, endpoint: Endpoint },
    Tree { prefix: Seq<char>, dir: Seq<char>, sub: Option<Seq<char>> },
}

/// The destination of a request as mathematical values.
pub enum TargetView {
    Relay,
    Bridge,
    Static { dir: Seq<char>, sub: Option<Seq<char>>, rest: Seq<char> },
    MethodNotAllowed,
}

/// The view of an optional owned text.
pub open spec fn text_view(piece: Option<String>) -> Option<Seq<char>> {
    match piece {
        Some(text) => Some(text@),
        None => None,
    }
}

impl View for Route {
    type V = RouteView;

    open spec fn view(&self) -> RouteView {
        match *self {
            Route::Exact { path, methods, endpoint } => RouteView::Exact { path: path@, methods, endpoint },
            Route::Tree { prefix, dir, sub } => RouteView::Tree { prefix: prefix@, dir: dir@, sub: text_view(sub) },
        }
    }
}

impl View for Target {
    type V = TargetView;

    open spec fn view(&self) -> TargetView {
        match *self {
            Target::Relay => TargetView::Relay,
            Target::Bridge => TargetView::Bridge,
            Target::Static { dir, sub, rest } => TargetView::Static { dir: dir@, sub: text_view(sub), rest: rest@ },
            Target::MethodNotAllowed => TargetView::MethodNotAllowed,
        }
    }
}

impl Methods {
    /// Whether a route with these methods answers `method`.
    pub open spec fn allows(self, method: Method) -> bool {
        match self {
            Methods::Get => method == Method::Get || method == Method::Head,
            Methods::GetOrPost => method == Method::Get || method == Method::Head || method == Method::Post,
        }
    }

    /// Whether a route with these methods answers `method`.
    pub fn answers(self, method: Method) -> (yes: bool)
        ensures
            yes == self.allows(method),
    {
        match self {
            Methods::Get => method == Method::Get || method == Method::Head,
            Methods::GetOrPost => method == Method::Get || method == Method::Head || method == Method::Post,
        }
    }
}

/// Whether `path` is `prefix` or lies below it: the prefix followed by a
/// slash and anything.
pub open spec fn covers(prefix: Seq<char>, path: Seq<char>) -> bool {
    ||| path == prefix
    ||| (path.len() > prefix.len() && path.take(prefix.len() as int) == prefix && path[prefix.len() as int] == '/')
}

/// What is left of `path` below `prefix`: the part from the slash on, or a
/// lone slash for the prefix itself.
pub open spec fn below(prefix: Seq<char>, path: Seq<char>) -> Seq<char> {
    if path.len() <= prefix.len() {
        seq!['/']
    } else {
        path.skip(prefix.len() as int)
    }
}

/// The first literal route for `path`, if any: its methods and handler.
pub open spec fn find_exact(table: Seq<RouteView>, path: Seq<char>) -> Option<(Methods, Endpoint)>
    decreases table.len(),
{
    if table.len() == 0 {
        None
    } else {
        match table.first() {
            RouteView::Exact { path: p, methods, endpoint } if p == path => Some((methods, endpoint)),
            _ => find_exact(table.drop_first(), path),
        }
    }
}

/// The first directory route that covers `path`, if any, as the
/// destination it gives.
pub open spec fn find_tree(table: Seq<RouteView>, path: Seq<char>) -> Option<TargetView>
    decreases table.len(),
{
    if table.len() == 0 {
        None
    } else {
        match table.first() {
            RouteView::Tree { prefix, dir, sub } if covers(prefix, path) => Some(
                TargetView::Static { dir, sub, rest: below(prefix, path) },
            ),
            _ => find_tree(table.drop_first(), path),
        }
    }
}

/// Where the table sends a request: a literal route for the path decides,
/// by its methods; where there is none, a directory route that covers the
/// path; where there is none either, the request relay.
pub open spec fn lookup(table: Seq<RouteView>, method: Method, path: Seq<char>) -> TargetView {
    match find_exact(table, path) {
        Some((methods, endpoint)) => if !methods.allows(method) {
            TargetView::MethodNotAllowed
        } else if endpoint == Endpoint::Bridge {
            TargetView::Bridge
        } else {
            TargetView::Relay
        },
        None => match find_tree(table, path) {
            Some(target) => target,
            None => TargetView::Relay,
        },
    }
}

/// A literal route to the request relay that answers `GET`.
pub open spec fn relay_at(path: Seq<char>) -> RouteView {
    RouteView::Exact { path, methods: Methods::Get, endpoint: Endpoint::Relay }
}

/// The literal routes of the default layout.
pub open spec fn default_literals() -> Seq<RouteView> {
    seq![
        relay_at("/app/help/search"@),
        relay_at("/app/help/searchprogress"@),
        relay_at("/app/help/context/node-view"@),
        relay_at("/app/help/context/node-wizard"@),
        RouteView::Exact { path: "/app/eventsSocket"@, methods: Methods::Get, endpoint: Endpoint::Bridge },
    ]
}

/// The directory routes of the default layout.
pub open spec fn default_trees(sourcedata: Seq<char>, help: Seq<char>) -> Seq<RouteView> {
    seq![
        RouteView::Tree { prefix: "/app/static"@, dir: sourcedata, sub: None },
        RouteView::Tree { prefix: "/app/help"@, dir: help, sub: None },
    ]
}

/// The literal routes of the grid layout.
pub open spec fn grid_literals() -> Seq<RouteView> {
    seq![
        RouteView::Exact { path: "/ws"@, methods: Methods::Get, endpoint: Endpoint::Bridge },
        RouteView::Exact { path: "/api"@, methods: Methods::GetOrPost, endpoint: Endpoint::Relay },
    ]
}

/// A directory route of the grid layout into a directory inside the
/// static assets.
pub open spec fn asset_tree(prefix: Seq<char>, sourcedata: Seq<char>, sub: Seq<char>) -> RouteView {
    RouteView::Tree { prefix, dir: sourcedata, sub: Some(sub) }
}

/// The directory routes of the grid layout.
pub open spec fn grid_trees(sourcedata: Seq<char>, help: Seq<char>) -> Seq<RouteView> {
    seq![
        asset_tree("/fonts"@, sourcedata, "fonts"@),
        asset_tree("/vendor"@, sourcedata, "vendor"@),
        asset_tree("/images"@, sourcedata, "images"@),
        asset_tree("/scripts"@, sourcedata, "scripts"@),
        asset_tree("/styles"@, sourcedata, "styles"@),
        asset_tree("/localization"@, sourcedata, "localization"@),
        RouteView::Tree { prefix: "/help"@, dir: help, sub: None },
    ]
}

/// The routing table for a configuration: the literal routes of its
/// layout, followed by the directory routes unless `transparent` is set.
pub open spec fn table_for(grid: bool, sourcedata: Seq<char>, help: Seq<char>, transparent: bool) -> Seq<RouteView> {
    let literals = if grid {
        grid_literals()
    } else {
        default_literals()
    };
    let trees = if grid {
        grid_trees(sourcedata, help)
    } else {
        default_trees(sourcedata, help)
    };
    if transparent {
        literals
    } else {
        literals + trees
    }
}

/// Whether a table has no directory route.
pub open spec fn without_trees(table: Seq<RouteView>) -> bool {
    forall|i: int| 0 <= i < table.len() ==> #[trigger] table[i] is Exact
}

/// The views of the lines of a table.
pub open spec fn lines(routes: Seq<Route>) -> Seq<RouteView> {
    routes.map_values(|route: Route| route@)
}

/// The routing table of a running proxy.
#[derive(Debug, Clone, PartialEq, Eq)]
pub struct Router {
    routes: Vec<Route>,
}

impl View for Router {
    type V = Seq<RouteView>;

    closed spec fn view(&self) -> Seq<RouteView> {
        lines(self.routes@)
    }
}

fn literal(path: &str, methods: Methods, endpoint: Endpoint) -> (route: Route)
    ensures
        route@ == (RouteView::Exact { path: path@, methods, endpoint }),
{
    Route::Exact { path: String::from_str(path), methods, endpoint }
}

fn tree(prefix: &str, dir: &String, sub: Option<&str>) -> (route: Route)
    ensures
        route@ == (RouteView::Tree {
            prefix: prefix@,
            dir: dir@,
            sub: match sub {
                Some(s) => Some(s@),
                None => None,
            },
        }),
{
    let sub = match sub {
        Some(s) => Some(String::from_str(s)),
        None => None,
    };
    Route::Tree { prefix: String::from_str(prefix), dir: dir.clone(), sub }
}

/// Builds the routing table for a configuration. With `transparent` set no
/// path is served from a local directory.
pub fn get_router(cfg: &Cfg, transparent: bool) -> (router: Router)
    ensures
        router@ == table_for(cfg.pagrid, cfg.sourcedata@, cfg.help@, transparent),
{
    let mut routes: Vec<Route> = Vec::new();
    if cfg.pagrid {
        routes.push(literal("/ws", Methods::Get, Endpoint::Bridge));
        routes.push(literal("/api", Methods::GetOrPost, Endpoint::Relay));
        if !transparent {
            routes.push(tree("/fonts", &cfg.sourcedata, Some("fonts")));
            routes.push(tree("/vendor", &cfg.sourcedata, Some("vendor")));
            routes.push(tree("/images", &cfg.sourcedata, Some("images")));
            routes.push(tree("/scripts", &cfg.sourcedata, Some("scripts")));
            routes.push(tree("/styles", &cfg.sourcedata, Some("styles")));
            routes.push(tree("/localization", &cfg.sourcedata, Some("localization")));
            routes.push(tree("/help", &cfg.help, None));
        }
    } else {
        routes.push(literal("/app/help/search", Methods::Get, Endpoint::Relay));
        routes.push(literal("/app/help/searchprogress", Methods::Get, Endpoint::Relay));
        routes.push(literal("/app/help/context/node-view", Methods::Get, Endpoint::Relay));
        routes.push(literal("/app/help/context/node-wizard", Methods::Get, Endpoint::Relay));
        routes.push(literal("/app/eventsSocket", Methods::Get, Endpoint::Bridge));
        if !transparent {
            routes.push(tree("/app/static", &cfg.sourcedata, None));
            routes.push(tree("/app/help", &cfg.help, None));
        }
    }
    let router = Router { routes };
    proof {
        assert(router@ =~= table_for(cfg.pagrid, cfg.sourcedata@, cfg.help@, transparent));
    }
    router
}

/// Whether two texts are the same.
fn same_text(a: &Vec<char>, b: &Vec<char>) -> (same: bool)
    ensures
        same == (a@ == b@),
{
    if a.len() != b.len() {
        return false;
    }
    let mut i: usize = 0;
    while i < a.len()
        invariant
            i <= a.len(),
            a.len() == b.len(),
            forall|k: int| 0 <= k < i ==> a@[k] == b@[k],
        decreases a.len() - i,
    {
        if a[i] != b[i] {
            return false;
        }
        i = i + 1;
    }
    proof {
        assert(a@ =~= b@);
    }
    true
}

/// Whether `path` is `prefix` or lies below it.
fn is_covered(prefix: &Vec<char>, path: &Vec<char>) -> (yes: bool)
    ensures
        yes == covers(prefix@, path@),
{
    if path.len() < prefix.len() {
        return false;
    }
    let mut i: usize = 0;
    while i < prefix.len()
        invariant
            i <= prefix.len(),
            prefix.len() <= path.len(),
            forall|k: int| 0 <= k < i ==> prefix@[k] == path@[k],
        decreases prefix.len() - i,
    {
        if prefix[i] != path[i] {
            proof {
                assert(path@.take(prefix.len() as int)[i as int] == path@[i as int]);
            }
            return false;
        }
        i = i + 1;
    }
    proof {
        assert(path@.take(prefix.len() as int) =~= prefix@);
        if path.len() == prefix.len() {
            assert(path@ =~= prefix@);
        }
    }
    path.len() == prefix.len() || path[prefix.len()] == '/'
}

impl Router {
    /// The lines of the table, in the order in which they are tried.
    pub fn routes(&self) -> (routes: &Vec<Route>)
        ensures
            lines(routes@) == self@,
    {
        &self.routes
    }

    /// Where a request with the given method and path goes. The path is
    /// compared as it stands: nothing is normalized.
    pub fn resolve(&self, method: Method, path: &str) -> (target: Target)
        ensures
            target@ == lookup(self@, method, path@),
    {
        let wanted = chars_of(path);
        let ghost table = self@;
        let mut i: usize = 0;
        proof {
            assert(table.skip(0) =~= table);
        }
        while i < self.routes.len()
            invariant
                i <= self.routes.len(),
                table == lines(self.routes@),
                wanted@ == path@,
                find_exact(table, path@) == find_exact(table.skip(i as int), path@),
            decreases self.routes.len() - i,
        {
            proof {
                assert(table.skip(i as int).first() == self.routes@[i as int]@);
                assert(table.skip(i as int).drop_first() =~= table.skip(i + 1));
            }
            match &self.routes[i] {
                Route::Exact { path: p, methods, endpoint } => {
                    let literal = chars_of(p.as_str());
                    if same_text(&literal, &wanted) {
                        if !methods.answers(method) {
                            return Target::MethodNotAllowed;
                        }
                        return match endpoint {
                            Endpoint::Bridge => Target::Bridge,
                            Endpoint::Relay => Target::Relay,
                        };
                    }
                },
                Route::Tree { .. } => {},
            }
            i = i + 1;
        }
        let mut j: usize = 0;
        while j < self.routes.len()
            invariant
                j <= self.routes.len(),
                table == lines(self.routes@),
                wanted@ == path@,
                find_exact(table, path@) is None,
                find_tree(table, path@) == find_tree(table.skip(j as int), path@),
            decreases self.routes.len() - j,
        {
            proof {
                assert(table.skip(j as int).first() == self.routes@[j as int]@);
                assert(table.skip(j as int).drop_first() =~= table.skip(j + 1));
            }
            match &self.routes[j] {
                Route::Tree { prefix, dir, sub } => {
                    let start = chars_of(prefix.as_str());
                    if is_covered(&start, &wanted) {
                        let rest = if wanted.len() <= start.len() {
                            proof {
                                reveal_strlit("/");
                                assert("/"@ =~= seq!['/']);
                            }
                            String::from_str("/")
                        } else {
                            String::from_str(path.substring_char(start.len(), wanted.len()))
                        };
                        proof {
                            assert(path@.subrange(start.len() as int, wanted.len() as int) =~= path@.skip(
                                start.len() as int,
                            ));
                        }
                        return Target::Static { dir: dir.clone(), sub: sub.clone(), rest };
                    }
                },
                Route::Exact { .. } => {},
            }
            j = j + 1;
        }
        Target::Relay
    }
}

/// A table without directory routes serves nothing from a local directory.
pub proof fn lemma_no_tree_no_static(table: Seq<RouteView>, method: Method, path: Seq<char>)
    requires
        without_trees(table),
    ensures
        !(lookup(table, method, path) is Static),
{
    lemma_find_tree_none(table, path);
}

proof fn lemma_find_tree_none(table: Seq<RouteView>, path: Seq<char>)
    requires
        without_trees(table),
    ensures
        find_tree(table, path) is None,
    decreases table.len(),
{
    if table.len() > 0 {
        assert(table[0] is Exact);
        assert forall|i: int| 0 <= i < table.drop_first().len() implies #[trigger] table.drop_first()[i] is Exact by {
            assert(table[i + 1] is Exact);
        }
        lemma_find_tree_none(table.drop_first(), path);
    }
}

/// In transparent mode, whatever the layout, no request is served from a
/// local directory: each goes to the upstream or is refused for its method.
pub proof fn lemma_transparent_serves_nothing(
    grid: bool,
    sourcedata: Seq<char>,
    help: Seq<char>,
    method: Method,
    path: Seq<char>,
)
    ensures
        !(lookup(table_for(grid, sourcedata, help, true), method, path) is Static),
{
    lemma_no_tree_no_static(table_for(grid, sourcedata, help, true), method, path);
}

/// In the default layout with local serving on, every path at or below
/// `/app/static` is served from the static assets directory, whatever the
/// method: no literal route takes it and no handler sees it.
pub proof fn lemma_default_serves_static(sourcedata: Seq<char>, help: Seq<char>, method: Method, path: Seq<char>)
    requires
        covers("/app/static"@, path),
    ensures
        lookup(table_for(false, sourcedata, help, false), method, path) == (TargetView::Static {
            dir: sourcedata,
            sub: None,
            rest: below("/app/static"@, path),
        }),
{
    reveal_strlit("/app/static");
    reveal_strlit("/app/help/search");
    reveal_strlit("/app/help/searchprogress");
    reveal_strlit("/app/help/context/node-view");
    reveal_strlit("/app/help/context/node-wizard");
    reveal_strlit("/app/eventsSocket");
    let table = table_for(false, sourcedata, help, false);
    let prefix = "/app/static"@;
    assert(path.len() >= 11);
    assert(path[5] == 's') by {
        if path != prefix {
            assert(path.take(11)[5] == prefix[5]);
        }
    }
    assert("/app/help/search"@[5] == 'h');
    assert("/app/help/searchprogress"@[5] == 'h');
    assert("/app/help/context/node-view"@[5] == 'h');
    assert("/app/help/context/node-wizard"@[5] == 'h');
    assert("/app/eventsSocket"@[5] == 'e');
    reveal_with_fuel(find_exact, 8);
    reveal_with_fuel(find_tree, 8);
    let t1 = table.drop_first();
    let t2 = t1.drop_first();
    let t3 = t2.drop_first();
    let t4 = t3.drop_first();
    let t5 = t4.drop_first();
    let t6 = t5.drop_first();
    let t7 = t6.drop_first();
    assert(table.len() == 7);
    assert(t7.len() == 0);
    assert(table.first() == relay_at("/app/help/search"@));
    assert(t1.first() == relay_at("/app/help/searchprogress"@));
    assert(t2.first() == relay_at("/app/help/context/node-view"@));
    assert(t3.first() == relay_at("/app/help/context/node-wizard"@));
    assert(t4.first() == (RouteView::Exact {
        path: "/app/eventsSocket"@,
        methods: Methods::Get,
        endpoint: Endpoint::Bridge,
    }));
    assert(t5.first() == (RouteView::Tree { prefix: "/app/static"@, dir: sourcedata, sub: None }));
    assert(t6.first() == (RouteView::Tree { prefix: "/app/help"@, dir: help, sub: None }));
    assert(find_exact(table, path) is None);
}

} // verus!
