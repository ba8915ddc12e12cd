use traffic_proxy::cfg::Cfg;
use traffic_proxy::router::{get_router, Endpoint, Method, Methods, Route, Target};

fn cfg(grid: bool) -> Cfg {
    Cfg {
        port: 3000,
        sourcedata: "/srv/assets".to_string(),
        help: "/srv/help".to_string(),
        host: "upstream.example".to_string(),
        pagrid: grid,
    }
}

fn served(dir: &str, sub: Option<&str>, rest: &str) -> Target {
    Target::Static { dir: dir.to_string(), sub: sub.map(|s| s.to_string()), rest: rest.to_string() }
}

#[test]
fn default_layout_serves_static_assets_locally() {
    let router = get_router(&cfg(false), false);
    assert_eq!(
        router.resolve(Method::Get, "/app/static/x.png"),
        served("/srv/assets", None, "/x.png")
    );
    assert_eq!(
        router.resolve(Method::Get, "/app/static/css/site.css"),
        served("/srv/assets", None, "/css/site.css")
    );
}

#[test]
fn transparent_mode_forwards_static_assets() {
    let router = get_router(&cfg(false), true);
    assert_eq!(router.resolve(Method::Get, "/app/static/x.png"), Target::Relay);
    assert_eq!(router.resolve(Method::Get, "/app/help/index.html"), Target::Relay);
    let router = get_router(&cfg(true), true);
    assert_eq!(router.resolve(Method::Get, "/fonts/a.woff"), Target::Relay);
    assert_eq!(router.resolve(Method::Get, "/help/index.html"), Target::Relay);
}

#[test]
fn transparent_mode_keeps_the_literal_routes() {
    let router = get_router(&cfg(false), true);
    assert_eq!(router.resolve(Method::Get, "/app/eventsSocket"), Target::Bridge);
    assert_eq!(router.resolve(Method::Get, "/app/help/search"), Target::Relay);
    let router = get_router(&cfg(true), true);
    assert_eq!(router.resolve(Method::Get, "/ws"), Target::Bridge);
    assert_eq!(router.resolve(Method::Post, "/api"), Target::Relay);
}

#[test]
fn default_layout_serves_help_locally_but_for_four_paths() {
    let router = get_router(&cfg(false), false);
    assert_eq!(
        router.resolve(Method::Get, "/app/help/index.html"),
        served("/srv/help", None, "/index.html")
    );
    for path in [
        "/app/help/search",
        "/app/help/searchprogress",
        "/app/help/context/node-view",
        "/app/help/context/node-wizard",
    ] {
        assert_eq!(router.resolve(Method::Get, path), Target::Relay, "{}", path);
    }
    assert_eq!(
        router.resolve(Method::Get, "/app/help/search/more"),
        served("/srv/help", None, "/search/more")
    );
    assert_eq!(
        router.resolve(Method::Get, "/app/help/context"),
        served("/srv/help", None, "/context")
    );
}

#[test]
fn default_layout_bridges_the_events_socket() {
    let router = get_router(&cfg(false), false);
    assert_eq!(router.resolve(Method::Get, "/app/eventsSocket"), Target::Bridge);
    assert_eq!(router.resolve(Method::Get, "/app/eventsSocket/"), Target::Relay);
    assert_eq!(router.resolve(Method::Get, "/app/eventssocket"), Target::Relay);
    assert_eq!(router.resolve(Method::Get, "/ws"), Target::Relay);
}

#[test]
fn everything_else_goes_to_the_relay() {
    let router = get_router(&cfg(false), false);
    for path in ["/", "", "/app", "/app/", "/app/api/items", "/foo/bar", "/app/staticfoo", "/app/static.png"] {
        assert_eq!(router.resolve(Method::Get, path), Target::Relay, "{:?}", path);
        assert_eq!(router.resolve(Method::Post, path), Target::Relay, "{:?}", path);
        assert_eq!(router.resolve(Method::Other, path), Target::Relay, "{:?}", path);
    }
}

#[test]
fn directory_itself_is_served_as_its_root() {
    let router = get_router(&cfg(false), false);
    assert_eq!(router.resolve(Method::Get, "/app/static"), served("/srv/assets", None, "/"));
    assert_eq!(router.resolve(Method::Get, "/app/static/"), served("/srv/assets", None, "/"));
    assert_eq!(router.resolve(Method::Get, "/app/help"), served("/srv/help", None, "/"));
}

#[test]
fn directories_are_served_for_every_method() {
    let router = get_router(&cfg(false), false);
    assert_eq!(
        router.resolve(Method::Post, "/app/static/x.png"),
        served("/srv/assets", None, "/x.png")
    );
    assert_eq!(
        router.resolve(Method::Other, "/app/help/a"),
        served("/srv/help", None, "/a")
    );
}

#[test]
fn literal_routes_answer_get_and_head_only() {
    let router = get_router(&cfg(false), false);
    assert_eq!(router.resolve(Method::Head, "/app/help/search"), Target::Relay);
    assert_eq!(router.resolve(Method::Post, "/app/help/search"), Target::MethodNotAllowed);
    assert_eq!(router.resolve(Method::Other, "/app/help/searchprogress"), Target::MethodNotAllowed);
    assert_eq!(router.resolve(Method::Post, "/app/eventsSocket"), Target::MethodNotAllowed);
    assert_eq!(router.resolve(Method::Head, "/app/eventsSocket"), Target::Bridge);
}

#[test]
fn grid_layout_has_its_socket_and_api() {
    let router = get_router(&cfg(true), false);
    assert_eq!(router.resolve(Method::Get, "/ws"), Target::Bridge);
    assert_eq!(router.resolve(Method::Post, "/ws"), Target::MethodNotAllowed);
    assert_eq!(router.resolve(Method::Get, "/api"), Target::Relay);
    assert_eq!(router.resolve(Method::Head, "/api"), Target::Relay);
    assert_eq!(router.resolve(Method::Post, "/api"), Target::Relay);
    assert_eq!(router.resolve(Method::Other, "/api"), Target::MethodNotAllowed);
    assert_eq!(router.resolve(Method::Other, "/api/items"), Target::Relay);
    assert_eq!(router.resolve(Method::Get, "/app/eventsSocket"), Target::Relay);
    assert_eq!(router.resolve(Method::Get, "/app/static/x.png"), Target::Relay);
}

#[test]
fn grid_layout_serves_six_asset_directories_and_help() {
    let router = get_router(&cfg(true), false);
    for name in ["fonts", "vendor", "images", "scripts", "styles", "localization"] {
        let path = format!("/{}/a/b.bin", name);
        assert_eq!(
            router.resolve(Method::Get, &path),
            served("/srv/assets", Some(name), "/a/b.bin"),
            "{}",
            path
        );
    }
    assert_eq!(router.resolve(Method::Get, "/help/x.html"), served("/srv/help", None, "/x.html"));
    assert_eq!(router.resolve(Method::Get, "/fontsy/a"), Target::Relay);
    assert_eq!(router.resolve(Method::Get, "/other/a"), Target::Relay);
}

#[test]
fn paths_beyond_ascii_are_cut_by_characters() {
    let router = get_router(&cfg(true), false);
    assert_eq!(
        router.resolve(Method::Get, "/fonts/\u{e9}t\u{e9}.woff"),
        served("/srv/assets", Some("fonts"), "/\u{e9}t\u{e9}.woff")
    );
}

#[test]
fn default_table_lists_literals_before_directories() {
    let router = get_router(&cfg(false), false);
    let routes = router.routes();
    assert_eq!(routes.len(), 7);
    assert_eq!(
        routes[0],
        Route::Exact {
            path: "/app/help/search".to_string(),
            methods: Methods::Get,
            endpoint: Endpoint::Relay
        }
    );
    assert_eq!(
        routes[4],
        Route::Exact {
            path: "/app/eventsSocket".to_string(),
            methods: Methods::Get,
            endpoint: Endpoint::Bridge
        }
    );
    assert_eq!(
        routes[5],
        Route::Tree { prefix: "/app/static".to_string(), dir: "/srv/assets".to_string(), sub: None }
    );
    assert_eq!(
        routes[6],
        Route::Tree { prefix: "/app/help".to_string(), dir: "/srv/help".to_string(), sub: None }
    );
}

#[test]
fn table_sizes() {
    assert_eq!(get_router(&cfg(false), true).routes().len(), 5);
    assert_eq!(get_router(&cfg(true), false).routes().len(), 9);
    assert_eq!(get_router(&cfg(true), true).routes().len(), 2);
}
