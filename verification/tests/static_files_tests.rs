use include_dir::{Dir, DirEntry, File};
use sveltekit_axum::static_files::{
    build_static_file_response, prerendered_file_path, route_request, serve_static_files, static_dir_serves,
    HandlerStep, ModuleLoadError, StaticLookup, StaticModuleLoader, SveltekitData,
};

static APP_DIR_ENTRIES: [DirEntry<'static>; 1] = [DirEntry::File(File::new("_app/start.js", b"console.log(1)"))];
static CLIENT_ENTRIES: [DirEntry<'static>; 3] = [
    DirEntry::File(File::new("favicon.png", b"\x89PNG")),
    DirEntry::File(File::new("about.html", b"client about")),
    DirEntry::Dir(Dir::new("_app", &APP_DIR_ENTRIES)),
];
static PRERENDERED_ENTRIES: [DirEntry<'static>; 3] = [
    DirEntry::File(File::new("index.html", b"<h1>home</h1>")),
    DirEntry::File(File::new("about.html", b"<h1>about</h1>")),
    DirEntry::File(File::new("blog.html", b"<h1>blog</h1>")),
];

fn state() -> SveltekitData<()> {
    SveltekitData {
        js_runner: (),
        client_js: Dir::new("", &CLIENT_ENTRIES),
        prerendered: Dir::new("", &PRERENDERED_ENTRIES),
        static_dir: "./static",
    }
}

fn h(name: &str, value: &str) -> (Vec<u8>, Vec<u8>) {
    (name.as_bytes().to_vec(), value.as_bytes().to_vec())
}

#[test]
fn static_file_response_for_get() {
    let r = build_static_file_response("_app/start.js", b"console.log(1)", "GET");
    assert_eq!(r.status, 200);
    assert_eq!(r.headers, vec![h("content-type", "text/javascript"), h("content-length", "14")]);
    assert_eq!(r.body, b"console.log(1)");
}

#[test]
fn static_file_response_for_head_has_no_body() {
    let get = build_static_file_response("style.css", b"body{}", "GET");
    let head = build_static_file_response("style.css", b"body{}", "HEAD");
    assert_eq!(head.status, get.status);
    assert_eq!(head.headers, get.headers);
    assert!(head.body.is_empty());
    assert_eq!(get.headers[0], h("content-type", "text/css"));
}

#[test]
fn static_file_response_unknown_extension_is_octet_stream() {
    let r = build_static_file_response("data.unknownext", b"", "GET");
    assert_eq!(r.headers, vec![h("content-type", "application/octet-stream"), h("content-length", "0")]);
    let r = build_static_file_response("Makefile", b"all:", "GET");
    assert_eq!(r.headers[0], h("content-type", "application/octet-stream"));
}

#[test]
fn prerendered_path_of_root_is_index() {
    assert_eq!(prerendered_file_path(""), "index.html");
    assert_eq!(prerendered_file_path("about"), "about.html");
    assert_eq!(prerendered_file_path("blog/post"), "blog/post.html");
}

#[test]
fn client_bundle_is_served_first() {
    match serve_static_files(&state(), "GET", "/_app/start.js") {
        StaticLookup::Found(r) => {
            assert_eq!(r.body, b"console.log(1)");
            assert_eq!(r.headers[1], h("content-length", "14"));
        }
        StaticLookup::TryStaticDir => panic!("expected the client file"),
    }
    match serve_static_files(&state(), "GET", "/about.html") {
        StaticLookup::Found(r) => assert_eq!(r.body, b"client about"),
        StaticLookup::TryStaticDir => panic!("expected the client file"),
    }
}

#[test]
fn prerendered_pages_are_served_without_headers() {
    match serve_static_files(&state(), "GET", "/") {
        StaticLookup::Found(r) => {
            assert_eq!(r.status, 200);
            assert!(r.headers.is_empty());
            assert_eq!(r.body, b"<h1>home</h1>");
        }
        StaticLookup::TryStaticDir => panic!("expected the index page"),
    }
    match serve_static_files(&state(), "HEAD", "//blog") {
        StaticLookup::Found(r) => assert_eq!(r.body, b"<h1>blog</h1>"),
        StaticLookup::TryStaticDir => panic!("expected the blog page"),
    }
}

#[test]
fn unknown_paths_go_to_the_static_dir() {
    assert!(matches!(serve_static_files(&state(), "GET", "/robots.txt"), StaticLookup::TryStaticDir));
    assert!(matches!(serve_static_files(&state(), "GET", "/_app"), StaticLookup::TryStaticDir));
}

#[test]
fn route_request_sends_other_methods_to_render() {
    assert!(matches!(route_request(&state(), "POST", "/favicon.png"), HandlerStep::Render));
    assert!(matches!(route_request(&state(), "get", "/favicon.png"), HandlerStep::Render));
    assert!(matches!(route_request(&state(), "GET", "/missing"), HandlerStep::ServeStaticDir));
    match route_request(&state(), "HEAD", "/favicon.png") {
        HandlerStep::Respond(r) => {
            assert!(r.body.is_empty());
            assert_eq!(r.headers, vec![h("content-type", "image/png"), h("content-length", "4")]);
        }
        _ => panic!("expected the favicon"),
    }
}

#[test]
fn static_dir_not_found_falls_through() {
    assert!(static_dir_serves(200));
    assert!(static_dir_serves(304));
    assert!(!static_dir_serves(404));
}

#[test]
fn module_loader_strips_leading_slash() {
    let loader = StaticModuleLoader { files: Dir::new("", &CLIENT_ENTRIES) };
    assert_eq!(loader.load("/_app/start.js"), Ok(&b"console.log(1)"[..]));
    assert_eq!(loader.load("/entry.js"), Err(ModuleLoadError::NotFound));
}

#[test]
fn cloned_state_serves_the_same_files() {
    let copy = state().clone();
    match serve_static_files(&copy, "GET", "/favicon.png") {
        StaticLookup::Found(r) => assert_eq!(r.body, b"\x89PNG"),
        StaticLookup::TryStaticDir => panic!("expected the favicon"),
    }
}
