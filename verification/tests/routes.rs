use nucleus_http::http::{Header, Method, MimeType, StatusCode};
use nucleus_http::paths::{extension_of, parent_of, relative, wildcard_of};
use nucleus_http::request::Request;
use nucleus_http::response::Response;
use nucleus_http::routes::{FileOutcome, RequestResolver, Resolution, Route, RouteResolver, Router};
use nucleus_http::state::{FromRequest, State};
use nucleus_http::table::TextMap;
use nucleus_http::virtual_host::{document_root, VirtualHost};

fn request(path: &str) -> Request {
    Request::from_string(format!("GET {} HTTP/1.1\r\nHost: localhost\r\n\r\n", path)).unwrap()
}

fn handler_of<'a>(router: &'a Router<(), &'static str>, path: &str) -> Option<&'a str> {
    match router.route(&request(path)) {
        Resolution::Invoke(handler) => Some(*handler),
        _ => None,
    }
}

fn pairs(response: &Response) -> Vec<(String, String)> {
    response
        .headers()
        .iter()
        .map(|header| (header.key.clone(), header.value.clone()))
        .collect()
}

#[test]
fn wildcard_answers_what_has_no_route_of_its_own() {
    let mut router: Router<(), &'static str> = Router::new(());
    router.add_route(Route::get("/hi/*", "wild"));
    assert_eq!(Some("wild"), handler_of(&router, "/hi/there"));
    assert_eq!(Some("wild"), handler_of(&router, "/hi/anything/deeper"));
    assert_eq!(None, handler_of(&router, "/hi"));
    assert_eq!(None, handler_of(&router, "/other/there"));
    router.add_route(Route::get("/hi/there", "exact"));
    assert_eq!(Some("exact"), handler_of(&router, "/hi/there"));
    assert_eq!(Some("wild"), handler_of(&router, "/hi/here"));
}

#[test]
fn nearest_wildcard_wins() {
    let mut router: Router<(), &'static str> = Router::new(());
    router.add_route(Route::get("/*", "root"));
    router.add_route(Route::get("/a/*", "a"));
    router.add_route(Route::get("/a/b/*", "b"));
    router.add_route(Route::get("*", "all"));
    assert_eq!(Some("b"), handler_of(&router, "/a/b/c"));
    assert_eq!(Some("a"), handler_of(&router, "/a/c"));
    assert_eq!(Some("a"), handler_of(&router, "/a/c/d/e"));
    assert_eq!(Some("root"), handler_of(&router, "/c"));
    assert_eq!(Some("root"), handler_of(&router, "/c/d"));
    assert_eq!(Some("all"), handler_of(&router, "/"));
    assert_eq!(Some("a"), handler_of(&router, "/a//c/"));
    assert_eq!(Some("a"), handler_of(&router, "/a/./c"));
    assert_eq!(Some("root"), handler_of(&router, "/a/."));
}

#[test]
fn routes_are_kept_by_method() {
    let mut router: Router<(), &'static str> = Router::new(());
    router.add_route(Route::post("/form", "post"));
    router.add_route(Route::get("/form", "first"));
    router.add_route(Route::get("/form", "second"));
    assert_eq!(Some("second"), handler_of(&router, "/form"));
    let posted =
        Request::from_string("POST /form HTTP/1.1\r\nHost: localhost\r\n\r\n".to_string()).unwrap();
    assert!(matches!(router.route(&posted), Resolution::Invoke(&"post")));
    assert_eq!(
        "first",
        *match router.matching_route(Method::GET, "/form").unwrap().resolver() {
            RouteResolver::Function(_) => &"first",
            _ => &"other",
        }
    );
    assert!(router.matching_route(Method::POST, "/missing").is_none());
}

#[test]
fn unregistered_path_asks_for_the_file_and_a_missing_file_is_not_found() {
    let router: Router<(), &'static str> = Router::new(());
    let file = match router.route(&request("/missing.html")) {
        Resolution::ServeFile(file) => file,
        _ => panic!("no file asked for"),
    };
    assert_eq!("missing.html", file);
    let response = router.file_response(&file, FileOutcome::Failed);
    assert_eq!(StatusCode::ErrNotFound, response.status());
    assert_eq!(404, response.status().code());
    assert_eq!(MimeType::PlainText, response.mime());
    assert_eq!(b"Static File Not Found", response.body());
    let denied = router.file_response(&file, FileOutcome::PermissionDenied);
    assert_eq!(StatusCode::ErrForbidden, denied.status());
    assert_eq!(b"Permission Denied", denied.body());
    let found = router.file_response(&file, FileOutcome::Found(b"<p>".to_vec()));
    assert_eq!(StatusCode::OK, found.status());
    assert_eq!(MimeType::HTML, found.mime());
    assert_eq!(b"<p>", found.body());
    assert_eq!(
        vec![("Server".to_string(), "nucleus-http 0.1.0".to_string())],
        pairs(&found)
    );
}

#[test]
fn static_route_asks_for_its_file() {
    let mut router: Router<(), &'static str> = Router::new(());
    router.add_route(Route::get_static("/", "index.html"));
    assert!(matches!(
        router.route(&request("/")),
        Resolution::ServeFile(file) if file == "index.html"
    ));
    assert!(matches!(
        router.route(&request("//a/b.css")),
        Resolution::ServeFile(file) if file == "a/b.css"
    ));
}

#[test]
fn redirect_and_embedded_bytes_are_answered_at_once() {
    let mut router: Router<(), &'static str> = Router::new(());
    router.add_default_header(Header::new("X-Frame-Options", "DENY"));
    router.add_mime_header(Header::new("Cache-Control", "no-store"), MimeType::PlainText);
    router.add_mime_header(Header::new("X-Icon", "yes"), MimeType::Icon);
    router.add_mime_header(Header::new("X-Custom", "a"), MimeType::Custom("a/b"));
    router.add_route(Route::redirect("/old", "/new"));
    router.add_route(Route::redirect_all("https://example.org"));
    router.add_route(Route::embed("/favicon.ico", b"icon", MimeType::Icon));
    router.add_route(Route::embed("/custom", b"c", MimeType::Custom("a/b")));
    let redirect = match router.route(&request("/old")) {
        Resolution::Respond(response) => response,
        _ => panic!("no response"),
    };
    assert_eq!(StatusCode::MovedPermanetly, redirect.status());
    assert_eq!(301, redirect.status().code());
    assert!(redirect.body().is_empty());
    assert_eq!(
        vec![
            ("Server".to_string(), "nucleus-http 0.1.0".to_string()),
            ("x-frame-options".to_string(), "DENY".to_string()),
            ("cache-control".to_string(), "no-store".to_string()),
            ("location".to_string(), "/new".to_string()),
        ],
        pairs(&redirect)
    );
    let all = match router.route(&request("/")) {
        Resolution::Respond(response) => response,
        _ => panic!("no response"),
    };
    assert_eq!("https://example.org", all.headers()[3].value);
    let icon = match router.route(&request("/favicon.ico")) {
        Resolution::Respond(response) => response,
        _ => panic!("no response"),
    };
    assert_eq!(StatusCode::OK, icon.status());
    assert_eq!(MimeType::Icon, icon.mime());
    assert_eq!(b"icon", icon.body());
    assert_eq!("x-icon", icon.headers()[2].key);
    assert_eq!(3, icon.headers().len());
    let custom = match router.route(&request("/custom")) {
        Resolution::Respond(response) => response,
        _ => panic!("no response"),
    };
    assert_eq!("x-custom", custom.headers()[2].key);
}

struct Greeter;

impl RequestResolver<String> for Greeter {
    fn resolve(&self, state: State<String>, request: Request) -> Response {
        Response::from(format!("{} {}", *state, request.path()))
    }
}

#[test]
fn handler_gets_the_state_and_its_response_the_headers() {
    let mut router: Router<String, Greeter> = Router::new("Hello".to_string());
    router.add_route(Route::get("/*", Greeter));
    let bob = request("/bob");
    let response = match router.route(&bob) {
        Resolution::Invoke(handler) => router.invoke(handler, &bob),
        _ => panic!("no handler"),
    };
    assert_eq!(StatusCode::OK, response.status());
    assert_eq!(b"Hello /bob", response.body());
    assert_eq!(MimeType::HTML, response.mime());
    assert_eq!(1, response.headers().len());
    assert_eq!("Hello", **router.state());
    let finished = router.finish(Response::from("x"));
    assert_eq!("Server", finished.headers()[0].key);
    assert_eq!("own", String::from_request(State("own".to_string()), bob));
}

#[test]
fn route_parts() {
    let route: Route<()> = Route::embed("/test", b"<html>", MimeType::from_path("../index.html"));
    assert_eq!("/test", route.path(), "route path incorrect");
    assert_eq!(Method::GET, *route.method(), "route method incorrect");
    if let RouteResolver::Embed(body, mime) = route.resolver() {
        assert_eq!(b"<html>", body, "embedded body incorect");
        assert_eq!(MimeType::HTML, *mime);
    } else {
        panic!("wrong route type");
    }
    let all: Route<()> = Route::redirect_all("/x");
    assert!(all.matches_request(&request("/anything")));
    let one: Route<()> = Route::get_static("/one", "one.html");
    assert!(one.matches_request(&request("/one")));
    assert!(!one.matches_request(&request("/two")));
    let posted: Route<()> = Route::post("/one", ());
    assert!(!posted.matches_request(&request("/one")));
}

#[test]
fn directories_of_paths() {
    let chars = |text: &str| text.chars().collect::<Vec<char>>();
    let parent = |text: &str| {
        parent_of(&chars(text)).map(|dir| dir.iter().collect::<String>())
    };
    assert_eq!(Some("/hi".to_string()), parent("/hi/there"));
    assert_eq!(Some("/hi".to_string()), parent("/hi//there//"));
    assert_eq!(Some("/".to_string()), parent("/hi"));
    assert_eq!(Some("/".to_string()), parent("//hi"));
    assert_eq!(Some("".to_string()), parent("hi"));
    assert_eq!(Some("a".to_string()), parent("a/b"));
    assert_eq!(None, parent("/"));
    assert_eq!(None, parent("///"));
    assert_eq!(None, parent(""));
    assert_eq!(Some("/".to_string()), parent("/a/."));
    assert_eq!(Some("/a".to_string()), parent("/a/./b"));
    assert_eq!(Some("/a".to_string()), parent("/a/.././"));
    assert_eq!(Some("/a".to_string()), parent("/a/.b"));
    assert_eq!(Some("/".to_string()), parent("/./a"));
    assert_eq!(Some(".".to_string()), parent("./a"));
    assert_eq!(Some("".to_string()), parent("a/."));
    assert_eq!(Some("".to_string()), parent("."));
    assert_eq!(None, parent("/."));
    assert_eq!(None, parent("/./"));
    assert_eq!("./*", wildcard_of(&chars(".")));
    assert_eq!("*", wildcard_of(&chars("")));
    assert_eq!("/*", wildcard_of(&chars("/")));
    assert_eq!("/hi/*", wildcard_of(&chars("/hi")));
    assert_eq!("index.html", relative("/index.html"));
    assert_eq!("a/b", relative("///a/b"));
    assert_eq!("a/", relative("a/"));
    assert_eq!("", relative("/"));
}

#[test]
fn extensions_and_media_types() {
    assert_eq!(Some("html".to_string()), extension_of("/a.b/index.html"));
    assert_eq!(Some("gz".to_string()), extension_of("a.tar.gz"));
    assert_eq!(Some("".to_string()), extension_of("a."));
    assert_eq!(None, extension_of("/a.b/index"));
    assert_eq!(None, extension_of(".hidden"));
    assert_eq!(None, extension_of("dir/"));
    assert_eq!(None, extension_of(""));
    assert_eq!(MimeType::PNG, MimeType::from_path("/img/a.png"));
    assert_eq!(MimeType::PlainText, MimeType::from_path("/LICENSE"));
    assert_eq!(MimeType::JPEG, MimeType::from_extension("jpg"));
    assert_eq!(MimeType::JPEG, MimeType::from_extension("jpeg"));
    assert_eq!(MimeType::Json, MimeType::from_extension("json"));
    assert_eq!(MimeType::JavaScript, MimeType::from_extension("js"));
    assert_eq!(MimeType::CSS, MimeType::from_extension("css"));
    assert_eq!(MimeType::SVG, MimeType::from_extension("svg"));
    assert_eq!(MimeType::Icon, MimeType::from_extension("ico"));
    assert_eq!(MimeType::Binary, MimeType::from_extension("bin"));
    assert_eq!(MimeType::PlainText, MimeType::from_extension("HTML"));
}

#[test]
fn virtual_hosts_choose_the_document_root() {
    let mut hosts: TextMap<VirtualHost<(), &'static str>> = TextMap::new();
    let mut router: Router<(), &'static str> = Router::new(());
    router.add_route(Route::get("/hello", "hello"));
    hosts.put(
        "localhost".to_string(),
        VirtualHost::new("localhost", "0.0.0.0:80", "/var/www/local", router),
    );
    assert_eq!("/var/www/local", document_root(&hosts, "localhost", "./"));
    assert_eq!("./", document_root(&hosts, "example.org", "./"));
    assert_eq!("./", document_root(&hosts, "LOCALHOST", "./"));
    let host = hosts.get("localhost").unwrap();
    assert_eq!("localhost", host.hostname());
    assert_eq!("/var/www/local", host.root_dir());
    assert!(matches!(host.route(&request("/hello")), Resolution::Invoke(&"hello")));
    assert!(host.router().matching_route(Method::GET, "/hello").is_some());
}

struct Hello;

impl RequestResolver<()> for Hello {
    fn resolve(&self, _: State<()>, _: Request) -> Response {
        nucleus_http::response::respond::<String, String>(Ok("hello".to_owned()))
    }
}

struct Dynamic;

impl RequestResolver<()> for Dynamic {
    fn resolve(&self, _: State<()>, req: Request) -> Response {
        nucleus_http::response::respond::<String, String>(Ok(format!("Hello {}", req.path())))
    }
}

fn answer<R: RequestResolver<()>>(router: &Router<(), R>, request: &Request, file: &[u8]) -> Response {
    match router.route(request) {
        Resolution::Respond(response) => response,
        Resolution::ServeFile(path) => {
            router.file_response(&format!("./{}", path), FileOutcome::Found(file.to_vec()))
        }
        Resolution::Invoke(handler) => router.invoke(handler, request),
    }
}

#[test]
fn create_embedded_html_route() {
    let route: Route<()> = Route::embed("/test", b"<html></html>", MimeType::from_path("../index.html"));
    assert_eq!(route.path(), "/test", "route path incorrect");
    assert_eq!(*route.method(), Method::GET, "route method incorrect");
    if let RouteResolver::Embed(body, mime) = route.resolver() {
        assert_eq!(b"<html></html>", body, "embedded body incorect");
        assert_eq!(MimeType::HTML, *mime);
    } else {
        panic!("wrong route type");
    }
}

#[test]
fn route_static_file() {
    let request =
        Request::from_string("GET /index.html HTTP/1.1\r\nHost: localhost\r\n\r\n".to_owned())
            .unwrap();
    let mut router: Router<(), Hello> = Router::new(());
    router.add_route(Route::get_static("/", "index.html"));

    let file = "<html>index</html>".to_string();
    let mut expected = Response::from(file.clone());
    router.push_headers(&mut expected);
    assert_eq!(StatusCode::OK, expected.status());

    let response = answer(&router, &request, file.as_bytes());
    assert_eq!(expected, response);

    let request =
        Request::from_string("GET / HTTP/1.1\r\nHost: localhost\r\n\r\n".to_owned()).unwrap();
    let response = answer(&router, &request, file.as_bytes());
    assert_eq!(expected, response);
}

#[test]
fn route_basic() {
    let request =
        Request::from_string("GET / HTTP/1.1\r\nHost: localhost\r\n\r\n".to_owned()).unwrap();
    let mut router = Router::new(());
    router.add_route(Route::get("/", Hello));

    let mut expected = Response::from("hello");
    router.push_headers(&mut expected);
    assert_eq!(StatusCode::OK, expected.status());

    let response = answer(&router, &request, b"");
    assert_eq!(expected, response);
}

#[test]
fn route_dynamic() {
    let mut router = Router::new(());
    router.add_route(Route::get("/*", Dynamic));

    let mut expected = Response::from("Hello /bob");
    router.push_headers(&mut expected);
    assert_eq!(StatusCode::OK, expected.status());

    let request =
        Request::from_string("GET /bob HTTP/1.1\r\nHost: localhost\r\n\r\n".to_owned()).unwrap();
    let response = answer(&router, &request, b"");
    assert_eq!(expected, response);
}
