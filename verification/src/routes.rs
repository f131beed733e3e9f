//! Routes and the router: which route answers a request, and what is to be
//! done for it.

use crate::http::{Header, Method, MimeType, StatusCode};
use crate::paths::{
    lemma_parent_is_shorter, parent, parent_of, relative, wildcard, wildcard_of, without_root,
};
use crate::request::Request;
use crate::response::{header_views, plain, Response, ResponseView};
use crate::state::State;
use crate::table::TextMap;
use crate::text::{chars_of, lowercase};
use vstd::prelude::*;
use vstd::slice::slice_to_vec;
use vstd::string::StringExecFns;
use vstd::utf8::encode_utf8;

verus! {

/// What answers the requests of a route.
pub enum RouteResolver<R> {
    /// A file below the document root.
    Static { file_path: String },
    /// A redirect to another address.
    Redirect(String),
    /// A handler of the application.
    Function(R),
    /// Bytes that the program carries, and their media type.
    Embed(&'static [u8], MimeType),
}

/// A route: a method, a path or a pattern that ends in `*`, and what
/// answers.
pub struct Route<R> {
    method: Method,
    path: String,
    resolver: RouteResolver<R>,
}

impl<R> View for Route<R> {
    type V = Route<R>;

    open spec fn view(&self) -> Route<R> {
        *self
    }
}

impl<R> Route<R> {
    /// The method of the route.
    pub closed spec fn method_of(self) -> Method {
        self.method
    }

    /// The path or pattern of the route.
    pub closed spec fn path_of(self) -> Seq<char> {
        self.path@
    }

    /// What answers the requests of the route.
    pub closed spec fn resolver_of(self) -> RouteResolver<R> {
        self.resolver
    }

    /// A route that redirects `GET` requests for a path to another address.
    pub fn redirect(path: &str, redirect_url: &str) -> (route: Self)
        ensures
            route.method_of() == Method::GET,
            route.path_of() == path@,
            route.resolver_of() matches RouteResolver::Redirect(target) && target@
                == redirect_url@,
    {
        Route {
            path: String::from_str(path),
            resolver: RouteResolver::Redirect(String::from_str(redirect_url)),
            method: Method::GET,
        }
    }

    /// A route that redirects `GET` requests for the root to another
    /// address: its pattern is the bare `*`.
    pub fn redirect_all(redirect_url: &str) -> (route: Self)
        ensures
            route.method_of() == Method::GET,
            route.path_of() == "*"@,
            route.resolver_of() matches RouteResolver::Redirect(target) && target@
                == redirect_url@,
    {
        Route {
            path: String::from_str("*"),
            resolver: RouteResolver::Redirect(String::from_str(redirect_url)),
            method: Method::GET,
        }
    }

    /// A route that hands `GET` requests for a path to a handler.
    pub fn get(path: &str, func: R) -> (route: Self)
        ensures
            route.method_of() == Method::GET,
            route.path_of() == path@,
            route.resolver_of() == RouteResolver::Function(func),
    {
        Route { path: String::from_str(path), resolver: RouteResolver::Function(func), method: Method::GET }
    }

    /// A route that hands `POST` requests for a path to a handler.
    pub fn post(path: &str, func: R) -> (route: Self)
        ensures
            route.method_of() == Method::POST,
            route.path_of() == path@,
            route.resolver_of() == RouteResolver::Function(func),
    {
        Route {
            path: String::from_str(path),
            resolver: RouteResolver::Function(func),
            method: Method::POST,
        }
    }

    /// A route that answers `GET` requests for a path with bytes that the
    /// program carries.
    pub fn embed(path: &str, body: &'static [u8], mime: MimeType) -> (route: Self)
        ensures
            route.method_of() == Method::GET,
            route.path_of() == path@,
            route.resolver_of() == RouteResolver::<R>::Embed(body, mime),
    {
        Route { method: Method::GET, path: String::from_str(path), resolver: RouteResolver::Embed(body, mime) }
    }

    /// A route that answers `GET` requests for a path with a file:
    /// `file_path` is the path of the file below the document root, without
    /// a leading slash.
    pub fn get_static(path: &str, file_path: &str) -> (route: Self)
        ensures
            route.method_of() == Method::GET,
            route.path_of() == path@,
            route.resolver_of() matches RouteResolver::Static { file_path: file } && file@
                == file_path@,
    {
        Route {
            path: String::from_str(path),
            resolver: RouteResolver::Static { file_path: String::from_str(file_path) },
            method: Method::GET,
        }
    }

    /// The method of the route.
    pub fn method(&self) -> (method: &Method)
        ensures
            *method == self.method_of(),
    {
        &self.method
    }

    /// What answers the requests of the route.
    pub fn resolver(&self) -> (resolver: &RouteResolver<R>)
        ensures
            *resolver == self.resolver_of(),
    {
        &self.resolver
    }

    /// The path or pattern of the route.
    pub fn path(&self) -> (path: &str)
        ensures
            path@ == self.path_of(),
    {
        self.path.as_str()
    }

    /// Whether the route is for the method of a request and either for its
    /// very path or for all paths.
    pub fn matches_request(&self, request: &Request) -> (matches: bool)
        ensures
            matches == (request@.method == self.method_of() && (request@.path == self.path_of()
                || self.path_of() == "*"@)),
    {
        if *request.method() != self.method {
            return false;
        }
        request.path().eq(self.path.as_str()) || self.path.as_str().eq("*")
    }
}

/// A handler of an application: it answers a request, given the state.
pub trait RequestResolver<S> {
    /// Answers a request.
    fn resolve(&self, state: State<S>, request: Request) -> Response;
}

/// The routes of one method, under their paths and patterns.
pub type RouteTable<R> = Map<Seq<char>, Route<R>>;

/// The route that covers a directory or one that it lies in: the wildcard
/// route of the directory itself if there is one, and else that of the
/// nearest directory above it that has one.
pub open spec fn covering<R>(table: RouteTable<R>, dir: Seq<char>) -> Option<Route<R>>
    decreases dir.len(),
{
    if table.contains_key(wildcard(dir)) {
        Some(table[wildcard(dir)])
    } else {
        match parent(dir) {
            Some(above) => if above.len() < dir.len() {
                covering(table, above)
            } else {
                None
            },
            None => None,
        }
    }
}

/// The route that answers a path: the route registered for the very path;
/// else the wildcard route that covers the directory that the path lies in;
/// and for a path that lies in no directory, the route of the bare `*`.
pub open spec fn matching<R>(table: RouteTable<R>, path: Seq<char>) -> Option<Route<R>> {
    if table.contains_key(path) {
        Some(table[path])
    } else {
        match parent(path) {
            Some(dir) => covering(table, dir),
            None => if table.contains_key("*"@) {
                Some(table["*"@])
            } else {
                None
            },
        }
    }
}

/// The headers that go with a media type: those of the rules for that type,
/// in the order of the rules.
pub open spec fn rule_headers(
    rules: Seq<(MimeType, (Seq<char>, Seq<char>))>,
    mime: MimeType,
) -> Seq<(Seq<char>, Seq<char>)>
    decreases rules.len(),
{
    if rules.len() == 0 {
        Seq::empty()
    } else if rules.last().0.same(mime) {
        rule_headers(rules.drop_last(), mime).push(rules.last().1)
    } else {
        rule_headers(rules.drop_last(), mime)
    }
}

/// A response with the headers of the router added: after its own headers
/// come the default headers, then those for its media type.
pub open spec fn finished(
    response: ResponseView,
    defaults: Seq<(Seq<char>, Seq<char>)>,
    rules: Seq<(MimeType, (Seq<char>, Seq<char>))>,
) -> ResponseView {
    ResponseView {
        headers: response.headers + defaults + rule_headers(rules, response.mime),
        ..response
    }
}

/// The rules of a list of media types and headers.
pub open spec fn rule_views(rules: Seq<(MimeType, Header)>) -> Seq<
    (MimeType, (Seq<char>, Seq<char>)),
> {
    Seq::new(rules.len(), |i: int| (rules[i].0, rules[i].1@))
}

/// How reading a file went.
pub enum FileOutcome {
    /// The file was read: its contents.
    Found(Vec<u8>),
    /// The file may not be read.
    PermissionDenied,
    /// The file is not there, or could not be read for another reason.
    Failed,
}

/// The response to a request for a file, before the router adds its
/// headers: the contents with the media type of the file's name, or an
/// error that tells nothing of the cause beyond its kind.
pub open spec fn file_answer(path: Seq<char>, outcome: FileOutcome) -> ResponseView {
    match outcome {
        FileOutcome::Found(contents) => plain(StatusCode::OK, contents@, MimeType::of_path(path)),
        FileOutcome::PermissionDenied => plain(
            StatusCode::ErrForbidden,
            encode_utf8("Permission Denied"@),
            MimeType::PlainText,
        ),
        FileOutcome::Failed => plain(
            StatusCode::ErrNotFound,
            encode_utf8("Static File Not Found"@),
            MimeType::PlainText,
        ),
    }
}

/// The response that redirects to an address, before the router adds its
/// headers.
pub open spec fn redirect_answer() -> ResponseView {
    plain(StatusCode::MovedPermanetly, Seq::empty(), MimeType::PlainText)
}

/// What is to be done for a request.
pub enum Resolution<'a, R> {
    /// Send this response.
    Respond(Response),
    /// Read this file below the document root, and send what
    /// `file_response` makes of the outcome.
    ServeFile(String),
    /// Call this handler, and send what `finish` makes of its response.
    Invoke(&'a R),
}

/// What is to be done for a path, given the route that answers it if there
/// is one: a file route and a path without a route ask for a file; a
/// redirect and embedded bytes give the response; a handler is to be called.
pub open spec fn resolved<'a, R>(
    found: Option<Route<R>>,
    path: Seq<char>,
    defaults: Seq<(Seq<char>, Seq<char>)>,
    rules: Seq<(MimeType, (Seq<char>, Seq<char>))>,
    resolution: Resolution<'a, R>,
) -> bool {
    match found {
        None => resolution matches Resolution::ServeFile(file) && file@ == without_root(path),
        Some(route) => match route.resolver_of() {
            RouteResolver::Static { file_path } => resolution matches Resolution::ServeFile(file)
                && file@ == file_path@,
            RouteResolver::Redirect(target) => resolution matches Resolution::Respond(response)
                && response@ == (ResponseView {
                headers: finished(redirect_answer(), defaults, rules).headers.push(
                    (lowercase("Location"@), target@),
                ),
                ..redirect_answer()
            }),
            RouteResolver::Function(handler) => resolution matches Resolution::Invoke(chosen)
                && *chosen == handler,
            RouteResolver::Embed(body, mime) => resolution matches Resolution::Respond(response)
                && response@ == finished(plain(StatusCode::OK, body@, mime), defaults, rules),
        },
    }
}

/// The router: the routes of each method, the state of the application,
/// and the headers that it adds to every response.
pub struct Router<S, R> {
    get_routes: TextMap<Route<R>>,
    post_routes: TextMap<Route<R>>,
    state: State<S>,
    mime_headers: Vec<(MimeType, Header)>,
    default_headers: Vec<Header>,
}

impl<S, R> Router<S, R> {
    /// The routes of a method.
    pub closed spec fn table(self, method: Method) -> RouteTable<R> {
        match method {
            Method::GET => self.get_routes@,
            Method::POST => self.post_routes@,
        }
    }

    /// The headers that every response gets.
    pub closed spec fn defaults(self) -> Seq<(Seq<char>, Seq<char>)> {
        header_views(self.default_headers@)
    }

    /// The headers that the responses of one media type get.
    pub closed spec fn rules(self) -> Seq<(MimeType, (Seq<char>, Seq<char>))> {
        rule_views(self.mime_headers@)
    }

    /// The state of the application.
    pub closed spec fn state_of(self) -> State<S> {
        self.state
    }

    /// A router without routes, whose responses name the server.
    pub fn new(state: S) -> (router: Self)
        ensures
            router.table(Method::GET) == Map::<Seq<char>, Route<R>>::empty(),
            router.table(Method::POST) == Map::<Seq<char>, Route<R>>::empty(),
            router.state_of() == State(state),
            router.defaults() == seq![("Server"@, "nucleus-http 0.1.0"@)],
            router.rules() == Seq::<(MimeType, (Seq<char>, Seq<char>))>::empty(),
    {
        let router = Router {
            get_routes: Self::new_routes(),
            post_routes: Self::new_routes(),
            state: State(state),
            mime_headers: Vec::new(),
            default_headers: Header::new_server(),
        };
        proof {
            assert(router.defaults() =~= seq![("Server"@, "nucleus-http 0.1.0"@)]);
            assert(router.rules() =~= Seq::<(MimeType, (Seq<char>, Seq<char>))>::empty());
        }
        router
    }

    /// Registers a route under its method and path, in place of an earlier
    /// route with both the same.
    pub fn add_route(&mut self, route: Route<R>)
        ensures
            final(self).table(route.method_of()) == old(self).table(route.method_of()).insert(
                route.path_of(),
                route,
            ),
            forall|method: Method|
                method != route.method_of() ==> final(self).table(method) == old(self).table(
                    method,
                ),
            final(self).defaults() == old(self).defaults(),
            final(self).rules() == old(self).rules(),
            final(self).state_of() == old(self).state_of(),
    {
        let key = String::from_str(route.path());
        match route.method {
            Method::GET => self.get_routes.put(key, route),
            Method::POST => self.post_routes.put(key, route),
        }
    }

    /// The state of the application.
    pub fn state(&self) -> (state: &State<S>)
        ensures
            *state == self.state_of(),
    {
        &self.state
    }

    /// Adds a header that every response gets.
    pub fn add_default_header(&mut self, header: Header)
        ensures
            final(self).defaults() == old(self).defaults().push(header@),
            final(self).rules() == old(self).rules(),
            final(self).state_of() == old(self).state_of(),
            forall|method: Method| final(self).table(method) == old(self).table(method),
    {
        self.default_headers.push(header);
        proof {
            assert(self.defaults() =~= old(self).defaults().push(header@));
        }
    }

    /// Adds a header that every response of one media type gets.
    pub fn add_mime_header(&mut self, header: Header, mime: MimeType)
        ensures
            final(self).rules() == old(self).rules().push((mime, header@)),
            final(self).defaults() == old(self).defaults(),
            final(self).state_of() == old(self).state_of(),
            forall|method: Method| final(self).table(method) == old(self).table(method),
    {
        self.mime_headers.push((mime, header));
        proof {
            assert(self.rules() =~= old(self).rules().push((mime, header@)));
        }
    }

    /// Adds the headers of the router to a response: the default headers,
    /// then those for its media type.
    pub fn push_headers(&self, response: &mut Response)
        ensures
            final(response)@ == finished(old(response)@, self.defaults(), self.rules()),
    {
        let ghost start = response@;
        let mut i: usize = 0;
        while i < self.default_headers.len()
            invariant
                i <= self.default_headers@.len(),
                response@ == (ResponseView {
                    headers: start.headers + self.defaults().take(i as int),
                    ..start
                }),
            decreases self.default_headers@.len() - i,
        {
            response.add_header(&self.default_headers[i]);
            proof {
                assert(start.headers + self.defaults().take(i + 1) =~= (start.headers
                    + self.defaults().take(i as int)).push(self.default_headers@[i as int]@));
            }
            i += 1;
        }
        proof {
            assert(self.defaults().take(self.default_headers@.len() as int) =~= self.defaults());
        }
        let mime = response.mime();
        let mut j: usize = 0;
        while j < self.mime_headers.len()
            invariant
                j <= self.mime_headers@.len(),
                mime == start.mime,
                response@ == (ResponseView {
                    headers: start.headers + self.defaults() + rule_headers(
                        self.rules().take(j as int),
                        mime,
                    ),
                    ..start
                }),
            decreases self.mime_headers@.len() - j,
        {
            proof {
                assert(self.rules().take(j + 1).drop_last() =~= self.rules().take(j as int));
                assert(self.rules().take(j + 1).last() == (
                    self.mime_headers@[j as int].0,
                    self.mime_headers@[j as int].1@,
                ));
            }
            if self.mime_headers[j].0.same_as(&mime) {
                response.add_header(&self.mime_headers[j].1);
                proof {
                    assert(start.headers + self.defaults() + rule_headers(
                        self.rules().take(j + 1),
                        mime,
                    ) =~= (start.headers + self.defaults() + rule_headers(
                        self.rules().take(j as int),
                        mime,
                    )).push(self.mime_headers@[j as int].1@));
                }
            }
            j += 1;
        }
        proof {
            assert(self.rules().take(self.mime_headers@.len() as int) =~= self.rules());
        }
    }
}

impl<S, R> Router<S, R> {
    /// A table without routes.
    pub fn new_routes() -> (routes: TextMap<Route<R>>)
        ensures
            routes@ == Map::<Seq<char>, Route<R>>::empty(),
    {
        TextMap::new()
    }

    /// The routes of a method.
    pub fn routes(&self, method: Method) -> (routes: &TextMap<Route<R>>)
        ensures
            routes@ == self.table(method),
    {
        match method {
            Method::GET => &self.get_routes,
            Method::POST => &self.post_routes,
        }
    }

    /// The route that answers a path for a method, if there is one.
    pub fn matching_route(&self, method: Method, path: &str) -> (found: Option<&Route<R>>)
        ensures
            matching(self.table(method), path@) == match found {
                Some(route) => Some(*route),
                None => None,
            },
    {
        let routes = self.routes(method);
        match routes.get(path) {
            Some(route) => {
                return Some(route);
            },
            None => {},
        }
        let chars = chars_of(path);
        let mut dir = match parent_of(chars.as_slice()) {
            Some(dir) => dir,
            None => {
                return routes.get("*");
            },
        };
        loop
            invariant
                routes@ == self.table(method),
                matching(self.table(method), path@) == covering(routes@, dir@),
            decreases dir@.len(),
        {
            let pattern = wildcard_of(dir);
            match routes.get(pattern.as_str()) {
                Some(route) => {
                    return Some(route);
                },
                None => {},
            }
            match parent_of(dir) {
                Some(above) => {
                    dir = above;
                },
                None => {
                    return None;
                },
            }
        }
    }

    /// What is to be done for a request.
    pub fn route<'a>(&'a self, request: &Request) -> (resolution: Resolution<'a, R>)
        ensures
            resolved(
                matching(self.table(request@.method), request@.path),
                request@.path,
                self.defaults(),
                self.rules(),
                resolution,
            ),
    {
        match self.matching_route(*request.method(), request.path()) {
            None => Resolution::ServeFile(relative(request.path())),
            Some(route) => match &route.resolver {
                RouteResolver::Static { file_path } => Resolution::ServeFile(file_path.clone()),
                RouteResolver::Redirect(target) => {
                    let mut response = Response::new(
                        StatusCode::MovedPermanetly,
                        Vec::new(),
                        MimeType::PlainText,
                    );
                    self.push_headers(&mut response);
                    response.add_header(("Location", target));
                    Resolution::Respond(response)
                },
                RouteResolver::Function(handler) => Resolution::Invoke(handler),
                RouteResolver::Embed(body, mime) => {
                    let mut response = Response::new(StatusCode::OK, slice_to_vec(*body), *mime);
                    self.push_headers(&mut response);
                    Resolution::Respond(response)
                },
            },
        }
    }

    /// The response to send after a handler has answered: its response with
    /// the headers of the router added.
    pub fn finish(&self, response: Response) -> (sent: Response)
        ensures
            sent@ == finished(response@, self.defaults(), self.rules()),
    {
        let mut sent = response;
        self.push_headers(&mut sent);
        sent
    }

    /// The response to a request for a file, given the path of the file and
    /// how reading it went.
    pub fn file_response(&self, path: &str, outcome: FileOutcome) -> (response: Response)
        ensures
            response@ == finished(file_answer(path@, outcome), self.defaults(), self.rules()),
    {
        let answer = match outcome {
            FileOutcome::Found(contents) => Response::new(
                StatusCode::OK,
                contents,
                MimeType::from_path(path),
            ),
            FileOutcome::PermissionDenied => Response::error(
                StatusCode::ErrForbidden,
                slice_to_vec("Permission Denied".as_bytes()),
            ),
            FileOutcome::Failed => Response::error(
                StatusCode::ErrNotFound,
                slice_to_vec("Static File Not Found".as_bytes()),
            ),
        };
        self.finish(answer)
    }
}

impl<S: Clone, R: RequestResolver<S>> Router<S, R> {
    /// Calls a handler for a request, with a copy of the state, and adds
    /// the headers of the router to its response: what is sent is what the
    /// handler answered to some state and request, with those headers.
    pub fn invoke(&self, handler: &R, request: &Request) -> (sent: Response)
        ensures
            exists|state: State<S>, asked: Request, answer: Response|
                call_ensures(R::resolve, (handler, state, asked), answer) && sent@ == finished(
                    answer@,
                    self.defaults(),
                    self.rules(),
                ),
    {
        let state = State(self.state.0.clone());
        let asked = request.clone();
        let answer = handler.resolve(state, asked);
        let ghost answered = answer;
        let sent = self.finish(answer);
        assert(call_ensures(R::resolve, (handler, state, asked), answered) && sent@ == finished(
            answered@,
            self.defaults(),
            self.rules(),
        ));
        sent
    }
}

/// An exact route wins: where a route is registered for the very path, it
/// answers the path, whatever wildcard routes there are.
pub proof fn lemma_exact_route_wins<R>(table: RouteTable<R>, path: Seq<char>)
    requires
        table.contains_key(path),
    ensures
        matching(table, path) == Some(table[path]),
{
}

/// A wildcard route answers what lies right below it: where no route is
/// registered for the very path, and the path lies in a directory whose
/// wildcard route is registered, that route answers the path.
pub proof fn lemma_wildcard_answers<R>(table: RouteTable<R>, path: Seq<char>, dir: Seq<char>)
    requires
        !table.contains_key(path),
        parent(path) == Some(dir),
        table.contains_key(wildcard(dir)),
    ensures
        matching(table, path) == Some(table[wildcard(dir)]),
{
}

/// The nearest wildcard wins: where the directory of a path has no
/// wildcard route of its own, the path is answered as that directory is
/// covered from above.
pub proof fn lemma_wildcard_from_above<R>(
    table: RouteTable<R>,
    path: Seq<char>,
    dir: Seq<char>,
    above: Seq<char>,
)
    requires
        !table.contains_key(path),
        parent(path) == Some(dir),
        !table.contains_key(wildcard(dir)),
        parent(dir) == Some(above),
    ensures
        matching(table, path) == covering(table, above),
{
    lemma_parent_is_shorter(dir);
}

} // verus!
