//! Virtual hosts: host names and the document roots that serve them.

use crate::request::Request;
use crate::routes::{matching, resolved, Resolution, Router};
use crate::table::TextMap;
use vstd::prelude::*;
use vstd::string::StringExecFns;

verus! {

/// A virtual host: a host name, the directory that its files lie in, and
/// its router.
pub struct VirtualHost<S, R> {
    hostname: String,
    root_dir: String,
    router: Router<S, R>,
}

impl<S, R> View for VirtualHost<S, R> {
    type V = VirtualHost<S, R>;

    open spec fn view(&self) -> VirtualHost<S, R> {
        *self
    }
}

/// The document root for a host: that of the virtual host of this very
/// name, and the default root where there is none.
pub open spec fn root_for<S, R>(
    hosts: Map<Seq<char>, VirtualHost<S, R>>,
    host: Seq<char>,
    default_root: Seq<char>,
) -> Seq<char> {
    if hosts.contains_key(host) {
        hosts[host].root()
    } else {
        default_root
    }
}

impl<S, R> VirtualHost<S, R> {
    /// The host name.
    pub closed spec fn name(self) -> Seq<char> {
        self.hostname@
    }

    /// The document root.
    pub closed spec fn root(self) -> Seq<char> {
        self.root_dir@
    }

    /// The router.
    pub closed spec fn router_of(self) -> Router<S, R> {
        self.router
    }

    /// A virtual host. The address that it listens on plays no part.
    pub fn new(hostname: &str, _ip: &str, root_dir: &str, router: Router<S, R>) -> (host: Self)
        ensures
            host.name() == hostname@,
            host.root() == root_dir@,
            host.router_of() == router,
    {
        Self { hostname: String::from_str(hostname), root_dir: String::from_str(root_dir), router }
    }

    /// The host name.
    pub fn hostname(&self) -> (name: &str)
        ensures
            name@ == self.name(),
    {
        self.hostname.as_str()
    }

    /// The document root.
    pub fn root_dir(&self) -> (root: &str)
        ensures
            root@ == self.root(),
    {
        self.root_dir.as_str()
    }

    /// The router.
    pub fn router(&self) -> (router: &Router<S, R>)
        ensures
            *router == self.router_of(),
    {
        &self.router
    }

    /// What is to be done for a request to this host; files are to be read
    /// below its document root.
    pub fn route<'a>(&'a self, request: &Request) -> (resolution: Resolution<'a, R>)
        ensures
            resolved(
                matching(self.router_of().table(request@.method), request@.path),
                request@.path,
                self.router_of().defaults(),
                self.router_of().rules(),
                resolution,
            ),
    {
        self.router.route(request)
    }
}

/// The document root that serves a host.
pub fn document_root<'a, S, R>(
    hosts: &'a TextMap<VirtualHost<S, R>>,
    host: &str,
    default_root: &'a str,
) -> (root: &'a str)
    ensures
        root@ == root_for(hosts@, host@, default_root@),
{
    match hosts.get(host) {
        Some(found) => found.root_dir(),
        None => default_root,
    }
}

} // verus!
