//! Content-based router and routes: which processor an exchange goes to,
//! and the ordered processors of a route. Running the processors is left
//! to the caller; these types decide the selection and the order.
use vstd::prelude::*;
use crate::error::{err_view, Error, ErrorKind, Result};
use crate::message::{Exchange, ExchangeView};
use crate::text::{owned, text_eq};

verus! {

/// Target of the last registration of `value`.
pub open spec fn route_for<P>(routes: Seq<(Seq<char>, P)>, value: Seq<char>) -> Option<P>
    decreases routes.len(),
{
    if routes.len() == 0 {
        None
    } else if routes.last().0 == value {
        Some(routes.last().1)
    } else {
        route_for(routes.drop_last(), value)
    }
}

/// Routes an exchange by the value of one header; registering a value
/// again replaces the earlier target.
pub struct ContentBasedRouter<P> {
    header: String,
    routes: Vec<(String, P)>,
}

impl<P> ContentBasedRouter<P> {
    pub closed spec fn spec_header(&self) -> Seq<char> {
        self.header@
    }

    pub closed spec fn spec_routes(&self) -> Seq<(Seq<char>, P)> {
        self.routes@.map_values(|e: (String, P)| (e.0@, e.1))
    }

    /// A router on `header` (which must not be empty) without routes.
    pub fn new(header: &str) -> (r: Self)
        requires
            header@.len() > 0,
        ensures
            r.spec_header() == header@,
            r.spec_routes().len() == 0,
    {
        let r = ContentBasedRouter { header: owned(header), routes: Vec::new() };
        assert(r.spec_routes() =~= Seq::<(Seq<char>, P)>::empty());
        r
    }

    /// Send exchanges whose header equals `value` (not empty) to `target`.
    pub fn when(self, value: &str, target: P) -> (r: Self)
        requires
            value@.len() > 0,
        ensures
            r.spec_header() == self.spec_header(),
            r.spec_routes() == self.spec_routes().push((value@, target)),
    {
        let mut s = self;
        let ghost before = s.spec_routes();
        s.routes.push((owned(value), target));
        assert(s.spec_routes() =~= before.push((value@, target)));
        s
    }

    /// The header routed on.
    pub fn header(&self) -> (r: &str)
        ensures
            r@ == self.spec_header(),
    {
        self.header.as_str()
    }

    /// The target for an exchange: the one last registered for the value
    /// of its header; a missing header or unknown value is a routing error
    /// `no matching route`.
    pub fn select(&self, exchange: &Exchange) -> (r: Result<&P>)
        ensures
            ({
                let h = exchange@.in_msg.headers;
                let k = self.spec_header();
                match if h.contains_key(k) {
                    route_for(self.spec_routes(), h[k])
                } else {
                    None
                } {
                    Some(p) => r matches Ok(x) && *x == p,
                    None => r matches Err(e) && e@ == err_view(
                        ErrorKind::Routing,
                        "no matching route"@,
                    ),
                }
            }),
    {
        let ghost rv = self.spec_routes();
        match exchange.in_msg.header(self.header.as_str()) {
            Some(v) => {
                let mut i = self.routes.len();
                assert(rv.subrange(0, i as int) =~= rv);
                while i > 0
                    invariant
                        i <= self.routes.len(),
                        rv == self.spec_routes(),
                        rv.len() == self.routes.len(),
                        exchange@.in_msg.headers.contains_key(self.spec_header()),
                        exchange@.in_msg.headers[self.spec_header()] == v@,
                        route_for(rv, v@) == route_for(rv.subrange(0, i as int), v@),
                    decreases i,
                {
                    proof {
                        let s = rv.subrange(0, i as int);
                        assert(s.drop_last() =~= rv.subrange(0, i - 1));
                        assert(s.last() == (self.routes@[i - 1].0@, self.routes@[i - 1].1));
                    }
                    if text_eq(self.routes[i - 1].0.as_str(), v) {
                        return Ok(&self.routes[i - 1].1);
                    }
                    i = i - 1;
                }
                assert(rv.subrange(0, 0) =~= Seq::<(Seq<char>, P)>::empty());
                Err(Error::routing(owned("no matching route")))
            },
            None => Err(Error::routing(owned("no matching route"))),
        }
    }
}

/// An ordered list of processors, run one after the other until one fails.
pub struct Route<P> {
    processors: Vec<P>,
}

impl<P> Route<P> {
    pub closed spec fn spec_processors(&self) -> Seq<P> {
        self.processors@
    }

    /// No processors.
    pub fn new() -> (r: Self)
        ensures
            r.spec_processors().len() == 0,
    {
        Route { processors: Vec::new() }
    }

    /// Append a processor.
    pub fn add(self, p: P) -> (r: Self)
        ensures
            r.spec_processors() == self.spec_processors().push(p),
    {
        let mut s = self;
        s.processors.push(p);
        s
    }

    /// The finished route.
    pub fn build(self) -> (r: Self)
        ensures
            r.spec_processors() == self.spec_processors(),
    {
        self
    }

    /// The processors, in order.
    pub fn processors(&self) -> (r: &[P])
        ensures
            r@ == self.spec_processors(),
    {
        self.processors.as_slice()
    }
}

} // verus!
