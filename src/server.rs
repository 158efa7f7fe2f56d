use vstd::prelude::*;

use crate::config::Config;
use crate::middleware::{chain_headers, headers_view, Chain, Middleware, Request, Response};
use crate::pool::{Pool, PoolError, Slot};

verus! {

/// Connections a server keeps at most, unless told otherwise.
pub const DEFAULT_MAX_SIZE: usize = 10;

/// How long a request waits for a connection, in milliseconds, unless told otherwise.
pub const DEFAULT_TIMEOUT_MS: u64 = 30000;

/// The running server: owns its settings, its connection pool and the
/// post-processing steps applied to every response.
pub struct Server<C> {
    pub config: Config,
    pub db_pool: Pool<C>,
    pub middleware: Chain,
}

impl<C> Server<C> {
    /// Composes a server around a pool, with the courtesy header step registered.
    pub fn new(config: Config, db_pool: Pool<C>) -> (r: Server<C>)
        ensures
            r.config == config,
            r.db_pool == db_pool,
            r.middleware.steps() == seq![Middleware::XClacksOverhead],
    {
        let mut middleware = Chain::new();
        middleware.register(Middleware::XClacksOverhead);
        Server { config, db_pool, middleware }
    }

    /// Post-processes a response produced for `req` before it leaves the server.
    pub fn finish(&self, req: &Request, res: Response) -> (r: Response)
        ensures
            r.status == res.status,
            r.body == res.body,
            headers_view(r.headers@) == chain_headers(
                self.middleware.steps(),
                headers_view(res.headers@),
            ),
    {
        self.middleware.apply_all(req, res)
    }
}

/// Instantiates a server from resolved settings and `first`, a connection
/// already opened to the configured database, with a pool of `max_size`
/// connections whose borrowers wait at most `timeout_ms`.
pub fn server<C>(config: Config, max_size: usize, timeout_ms: u64, first: C) -> (r: Result<
    Server<C>,
    PoolError,
>)
    ensures
        max_size == 0 <==> r is Err,
        r matches Err(e) ==> e == PoolError::InvalidMaxSize,
        r matches Ok(s) ==> {
            &&& s.config == config
            &&& s.db_pool.wf()
            &&& s.db_pool.max_size_spec() == max_size
            &&& s.db_pool.timeout_spec() == timeout_ms
            &&& s.db_pool.slots()[0] == Slot::Idle(first)
            &&& forall|i: int| 1 <= i < max_size ==> #[trigger] s.db_pool.slots()[i] is Vacant
            &&& s.middleware.steps() == seq![Middleware::XClacksOverhead]
        },
{
    match Pool::build(max_size, timeout_ms, first) {
        Ok(db_pool) => Ok(Server::new(config, db_pool)),
        Err(e) => Err(e),
    }
}

} // verus!
