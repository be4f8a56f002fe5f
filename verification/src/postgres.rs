//! Connections to servers: one pool of connections for each server, the
//! statements in flight that can be cancelled, and how a statement is to be
//! executed.
use crate::error::{server_error_text, Diagnostic, EngineError, ServerError};
use crate::registry::Registry;
use crate::sql::{is_query, is_read_only_head, quote_ident, quoted_ident, sql_head};
use vstd::prelude::*;

verus! {

/// `CancelToken` of tokio-postgres: what it takes to ask a server to
/// cancel the statement that runs on one connection.
#[verifier::external_type_specification]
#[verifier::external_body]
pub struct ExCancelToken(tokio_postgres::CancelToken);

/// `Error` of tokio-postgres.
#[verifier::external_type_specification]
#[verifier::external_body]
pub struct ExPostgresError(tokio_postgres::Error);

/// `CreatePoolError` of deadpool: why a pool cannot be made.
#[verifier::external_type_specification]
#[verifier::external_body]
#[verifier::reject_recursive_types(C)]
pub struct ExCreatePoolError<C>(deadpool::managed::CreatePoolError<C>);

/// `ConfigError` of deadpool-postgres.
#[verifier::external_type_specification]
#[verifier::external_body]
pub struct ExConfigError(deadpool_postgres::ConfigError);

/// A handle to the pool of connections of one server: a `Pool` of
/// deadpool-postgres. Handles to one pool are equal.
///
/// The pool is held here and not named in signatures, because its type is
/// bound by a trait of deadpool.
#[verifier::external_body]
pub struct PoolHandle {
    pub pool: deadpool_postgres::Pool,
}

/// The numbers that a pool reports of itself.
#[derive(Clone, Copy, Debug, PartialEq, Eq, Structural)]
pub struct PoolStatus {
    /// The most connections that the pool will hold.
    pub max_size: usize,
    /// The connections that the pool holds.
    pub size: usize,
    /// Those of them that nobody has checked out.
    pub available: usize,
    /// The callers that wait for a connection.
    pub waiting: usize,
}

/// The most connections that a pool holds at a time.
pub const MAX_POOL_SIZE: usize = 10;

/// How many seconds pass between two sweeps for idle pools.
pub const CLEANUP_INTERVAL_SECONDS: u64 = 300;

/// The most connections that the pool `pool` was made to hold.
pub uninterp spec fn pool_limit(pool: PoolHandle) -> nat;

/// `Config::create_pool` of deadpool-postgres, for one host, port, user,
/// password and database, with fast recycling, the tokio runtime, no TLS,
/// no timeouts and at most `max_size` connections, which is the limit that
/// the pool is made with. It opens no connection. It refuses a
/// configuration without a database name, and no other.
#[verifier::external_body]
fn create_pool(
    host: &str,
    port: u16,
    user: &str,
    password: &str,
    dbname: &str,
    max_size: usize,
) -> (r: Result<PoolHandle, deadpool_postgres::CreatePoolError>)
    requires
        max_size <= 0x1_0000,
    ensures
        r is Err <==> dbname@.len() == 0,
        r is Ok ==> pool_limit(r->Ok_0) == max_size,
{
    let mut cfg = deadpool_postgres::Config::new();
    cfg.host = Some(host.to_string());
    cfg.port = Some(port);
    cfg.user = Some(user.to_string());
    cfg.password = Some(password.to_string());
    cfg.dbname = Some(dbname.to_string());
    cfg.manager = Some(deadpool_postgres::ManagerConfig {
        recycling_method: deadpool_postgres::RecyclingMethod::Fast,
    });
    cfg.pool = Some(deadpool_postgres::PoolConfig::new(max_size));
    let pool = cfg.create_pool(Some(deadpool_postgres::Runtime::Tokio1), tokio_postgres::NoTls)?;
    Ok(PoolHandle { pool })
}

/// `Pool::clone` of deadpool: another handle to the same pool.
#[verifier::external_body]
fn clone_pool(handle: &PoolHandle) -> (r: PoolHandle)
    ensures
        r == *handle,
{
    PoolHandle { pool: handle.pool.clone() }
}

/// `Pool::status` of deadpool: the numbers of the pool at this moment.
#[verifier::external_body]
fn pool_status(handle: &PoolHandle) -> (status: PoolStatus) {
    let status = handle.pool.status();
    PoolStatus {
        max_size: status.max_size,
        size: status.size,
        available: status.available,
        waiting: status.waiting,
    }
}

/// The words of deadpool's `CreatePoolError`.
#[verifier::external_body]
fn pool_error_text(error: &deadpool_postgres::CreatePoolError) -> (text: String) {
    error.to_string()
}

/// `CancelToken::clone` of tokio-postgres: a token for the same connection.
#[verifier::external_body]
fn clone_token(token: &tokio_postgres::CancelToken) -> (r: tokio_postgres::CancelToken)
    ensures
        r == *token,
{
    token.clone()
}

/// What tokio-postgres's `Error` holds: the fields of its `DbError` where
/// the server sent one (`Error::as_db_error`), its own words otherwise.
#[verifier::external_body]
fn error_fields(error: &tokio_postgres::Error) -> (r: ServerError) {
    match error.as_db_error() {
        Some(db) => ServerError::Database(
            Diagnostic {
                code: db.code().code().to_string(),
                message: db.message().to_string(),
                detail: db.detail().map(str::to_string),
                hint: db.hint().map(str::to_string),
                location: db.where_().map(str::to_string),
            },
        ),
        None => ServerError::Other(error.to_string()),
    }
}

/// The failure that `error` reports, as plain data.
pub fn server_error(error: &tokio_postgres::Error) -> (r: ServerError) {
    error_fields(error)
}

/// The report of the failure `error`: code and message of the server's
/// diagnostic, then its detail, hint and location, where the server sent
/// one; the words of the connection otherwise. See [`server_error_text`].
pub fn format_pg_error(error: &ServerError) -> (text: String)
    ensures
        text@ == server_error_text(*error),
{
    error.message()
}

/// The pools of connections, one for each server identity.
pub struct Pools {
    pools: Registry<PoolHandle>,
}

impl Pools {
    /// Whether each server has one pool at most, made to hold
    /// [`MAX_POOL_SIZE`] connections at most.
    pub closed spec fn wf(&self) -> bool {
        &&& self.pools.wf()
        &&& forall|id: Seq<char>| #[trigger]
            self.pools@.contains_key(id) ==> pool_limit(self.pools@[id]) == MAX_POOL_SIZE
    }

    /// The pool of each server that has one.
    pub closed spec fn view(&self) -> Map<Seq<char>, PoolHandle> {
        self.pools@
    }

    /// Every pool held is made to hold [`MAX_POOL_SIZE`] connections at
    /// most.
    pub proof fn lemma_pools_are_bounded(&self, server_id: Seq<char>)
        requires
            self.wf(),
            self@.contains_key(server_id),
        ensures
            pool_limit(self@[server_id]) == MAX_POOL_SIZE,
    {
    }

    /// No pools.
    pub fn new() -> (pools: Pools)
        ensures
            pools.wf(),
            pools@ == Map::<Seq<char>, PoolHandle>::empty(),
    {
        Pools { pools: Registry::new() }
    }

    /// Whether the server `server_id` has a pool.
    pub fn contains(&self, server_id: &str) -> (b: bool)
        ensures
            b == self@.contains_key(server_id@),
    {
        self.pools.contains(server_id)
    }

    /// The servers that have a pool.
    pub fn server_ids(&self) -> (ids: Vec<String>)
        ensures
            forall|id: Seq<char>|
                self@.contains_key(id) <==> exists|i: int|
                    0 <= i < ids@.len() && (#[trigger] ids@[i])@ == id,
    {
        self.pools.keys()
    }
}

/// Whether an acquisition for `server_id` that finds the pools `before`
/// may return `pool` and leave the pools `after`: it returns the pool that
/// the server has, and changes nothing; or the server has none, and the
/// pool returned is its pool from now on.
pub open spec fn acquired(
    before: Map<Seq<char>, PoolHandle>,
    server_id: Seq<char>,
    pool: PoolHandle,
    after: Map<Seq<char>, PoolHandle>,
) -> bool {
    if before.contains_key(server_id) {
        pool == before[server_id] && after == before
    } else {
        after == before.insert(server_id, pool)
    }
}

/// The pool of the server `server_id`: the one it has, or else a new one
/// for the given host, port, user, password and database, which is the
/// server's pool from then on. No connection is opened. Every pool holds
/// [`MAX_POOL_SIZE`] connections at most.
///
/// It fails only where the server has no pool yet and none can be made,
/// which is so exactly where `dbname` is empty; the pools are then as
/// before.
pub fn get_or_create_pool(
    pools: &mut Pools,
    server_id: &str,
    host: &str,
    port: u16,
    user: &str,
    password: &str,
    dbname: &str,
) -> (r: Result<PoolHandle, EngineError>)
    requires
        old(pools).wf(),
    ensures
        final(pools).wf(),
        r is Err <==> !old(pools)@.contains_key(server_id@) && dbname@.len() == 0,
        match r {
            Ok(pool) => acquired(old(pools)@, server_id@, pool, final(pools)@) && pool_limit(pool)
                == MAX_POOL_SIZE,
            Err(e) => e is ConnectionFailure && final(pools)@ == old(pools)@,
        },
{
    match pools.pools.get(server_id) {
        Some(pool) => {
            return Ok(clone_pool(pool));
        },
        None => {},
    }
    match create_pool(host, port, user, password, dbname, MAX_POOL_SIZE) {
        Ok(pool) => {
            let handle = clone_pool(&pool);
            pools.pools.insert(server_id, pool);
            Ok(handle)
        },
        Err(e) => Err(EngineError::ConnectionFailure(pool_error_text(&e))),
    }
}

/// Acquiring again yields the same pool: once a server has a pool, every
/// later acquisition for it returns that pool and leaves the pools as they
/// are. However many callers ask, whatever their order, one pool is made.
pub proof fn lemma_one_pool_per_server(
    before: Map<Seq<char>, PoolHandle>,
    server_id: Seq<char>,
    first: PoolHandle,
    between: Map<Seq<char>, PoolHandle>,
    second: PoolHandle,
    after: Map<Seq<char>, PoolHandle>,
)
    requires
        acquired(before, server_id, first, between),
        acquired(between, server_id, second, after),
    ensures
        second == first,
        after == between,
        between.contains_key(server_id) && between[server_id] == first,
        forall|other: Seq<char>|
            other != server_id ==> (between.contains_key(other) <==> before.contains_key(other)),
{
}

/// Whether the pools `states` and the handles `handles` can be those of
/// one acquisition after the other for `server_id`: `handles[i]` is what
/// the acquisition returns that finds `states[i]` and leaves
/// `states[i + 1]`.
pub open spec fn acquired_in_turn(
    states: Seq<Map<Seq<char>, PoolHandle>>,
    server_id: Seq<char>,
    handles: Seq<PoolHandle>,
) -> bool {
    &&& states.len() == handles.len() + 1
    &&& forall|i: int|
        0 <= i < handles.len() ==> acquired(
            #[trigger] states[i],
            server_id,
            handles[i],
            states[i + 1],
        )
}

/// Any number of acquisitions for one server, in any order, return
/// handles to one pool, and after the first of them the pools do not
/// change.
pub proof fn lemma_first_acquisition_wins(
    states: Seq<Map<Seq<char>, PoolHandle>>,
    server_id: Seq<char>,
    handles: Seq<PoolHandle>,
    at: int,
)
    requires
        acquired_in_turn(states, server_id, handles),
        0 <= at < handles.len(),
    ensures
        handles[at] == handles[0],
        states[at + 1] == states[1],
        states[1].contains_key(server_id) && states[1][server_id] == handles[0],
    decreases at,
{
    assert(acquired(states[0], server_id, handles[0], states[1]));
    if at > 0 {
        lemma_first_acquisition_wins(states, server_id, handles, at - 1);
        assert(acquired(states[at], server_id, handles[at], states[at + 1]));
    }
}

/// Whether a pool with the numbers `status` is idle: every connection it
/// holds is checked in, and nobody waits for one.
pub open spec fn is_idle(status: PoolStatus) -> bool {
    status.available == status.size && status.waiting == 0
}

/// Decides [`is_idle`].
pub fn idle(status: &PoolStatus) -> (b: bool)
    ensures
        b == is_idle(*status),
{
    status.available == status.size && status.waiting == 0
}

/// Takes the pools of the servers `server_ids` out of `pools`.
pub fn evict(pools: &mut Pools, server_ids: &Vec<String>)
    requires
        old(pools).wf(),
    ensures
        final(pools).wf(),
        forall|id: Seq<char>| #[trigger]
            final(pools)@.contains_key(id) <==> old(pools)@.contains_key(id) && !exists|i: int|
                0 <= i < server_ids@.len() && (#[trigger] server_ids@[i])@ == id,
        forall|id: Seq<char>| #[trigger]
            final(pools)@.contains_key(id) ==> final(pools)@[id] == old(pools)@[id],
{
    let mut i: usize = 0;
    while i < server_ids.len()
        invariant
            i <= server_ids@.len(),
            pools.wf(),
            forall|id: Seq<char>| #[trigger]
                pools@.contains_key(id) <==> old(pools)@.contains_key(id) && !exists|j: int|
                    0 <= j < i && (#[trigger] server_ids@[j])@ == id,
            forall|id: Seq<char>| #[trigger]
                pools@.contains_key(id) ==> pools@[id] == old(pools)@[id],
        decreases server_ids@.len() - i,
    {
        let ghost before = pools@;
        let _ = pools.pools.remove(server_ids[i].as_str());
        assert forall|id: Seq<char>| #[trigger]
            pools@.contains_key(id) <==> old(pools)@.contains_key(id) && !exists|j: int|
                0 <= j < i + 1 && (#[trigger] server_ids@[j])@ == id by {
            if id == server_ids@[i as int]@ {
            } else {
                assert(pools@.contains_key(id) == before.contains_key(id));
                if exists|j: int| 0 <= j < i + 1 && (#[trigger] server_ids@[j])@ == id {
                    let j = choose|j: int| 0 <= j < i + 1 && (#[trigger] server_ids@[j])@ == id;
                    assert(j < i);
                }
            }
        }
        i += 1;
    }
}

/// The numbers of each pool at this moment, by server: one entry for
/// each server that has a pool.
pub fn pool_statuses(pools: &Pools) -> (statuses: Vec<(String, PoolStatus)>)
    requires
        pools.wf(),
    ensures
        forall|id: Seq<char>|
            pools@.contains_key(id) <==> exists|i: int|
                0 <= i < statuses@.len() && (#[trigger] statuses@[i]).0@ == id,
{
    let ids = pools.pools.keys();
    let mut statuses: Vec<(String, PoolStatus)> = Vec::new();
    let mut i: usize = 0;
    while i < ids.len()
        invariant
            i <= ids@.len(),
            pools.wf(),
            statuses@.len() == i,
            forall|id: Seq<char>|
                pools@.contains_key(id) <==> exists|k: int|
                    0 <= k < ids@.len() && (#[trigger] ids@[k])@ == id,
            forall|j: int| 0 <= j < i ==> (#[trigger] statuses@[j]).0@ == ids@[j]@,
        decreases ids@.len() - i,
    {
        assert(pools@.contains_key(ids@[i as int]@));
        match pools.pools.get(ids[i].as_str()) {
            Some(pool) => {
                let status = pool_status(pool);
                let id = ids[i].clone();
                statuses.push((id, status));
            },
            None => {},
        }
        i += 1;
    }
    proof {
        assert forall|id: Seq<char>|
            pools@.contains_key(id) <==> exists|i: int|
                0 <= i < statuses@.len() && (#[trigger] statuses@[i]).0@ == id by {
            if pools@.contains_key(id) {
                let k = choose|k: int| 0 <= k < ids@.len() && (#[trigger] ids@[k])@ == id;
                assert(statuses@[k].0@ == id);
            }
            if exists|i: int| 0 <= i < statuses@.len() && (#[trigger] statuses@[i]).0@ == id {
                let k = choose|i: int| 0 <= i < statuses@.len() && (#[trigger] statuses@[i]).0@ == id;
                assert(ids@[k]@ == id);
            }
        }
    }
    statuses
}

/// Whether `statuses` report the pool of the server `server_id` as idle.
pub open spec fn reported_idle(statuses: Seq<(String, PoolStatus)>, server_id: Seq<char>) -> bool {
    exists|i: int|
        0 <= i < statuses.len() && (#[trigger] statuses[i]).0@ == server_id && is_idle(
            statuses[i].1,
        )
}

/// Evicts the pools that `statuses` report as idle, and no other: a pool
/// with a connection checked out or a caller waiting stays.
pub fn evict_idle(pools: &mut Pools, statuses: &Vec<(String, PoolStatus)>)
    requires
        old(pools).wf(),
    ensures
        final(pools).wf(),
        forall|id: Seq<char>| #[trigger]
            final(pools)@.contains_key(id) <==> old(pools)@.contains_key(id) && !reported_idle(
                statuses@,
                id,
            ),
        forall|id: Seq<char>| #[trigger]
            final(pools)@.contains_key(id) ==> final(pools)@[id] == old(pools)@[id],
{
    let mut idle_ids: Vec<String> = Vec::new();
    let mut i: usize = 0;
    while i < statuses.len()
        invariant
            i <= statuses@.len(),
            forall|id: Seq<char>|
                (exists|k: int| 0 <= k < idle_ids@.len() && (#[trigger] idle_ids@[k])@ == id)
                    <==> reported_idle(statuses@.take(i as int), id),
        decreases statuses@.len() - i,
    {
        let ghost before = idle_ids@;
        let ghost seen = statuses@.take(i as int);
        let ghost next = statuses@.take(i + 1);
        assert forall|j: int| 0 <= j < seen.len() implies seen[j] == next[j] by {}
        if idle(&statuses[i].1) {
            idle_ids.push(statuses[i].0.clone());
        }
        assert forall|id: Seq<char>|
            (exists|k: int| 0 <= k < idle_ids@.len() && (#[trigger] idle_ids@[k])@ == id)
                <==> reported_idle(next, id) by {
            if exists|k: int| 0 <= k < idle_ids@.len() && (#[trigger] idle_ids@[k])@ == id {
                let k = choose|k: int| 0 <= k < idle_ids@.len() && (#[trigger] idle_ids@[k])@ == id;
                if k < before.len() {
                    assert(before[k]@ == id);
                    assert(reported_idle(seen, id));
                    let j = choose|j: int|
                        0 <= j < seen.len() && (#[trigger] seen[j]).0@ == id && is_idle(seen[j].1);
                    assert(next[j].0@ == id && is_idle(next[j].1));
                } else {
                    assert(next[i as int].0@ == id && is_idle(next[i as int].1));
                }
            }
            if reported_idle(next, id) {
                let j = choose|j: int|
                    0 <= j < next.len() && (#[trigger] next[j]).0@ == id && is_idle(next[j].1);
                if j < i {
                    assert(seen[j].0@ == id && is_idle(seen[j].1));
                    assert(reported_idle(seen, id));
                    let k = choose|k: int| 0 <= k < before.len() && (#[trigger] before[k])@ == id;
                    assert(idle_ids@[k]@ == id);
                } else {
                    assert(idle_ids@[idle_ids@.len() - 1]@ == id);
                }
            }
        }
        i += 1;
    }
    assert(statuses@.take(statuses@.len() as int) == statuses@);
    evict(pools, &idle_ids);
}

/// Whether a sweep that finds the pools `before` and reads `statuses` of
/// them leaves the pools `after`: there is a status for each server that
/// has a pool, and for no other; a pool stays exactly where its status does
/// not report it idle; and a pool that stays is the pool that it was.
pub open spec fn swept(
    before: Map<Seq<char>, PoolHandle>,
    statuses: Seq<(String, PoolStatus)>,
    after: Map<Seq<char>, PoolHandle>,
) -> bool {
    &&& forall|id: Seq<char>| #[trigger]
        before.contains_key(id) <==> exists|i: int|
            0 <= i < statuses.len() && (#[trigger] statuses[i]).0@ == id
    &&& forall|id: Seq<char>| #[trigger]
        after.contains_key(id) <==> before.contains_key(id) && !reported_idle(statuses, id)
    &&& forall|id: Seq<char>| #[trigger] after.contains_key(id) ==> after[id] == before[id]
}

/// Evicts the pools that are idle when asked, so that those of servers no
/// longer worked with do not pile up. What the pools report of themselves
/// is read at this moment, once for each pool; which pools go is then what
/// [`evict_idle`] says of those reports: a pool with a connection checked
/// out or a caller waiting stays. No pool is added or replaced.
pub fn cleanup_idle_pools(pools: &mut Pools)
    requires
        old(pools).wf(),
    ensures
        final(pools).wf(),
        final(pools)@.submap_of(old(pools)@),
        exists|statuses: Seq<(String, PoolStatus)>| #[trigger]
            swept(old(pools)@, statuses, final(pools)@),
{
    let statuses = pool_statuses(pools);
    evict_idle(pools, &statuses);
    assert(swept(old(pools)@, statuses@, pools@));
}

/// The statements in flight, by execution id, each with the token that
/// cancels it.
pub struct CancelRegistry {
    tokens: Registry<tokio_postgres::CancelToken>,
}

impl CancelRegistry {
    /// Whether each execution id has one token at most.
    pub closed spec fn wf(&self) -> bool {
        self.tokens.wf()
    }

    /// The token of each statement in flight.
    pub closed spec fn view(&self) -> Map<Seq<char>, tokio_postgres::CancelToken> {
        self.tokens@
    }

    /// No statement in flight.
    pub fn new() -> (registry: CancelRegistry)
        ensures
            registry.wf(),
            registry@ == Map::<Seq<char>, tokio_postgres::CancelToken>::empty(),
    {
        CancelRegistry { tokens: Registry::new() }
    }

    /// Records that the statement `execution_id` is in flight and that
    /// `token` cancels it. To be called just before the statement is issued.
    pub fn register(&mut self, execution_id: &str, token: tokio_postgres::CancelToken)
        requires
            old(self).wf(),
        ensures
            final(self).wf(),
            final(self)@ == old(self)@.insert(execution_id@, token),
    {
        self.tokens.insert(execution_id, token);
    }

    /// Records that the statement `execution_id` is in flight no more. To
    /// be called as soon as the statement has completed or failed.
    pub fn unregister(&mut self, execution_id: &str)
        requires
            old(self).wf(),
        ensures
            final(self).wf(),
            final(self)@ == old(self)@.remove(execution_id@),
    {
        let _ = self.tokens.remove(execution_id);
    }

    /// The token that cancels the statement `execution_id`, to be sent to
    /// the server over a connection of its own. It fails with
    /// `NoSuchExecution` exactly where no such statement is in flight.
    pub fn cancel(&self, execution_id: &str) -> (r: Result<tokio_postgres::CancelToken, EngineError>)
        requires
            self.wf(),
        ensures
            match r {
                Ok(token) => self@.contains_key(execution_id@) && token == self@[execution_id@],
                Err(e) => !self@.contains_key(execution_id@) && e is NoSuchExecution,
            },
    {
        match self.tokens.get(execution_id) {
            Some(token) => Ok(clone_token(token)),
            None => Err(EngineError::NoSuchExecution),
        }
    }

    /// Whether the statement `execution_id` is in flight.
    pub fn is_in_flight(&self, execution_id: &str) -> (b: bool)
        ensures
            b == self@.contains_key(execution_id@),
    {
        self.tokens.contains(execution_id)
    }
}

/// The token that cancels the statement `query_id`: see
/// [`CancelRegistry::cancel`].
pub fn cancel_query(registry: &CancelRegistry, query_id: &str) -> (r: Result<
    tokio_postgres::CancelToken,
    EngineError,
>)
    requires
        registry.wf(),
    ensures
        match r {
            Ok(token) => registry@.contains_key(query_id@) && token == registry@[query_id@],
            Err(e) => !registry@.contains_key(query_id@) && e is NoSuchExecution,
        },
{
    registry.cancel(query_id)
}

/// A statement is in flight from the moment it is registered until it is
/// unregistered, and at no other time: while it is, it can be cancelled;
/// after, cancelling it fails; and no other statement is touched.
pub proof fn lemma_in_flight_window(
    before: Map<Seq<char>, tokio_postgres::CancelToken>,
    execution_id: Seq<char>,
    token: tokio_postgres::CancelToken,
)
    ensures
        before.insert(execution_id, token).contains_key(execution_id),
        before.insert(execution_id, token)[execution_id] == token,
        !before.insert(execution_id, token).remove(execution_id).contains_key(execution_id),
        forall|other: Seq<char>|
            other != execution_id ==> (before.insert(execution_id, token).remove(
                execution_id,
            ).contains_key(other) <==> before.contains_key(other)),
{
}

/// Whether a statement is executed for its rows or for the number of rows
/// that it changes.
#[derive(Clone, Copy, Debug, PartialEq, Eq, Structural)]
pub enum StatementKind {
    Query,
    Command,
}

/// How a statement is to be executed.
#[derive(Clone, Debug, PartialEq, Eq)]
pub struct ExecutionPlan {
    pub kind: StatementKind,
    /// Where a schema is given: the statement that makes it the search
    /// path. It and the statement are then executed in one transaction,
    /// which is committed after the statement, so that the search path
    /// holds for this statement alone.
    pub search_path: Option<String>,
}

/// The kind of the statement `sql`.
pub open spec fn kind_of(sql: Seq<char>) -> StatementKind {
    if is_read_only_head(sql_head(sql)) {
        StatementKind::Query
    } else {
        StatementKind::Command
    }
}

/// The statement that makes `schema` the search path of its transaction.
pub open spec fn search_path_statement(schema: Seq<char>) -> Seq<char> {
    "SET LOCAL search_path TO "@ + quoted_ident(schema)
}

/// How the statement `sql` is to be executed, in the schema `schema_name`
/// where one is given.
pub fn plan_execution(sql: &str, schema_name: Option<&str>) -> (plan: ExecutionPlan)
    ensures
        plan.kind == kind_of(sql@),
        match schema_name {
            Some(schema) => plan.search_path is Some && plan.search_path->0@
                == search_path_statement(schema@),
            None => plan.search_path is None,
        },
{
    let kind = if is_query(sql) {
        StatementKind::Query
    } else {
        StatementKind::Command
    };
    let search_path = match schema_name {
        Some(schema) => {
            let quoted = quote_ident(schema);
            let statement = String::from_str("SET LOCAL search_path TO ");
            Some(statement.concat(quoted.as_str()))
        },
        None => None,
    };
    ExecutionPlan { kind, search_path }
}

} // verus!
