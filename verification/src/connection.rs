use vstd::prelude::*;
use crate::credentials;
use crate::credentials::CredentialError;
use crate::text::{build_connection_string, spec_connection_string, str_eq};
use crate::types::{
    ConfigView, ConnectionConfig, CreateConnectionParams, DatabaseType, TestConnectionParams,
    TestConnectionResult,
};

verus! {

/// Failure of a registry operation.
#[derive(Debug)]
pub enum ConnectionError {
    NotFound(String),
    Database(String),
    Credential(String),
    UnsupportedType,
}

/// The text carried by a credential-store failure.
fn credential_message(e: CredentialError) -> String {
    match e {
        CredentialError::KeychainError(s) => s,
        CredentialError::NotFound => String::from_str("credential not found"),
    }
}

/// Relies on uuid::Uuid::new_v4 and its Display impl: a fresh random
/// identifier in hyphenated form, which is always 36 characters long.
#[verifier::external_body]
fn new_uuid_string() -> (s: String)
    ensures
        s@.len() == 36,
{
    uuid::Uuid::new_v4().to_string()
}

/// Relies on chrono::Utc::now and DateTime::timestamp_millis: the current
/// wall-clock time in milliseconds since the Unix epoch. Nothing is assumed
/// of the value: the clock is part of the environment.
#[verifier::external_body]
fn now_timestamp_ms() -> i64 {
    chrono::Utc::now().timestamp_millis()
}

/// A live pool registered under a connection id, tagged with its engine
/// family. The pool payload `P` is whatever handle the surrounding runtime
/// uses; the registry treats it as opaque.
pub struct PoolEntry<P> {
    pub id: String,
    pub kind: DatabaseType,
    pub pool: P,
}

/// The stateful heart of the crate: the map of saved configurations and the
/// map of live pools, both keyed by connection id.
pub struct ConnectionManager<P> {
    configs: Vec<ConnectionConfig>,
    pools: Vec<PoolEntry<P>>,
}

impl<P> ConnectionManager<P> {
    /// The saved configurations, in insertion order.
    pub closed spec fn configs_view(self) -> Seq<ConfigView> {
        self.configs@.map_values(|c: ConnectionConfig| c@)
    }

    /// The live pools: id, engine kind and payload, in registration order.
    pub closed spec fn pools_view(self) -> Seq<(Seq<char>, DatabaseType, P)> {
        self.pools@.map_values(|e: PoolEntry<P>| (e.id@, e.kind, e.pool))
    }

    /// Ids are unique in both maps.
    pub open spec fn wf(self) -> bool {
        &&& forall|i: int, j: int|
            #![trigger self.configs_view()[i], self.configs_view()[j]]
            0 <= i < j < self.configs_view().len() ==> self.configs_view()[i].id
                != self.configs_view()[j].id
        &&& forall|i: int, j: int|
            #![trigger self.pools_view()[i], self.pools_view()[j]]
            0 <= i < j < self.pools_view().len() ==> self.pools_view()[i].0
                != self.pools_view()[j].0
    }

    /// Whether a configuration is saved under this id.
    pub open spec fn has_config(self, id: Seq<char>) -> bool {
        cfg_has(self.configs_view(), id)
    }

    /// The index of the configuration saved under this id.
    pub open spec fn config_index(self, id: Seq<char>) -> int {
        cfg_at(self.configs_view(), id)
    }

    /// The configuration saved under this id.
    pub open spec fn config_of(self, id: Seq<char>) -> ConfigView {
        self.configs_view()[self.config_index(id)]
    }

    /// Whether a live pool is registered under this id.
    pub open spec fn has_pool(self, id: Seq<char>) -> bool {
        pool_has(self.pools_view(), id)
    }

    /// The index of the pool registered under this id.
    pub open spec fn pool_index(self, id: Seq<char>) -> int {
        pool_at(self.pools_view(), id)
    }

    /// The engine kind of the pool registered under this id.
    pub open spec fn pool_kind(self, id: Seq<char>) -> DatabaseType {
        self.pools_view()[self.pool_index(id)].1
    }

    /// The payload of the pool registered under this id.
    pub open spec fn pool_of(self, id: Seq<char>) -> P {
        self.pools_view()[self.pool_index(id)].2
    }
}

/// Whether some configuration in the listing carries this id.
pub open spec fn cfg_has(cv: Seq<ConfigView>, id: Seq<char>) -> bool {
    exists|i: int| #![trigger cv[i]] 0 <= i < cv.len() && cv[i].id == id
}

/// The index of a configuration carrying this id.
pub open spec fn cfg_at(cv: Seq<ConfigView>, id: Seq<char>) -> int {
    choose|i: int| 0 <= i < cv.len() && cv[i].id == id
}

/// Whether some pool entry carries this id.
pub open spec fn pool_has<P>(pv: Seq<(Seq<char>, DatabaseType, P)>, id: Seq<char>) -> bool {
    exists|i: int| #![trigger pv[i]] 0 <= i < pv.len() && pv[i].0 == id
}

/// The index of a pool entry carrying this id.
pub open spec fn pool_at<P>(pv: Seq<(Seq<char>, DatabaseType, P)>, id: Seq<char>) -> int {
    choose|i: int| 0 <= i < pv.len() && pv[i].0 == id
}

/// In a well-formed registry the saved index of an id is the only one.
pub proof fn lemma_config_index_unique<P>(m: ConnectionManager<P>, id: Seq<char>)
    requires
        m.wf(),
        m.has_config(id),
    ensures
        0 <= m.config_index(id) < m.configs_view().len(),
        m.configs_view()[m.config_index(id)].id == id,
        forall|j: int|
            #![trigger m.configs_view()[j]]
            0 <= j < m.configs_view().len() && m.configs_view()[j].id == id ==> j
                == m.config_index(id),
{
    let ci = m.config_index(id);
    assert(0 <= ci < m.configs_view().len() && m.configs_view()[ci].id == id);
    assert forall|j: int|
        0 <= j < m.configs_view().len() && m.configs_view()[j].id == id implies j == ci by {
        if j < ci {
            assert(m.configs_view()[j].id != m.configs_view()[ci].id);
        } else if ci < j {
            assert(m.configs_view()[ci].id != m.configs_view()[j].id);
        }
    }
}

/// In a well-formed registry the pool index of an id is the only one.
pub proof fn lemma_pool_index_unique<P>(m: ConnectionManager<P>, id: Seq<char>)
    requires
        m.wf(),
        m.has_pool(id),
    ensures
        0 <= m.pool_index(id) < m.pools_view().len(),
        m.pools_view()[m.pool_index(id)].0 == id,
        forall|j: int|
            #![trigger m.pools_view()[j]]
            0 <= j < m.pools_view().len() && m.pools_view()[j].0 == id ==> j == m.pool_index(id),
{
    let pi = m.pool_index(id);
    assert(0 <= pi < m.pools_view().len() && m.pools_view()[pi].0 == id);
    assert forall|j: int|
        0 <= j < m.pools_view().len() && m.pools_view()[j].0 == id implies j == pi by {
        if j < pi {
            assert(m.pools_view()[j].0 != m.pools_view()[pi].0);
        } else if pi < j {
            assert(m.pools_view()[pi].0 != m.pools_view()[j].0);
        }
    }
}

/// The configuration created from the given parameters, id and moment. It
/// carries no password: the secret goes to the credential store alone.
pub open spec fn config_from_params(
    params: CreateConnectionParams,
    id: Seq<char>,
    t: i64,
) -> ConfigView {
    ConfigView {
        id: id,
        name: params.name@,
        db_type: params.db_type,
        host: params.host@,
        port: params.port,
        database: params.database@,
        username: params.username@,
        created_at: Some(t),
        last_connected: None,
    }
}

/// The live pools are untouched.
pub open spec fn pools_unchanged<P>(pre: ConnectionManager<P>, post: ConnectionManager<P>) -> bool {
    post.pools_view() == pre.pools_view()
}

/// Nothing observable changed.
pub open spec fn same_state<P>(pre: ConnectionManager<P>, post: ConnectionManager<P>) -> bool {
    post.configs_view() == pre.configs_view() && post.pools_view() == pre.pools_view()
}

/// What a successful creation does: the new configuration is appended and
/// the pools are untouched.
pub open spec fn create_post<P>(
    pre: ConnectionManager<P>,
    post: ConnectionManager<P>,
    id: Seq<char>,
    params: CreateConnectionParams,
    t: i64,
) -> bool {
    &&& post.configs_view() == pre.configs_view().push(config_from_params(params, id, t))
    &&& pools_unchanged(pre, post)
}

/// What registering a pool does: the pool stands under the id (replacing
/// any prior one), every other pool is untouched, and the configuration's
/// last_connected is set to the moment `t`.
pub open spec fn register_post<P>(
    pre: ConnectionManager<P>,
    post: ConnectionManager<P>,
    id: Seq<char>,
    kind: DatabaseType,
    pool: P,
    t: i64,
) -> bool {
    &&& post.configs_view() == pre.configs_view().update(
        pre.config_index(id),
        ConfigView { last_connected: Some(t), ..pre.config_of(id) },
    )
    &&& post.has_pool(id)
    &&& post.pool_kind(id) == kind
    &&& post.pool_of(id) == pool
    &&& forall|s: Seq<char>| s != id ==> #[trigger] post.has_pool(s) == pre.has_pool(s)
    &&& forall|s: Seq<char>|
        s != id && pre.has_pool(s) ==> #[trigger] post.pool_kind(s) == pre.pool_kind(s)
            && post.pool_of(s) == pre.pool_of(s)
}

/// What a disconnect does: no pool stands under the id afterwards, every
/// other pool and all configurations are untouched.
pub open spec fn disconnect_post<P>(
    pre: ConnectionManager<P>,
    post: ConnectionManager<P>,
    id: Seq<char>,
) -> bool {
    &&& post.configs_view() == pre.configs_view()
    &&& !post.has_pool(id)
    &&& forall|s: Seq<char>| s != id ==> #[trigger] post.has_pool(s) == pre.has_pool(s)
    &&& forall|s: Seq<char>|
        s != id && pre.has_pool(s) ==> #[trigger] post.pool_kind(s) == pre.pool_kind(s)
            && post.pool_of(s) == pre.pool_of(s)
}

/// What a deletion does: neither a configuration nor a pool stands under
/// the id afterwards; everything else is untouched.
pub open spec fn delete_post<P>(
    pre: ConnectionManager<P>,
    post: ConnectionManager<P>,
    id: Seq<char>,
) -> bool {
    &&& !post.has_config(id)
    &&& !post.has_pool(id)
    &&& (pre.has_config(id) ==> post.configs_view() == pre.configs_view().remove(
        pre.config_index(id),
    ))
    &&& (!pre.has_config(id) ==> post.configs_view() == pre.configs_view())
    &&& forall|s: Seq<char>| s != id ==> #[trigger] post.has_pool(s) == pre.has_pool(s)
    &&& forall|s: Seq<char>|
        s != id && pre.has_pool(s) ==> #[trigger] post.pool_kind(s) == pre.pool_kind(s)
            && post.pool_of(s) == pre.pool_of(s)
}

impl<P> ConnectionManager<P> {
    /// An empty registry: no configurations, no pools.
    pub fn new() -> (r: Self)
        ensures
            r.wf(),
            r.configs_view() == Seq::<ConfigView>::empty(),
            r.pools_view() == Seq::<(Seq<char>, DatabaseType, P)>::empty(),
            forall|s: Seq<char>| !r.has_pool(s),
            forall|s: Seq<char>| !r.has_config(s),
    {
        let r = ConnectionManager { configs: Vec::new(), pools: Vec::new() };
        proof {
            assert(r.configs_view() =~= Seq::<ConfigView>::empty());
            assert(r.pools_view() =~= Seq::<(Seq<char>, DatabaseType, P)>::empty());
        }
        r
    }

    /// The index of the configuration with this id, if one is saved.
    fn index_of_config(&self, id: &str) -> (r: Option<usize>)
        ensures
            match r {
                Some(i) => i < self.configs_view().len() && self.configs_view()[i as int].id
                    == id@,
                None => !self.has_config(id@),
            },
    {
        let mut i: usize = 0;
        while i < self.configs.len()
            invariant
                i <= self.configs.len(),
                forall|j: int|
                    #![trigger self.configs_view()[j]]
                    0 <= j < i ==> self.configs_view()[j].id != id@,
            decreases self.configs.len() - i,
        {
            if str_eq(self.configs[i].id.as_str(), id) {
                return Some(i);
            }
            i = i + 1;
        }
        None
    }

    /// The index of the pool with this id, if one is registered.
    fn index_of_pool(&self, id: &str) -> (r: Option<usize>)
        ensures
            match r {
                Some(i) => i < self.pools_view().len() && self.pools_view()[i as int].0 == id@,
                None => !self.has_pool(id@),
            },
    {
        let mut i: usize = 0;
        while i < self.pools.len()
            invariant
                i <= self.pools.len(),
                forall|j: int|
                    #![trigger self.pools_view()[j]]
                    0 <= j < i ==> self.pools_view()[j].0 != id@,
            decreases self.pools.len() - i,
        {
            if str_eq(self.pools[i].id.as_str(), id) {
                return Some(i);
            }
            i = i + 1;
        }
        None
    }

    /// Removes the pool entry under this id, if any. Configurations are
    /// untouched.
    fn remove_pool_entry(&mut self, connection_id: &str)
        requires
            old(self).wf(),
        ensures
            final(self).wf(),
            disconnect_post(*old(self), *final(self), connection_id@),
    {
        let found = self.index_of_pool(connection_id);
        match found {
            None => {
                proof {
                    assert(final(self).pools_view() =~= old(self).pools_view());
                }
            },
            Some(i) => {
                proof {
                    lemma_pool_index_unique(*self, connection_id@);
                }
                let ghost pre = *self;
                self.pools.remove(i);
                proof {
                    assert(self.pools_view() =~= pre.pools_view().remove(i as int));
                    assert forall|s: Seq<char>| s != connection_id@ implies self.has_pool(s)
                        == pre.has_pool(s) by {
                        if pre.has_pool(s) {
                            let j = pre.pool_index(s);
                            lemma_pool_index_unique(pre, s);
                            if j < i as int {
                                assert(self.pools_view()[j] == pre.pools_view()[j]);
                                assert(self.has_pool(s));
                            } else {
                                assert(j != i as int);
                                assert(self.pools_view()[j - 1] == pre.pools_view()[j]);
                                assert(self.has_pool(s));
                            }
                        }
                        if self.has_pool(s) {
                            let j = choose|j: int|
                                0 <= j < self.pools_view().len() && self.pools_view()[j].0 == s;
                            if j < i as int {
                                assert(pre.pools_view()[j].0 == s);
                                assert(pre.has_pool(s));
                            } else {
                                assert(pre.pools_view()[j + 1].0 == s);
                                assert(pre.has_pool(s));
                            }
                        }
                    }
                    assert(!self.has_pool(connection_id@)) by {
                        if self.has_pool(connection_id@) {
                            let j = choose|j: int|
                                0 <= j < self.pools_view().len() && self.pools_view()[
                                    j
                                ].0 == connection_id@;
                            if j < i as int {
                                assert(pre.pools_view()[j].0 == connection_id@);
                            } else {
                                assert(pre.pools_view()[j + 1].0 == connection_id@);
                            }
                        }
                    }
                    assert forall|s: Seq<char>|
                        s != connection_id@ && pre.has_pool(s) implies self.pool_kind(s)
                        == pre.pool_kind(s) && self.pool_of(s) == pre.pool_of(s) by {
                        lemma_pool_index_unique(pre, s);
                        assert(self.has_pool(s));
                        lemma_pool_index_unique(*self, s);
                        let jpre = pre.pool_index(s);
                        let jpost = self.pool_index(s);
                        if jpre < i as int {
                            assert(self.pools_view()[jpre] == pre.pools_view()[jpre]);
                            assert(jpost == jpre);
                        } else {
                            assert(self.pools_view()[jpre - 1] == pre.pools_view()[jpre]);
                            assert(jpost == jpre - 1);
                        }
                    }
                }
            },
        }
    }

    /// Creates a new connection: draws a fresh id, writes the password to
    /// the credential store (failing the whole operation if that fails, so
    /// that no configuration without a stored secret is registered), then
    /// appends the configuration.
    pub fn create_connection(&mut self, params: CreateConnectionParams) -> (r: Result<
        String,
        ConnectionError,
    >)
        requires
            old(self).wf(),
        ensures
            final(self).wf(),
            match r {
                Ok(id) => {
                    &&& id@.len() > 0
                    &&& !old(self).has_config(id@)
                    &&& exists|t: i64|
                        #[trigger] create_post(*old(self), *final(self), id@, params, t)
                },
                Err(e) => same_state(*old(self), *final(self)) && (e matches ConnectionError::Credential(_)),
            },
    {
        let mut id = new_uuid_string();
        let mut fresh = self.index_of_config(id.as_str()).is_none();
        let mut attempt: usize = 0;
        while !fresh && attempt < 8
            invariant
                *self == *old(self),
                fresh == !self.has_config(id@),
                id@.len() == 36,
            decreases 8 - attempt,
        {
            id = new_uuid_string();
            fresh = self.index_of_config(id.as_str()).is_none();
            attempt = attempt + 1;
        }
        if !fresh {
            return Err(
                ConnectionError::Credential(
                    String::from_str("could not draw an unused connection id"),
                ),
            );
        }
        match credentials::store_password(id.as_str(), params.password.as_str()) {
            Ok(()) => {},
            Err(e) => {
                return Err(ConnectionError::Credential(credential_message(e)));
            },
        }
        let now = now_timestamp_ms();
        let ghost pre = *self;
        let config = ConnectionConfig {
            id: id.clone(),
            name: params.name,
            db_type: params.db_type,
            host: params.host,
            port: params.port,
            database: params.database,
            username: params.username,
            created_at: Some(now),
            last_connected: None,
        };
        self.configs.push(config);
        proof {
            assert(self.configs_view() =~= pre.configs_view().push(
                config_from_params(params, id@, now),
            ));
            assert(create_post(pre, *self, id@, params, now));
            assert forall|i: int, j: int|
                0 <= i < j < self.configs_view().len() implies #[trigger] self.configs_view()[i].id
                != #[trigger] self.configs_view()[j].id by {
                if j == self.configs_view().len() - 1 {
                    assert(self.configs_view()[i] == pre.configs_view()[i]);
                    assert(!pre.has_config(id@));
                }
            }
        }
        Ok(id)
    }

    /// Looks up the saved configuration and its secret, and yields the
    /// engine kind and the connection string a pool is to be built from.
    /// Fails with NotFound exactly when no configuration is saved under the
    /// id, and with Credential when the secret cannot be retrieved.
    pub fn connect_prepare(&self, connection_id: &str) -> (r: Result<
        (DatabaseType, String),
        ConnectionError,
    >)
        requires
            self.wf(),
        ensures
            (r matches Err(ConnectionError::NotFound(_))) <==> !self.has_config(connection_id@),
            match r {
                Ok((kind, conn)) => {
                    &&& self.has_config(connection_id@)
                    &&& kind == self.config_of(connection_id@).db_type
                    &&& exists|pw: Seq<char>|
                        conn@ == #[trigger] spec_connection_string(
                            kind,
                            self.config_of(connection_id@).host,
                            self.config_of(connection_id@).port,
                            self.config_of(connection_id@).database,
                            self.config_of(connection_id@).username,
                            pw,
                        )
                },
                Err(ConnectionError::NotFound(s)) => s@ == connection_id@,
                Err(ConnectionError::Credential(_)) => self.has_config(connection_id@),
                Err(_) => false,
            },
    {
        let idx = match self.index_of_config(connection_id) {
            Some(i) => i,
            None => {
                return Err(ConnectionError::NotFound(String::from_str(connection_id)));
            },
        };
        proof {
            lemma_config_index_unique(*self, connection_id@);
        }
        let password = match credentials::get_password(connection_id) {
            Ok(p) => p,
            Err(e) => {
                return Err(ConnectionError::Credential(credential_message(e)));
            },
        };
        let cfg = &self.configs[idx];
        let conn = build_connection_string(
            cfg.db_type,
            cfg.host.as_str(),
            cfg.port,
            cfg.database.as_str(),
            cfg.username.as_str(),
            password.as_str(),
        );
        proof {
            assert(self.config_index(connection_id@) == idx);
            assert(self.config_of(connection_id@) == self.configs@[idx as int]@);
            assert(conn@ == spec_connection_string(
                cfg.db_type,
                self.config_of(connection_id@).host,
                self.config_of(connection_id@).port,
                self.config_of(connection_id@).database,
                self.config_of(connection_id@).username,
                password@,
            ));
        }
        Ok((cfg.db_type, conn))
    }

    /// Registers a freshly built pool under the id, replacing any prior
    /// pool, and records the moment on the configuration's last_connected.
    /// Fails with NotFound exactly when no configuration is saved under the
    /// id; the registry is then untouched.
    pub fn register_pool(&mut self, connection_id: &str, kind: DatabaseType, pool: P) -> (r:
        Result<(), ConnectionError>)
        requires
            old(self).wf(),
        ensures
            final(self).wf(),
            match r {
                Ok(()) => {
                    &&& old(self).has_config(connection_id@)
                    &&& exists|t: i64|
                        #[trigger] register_post(
                            *old(self),
                            *final(self),
                            connection_id@,
                            kind,
                            pool,
                            t,
                        )
                },
                Err(ConnectionError::NotFound(s)) => {
                    &&& !old(self).has_config(connection_id@)
                    &&& s@ == connection_id@
                    &&& same_state(*old(self), *final(self))
                },
                Err(_) => false,
            },
    {
        let idx = match self.index_of_config(connection_id) {
            Some(i) => i,
            None => {
                return Err(ConnectionError::NotFound(String::from_str(connection_id)));
            },
        };
        proof {
            lemma_config_index_unique(*self, connection_id@);
        }
        let ghost pre = *self;
        self.remove_pool_entry(connection_id);
        let ghost mid = *self;
        let entry = PoolEntry { id: String::from_str(connection_id), kind, pool };
        self.pools.push(entry);
        let now = now_timestamp_ms();
        let mut cfg = self.configs.remove(idx);
        cfg.last_connected = Some(now);
        self.configs.insert(idx, cfg);
        proof {
            let id = connection_id@;
            let n = mid.pools_view().len() as int;
            assert(self.pools_view() =~= mid.pools_view().push((id, kind, pool)));
            // the pushed entry is the only one with this id
            assert forall|j: int|
                0 <= j < self.pools_view().len() && self.pools_view()[j].0 == id implies j
                == n by {
                if j < n {
                    assert(mid.pools_view()[j].0 == id);
                    assert(mid.has_pool(id));
                }
            }
            // configurations: remove + insert at idx is an update at idx
            assert(self.configs_view() =~= pre.configs_view().update(
                idx as int,
                ConfigView { last_connected: Some(now), ..pre.config_of(id) },
            ));
            // well-formedness of the updated configuration list
            assert forall|i: int, j: int|
                0 <= i < j < self.configs_view().len() implies #[trigger] self.configs_view()[i].id
                != #[trigger] self.configs_view()[j].id by {
                assert(self.configs_view()[i].id == pre.configs_view()[i].id);
                assert(self.configs_view()[j].id == pre.configs_view()[j].id);
            }
            // well-formedness of the extended pool list
            assert forall|i: int, j: int|
                0 <= i < j < self.pools_view().len() implies #[trigger] self.pools_view()[i].0
                != #[trigger] self.pools_view()[j].0 by {
                if j == n {
                    if self.pools_view()[i].0 == id {
                        assert(mid.pools_view()[i].0 == id);
                        assert(mid.has_pool(id));
                    }
                } else {
                    assert(self.pools_view()[i] == mid.pools_view()[i]);
                    assert(self.pools_view()[j] == mid.pools_view()[j]);
                }
            }
            assert(self.wf());
            assert(self.pools_view()[n].0 == id);
            assert(self.has_pool(id));
            assert(self.pool_index(id) == n);
            assert(self.pool_kind(id) == kind);
            assert(self.pool_of(id) == pool);
            assert forall|s: Seq<char>| s != id implies self.has_pool(s) == mid.has_pool(s) by {
                if mid.has_pool(s) {
                    let j = mid.pool_index(s);
                    lemma_pool_index_unique(mid, s);
                    assert(self.pools_view()[j] == mid.pools_view()[j]);
                    assert(self.has_pool(s));
                }
                if self.has_pool(s) {
                    let j = choose|j: int|
                        0 <= j < self.pools_view().len() && self.pools_view()[j].0 == s;
                    assert(self.pools_view()[j].0 == s);
                    assert(j != n);
                    assert(mid.pools_view()[j].0 == s);
                    assert(mid.has_pool(s));
                }
            }
            assert forall|s: Seq<char>| s != id && mid.has_pool(s) implies self.pool_kind(s)
                == mid.pool_kind(s) && self.pool_of(s) == mid.pool_of(s) by {
                lemma_pool_index_unique(mid, s);
                assert(self.has_pool(s));
                lemma_pool_index_unique(*self, s);
                let j = mid.pool_index(s);
                assert(self.pools_view()[j] == mid.pools_view()[j]);
                assert(self.pool_index(s) == j);
            }
            // compose the frames through the intermediate state
            assert forall|s: Seq<char>| s != id implies #[trigger] self.has_pool(s)
                == pre.has_pool(s) by {
                assert(self.has_pool(s) == mid.has_pool(s));
                assert(mid.has_pool(s) == pre.has_pool(s));
            }
            assert forall|s: Seq<char>| s != id && pre.has_pool(s) implies #[trigger] self.pool_kind(
                s,
            ) == pre.pool_kind(s) && self.pool_of(s) == pre.pool_of(s) by {
                assert(mid.has_pool(s));
                assert(mid.pool_kind(s) == pre.pool_kind(s) && mid.pool_of(s) == pre.pool_of(s));
                assert(self.pool_kind(s) == mid.pool_kind(s) && self.pool_of(s) == mid.pool_of(s));
            }
            assert(register_post(pre, *self, id, kind, pool, now));
        }
        Ok(())
    }

    /// Removes the pool under the id. Always succeeds, also when no pool is
    /// registered; the saved configuration is untouched.
    pub fn disconnect(&mut self, connection_id: &str) -> (r: Result<(), ConnectionError>)
        requires
            old(self).wf(),
        ensures
            final(self).wf(),
            r is Ok,
            disconnect_post(*old(self), *final(self), connection_id@),
    {
        self.remove_pool_entry(connection_id);
        Ok(())
    }

    /// All saved configurations, in insertion order. Callers must not read
    /// meaning into the order.
    pub fn list_connections(&self) -> (v: Vec<ConnectionConfig>)
        ensures
            v@.map_values(|c: ConnectionConfig| c@) == self.configs_view(),
    {
        let mut v: Vec<ConnectionConfig> = Vec::new();
        let mut i: usize = 0;
        while i < self.configs.len()
            invariant
                i <= self.configs.len(),
                v@.len() == i,
                forall|j: int| 0 <= j < i ==> #[trigger] v@[j]@ == self.configs@[j]@,
            decreases self.configs.len() - i,
        {
            let c = self.configs[i].duplicate();
            v.push(c);
            i = i + 1;
        }
        proof {
            assert(v@.map_values(|c: ConnectionConfig| c@) =~= self.configs_view());
        }
        v
    }

    /// Deletes a connection: removes the pool (if any), removes the
    /// configuration (if any), and best-effort deletes the stored secret.
    /// Always succeeds, also for an unknown id.
    pub fn delete_connection(&mut self, connection_id: &str) -> (r: Result<(), ConnectionError>)
        requires
            old(self).wf(),
        ensures
            final(self).wf(),
            r is Ok,
            delete_post(*old(self), *final(self), connection_id@),
    {
        let ghost pre = *self;
        self.remove_pool_entry(connection_id);
        let ghost mid = *self;
        let found = self.index_of_config(connection_id);
        match found {
            None => {},
            Some(i) => {
                proof {
                    lemma_config_index_unique(mid, connection_id@);
                }
                self.configs.remove(i);
                proof {
                    assert(self.configs_view() =~= mid.configs_view().remove(i as int));
                    assert(!self.has_config(connection_id@)) by {
                        if self.has_config(connection_id@) {
                            let j = choose|j: int|
                                0 <= j < self.configs_view().len() && self.configs_view()[
                                    j
                                ].id == connection_id@;
                            if j < i as int {
                                assert(mid.configs_view()[j].id == connection_id@);
                            } else {
                                assert(mid.configs_view()[j + 1].id == connection_id@);
                            }
                        }
                    }
                    assert forall|i2: int, j2: int|
                        0 <= i2 < j2 < self.configs_view().len() implies #[trigger] self.configs_view()[
                        i2
                    ].id != #[trigger] self.configs_view()[j2].id by {
                        let pi = if i2 < i as int { i2 } else { i2 + 1 };
                        let pj = if j2 < i as int { j2 } else { j2 + 1 };
                        assert(self.configs_view()[i2] == mid.configs_view()[pi]);
                        assert(self.configs_view()[j2] == mid.configs_view()[pj]);
                    }
                }
            },
        }
        let _ = credentials::delete_password(connection_id);
        proof {
            let id = connection_id@;
            assert(self.pools_view() == mid.pools_view());
            assert(!self.has_pool(id));
            assert forall|s: Seq<char>| s != id implies #[trigger] self.has_pool(s)
                == pre.has_pool(s) by {
                assert(self.has_pool(s) == mid.has_pool(s));
                assert(mid.has_pool(s) == pre.has_pool(s));
            }
            assert forall|s: Seq<char>| s != id && pre.has_pool(s) implies #[trigger] self.pool_kind(
                s,
            ) == pre.pool_kind(s) && self.pool_of(s) == pre.pool_of(s) by {
                assert(mid.has_pool(s));
                assert(mid.pool_kind(s) == pre.pool_kind(s) && mid.pool_of(s) == pre.pool_of(s));
                assert(self.pool_kind(s) == mid.pool_kind(s) && self.pool_of(s) == mid.pool_of(s));
            }
        }
        Ok(())
    }

    /// A borrow of the pool payload registered under the id. Fails with
    /// NotFound exactly when no pool is registered.
    pub fn pool_handle(&self, connection_id: &str) -> (r: Result<&P, ConnectionError>)
        requires
            self.wf(),
        ensures
            (r matches Err(ConnectionError::NotFound(_))) <==> !self.has_pool(connection_id@),
            match r {
                Ok(p) => self.has_pool(connection_id@) && *p == self.pool_of(connection_id@),
                Err(ConnectionError::NotFound(s)) => s@ == connection_id@,
                Err(_) => false,
            },
    {
        match self.index_of_pool(connection_id) {
            Some(i) => {
                proof {
                    lemma_pool_index_unique(*self, connection_id@);
                }
                Ok(&self.pools[i].pool)
            },
            None => Err(ConnectionError::NotFound(String::from_str(connection_id))),
        }
    }

    /// The pool payload and the configured database name for a table
    /// listing. Fails with NotFound exactly when the pool or the
    /// configuration is missing.
    pub fn tables_request(&self, connection_id: &str) -> (r: Result<
        (&P, String),
        ConnectionError,
    >)
        requires
            self.wf(),
        ensures
            (r matches Err(ConnectionError::NotFound(_))) <==> !(self.has_pool(connection_id@)
                && self.has_config(connection_id@)),
            match r {
                Ok((p, db)) => {
                    &&& self.has_pool(connection_id@)
                    &&& self.has_config(connection_id@)
                    &&& *p == self.pool_of(connection_id@)
                    &&& db@ == self.config_of(connection_id@).database
                },
                Err(ConnectionError::NotFound(s)) => s@ == connection_id@,
                Err(_) => false,
            },
    {
        let pool = match self.index_of_pool(connection_id) {
            Some(i) => {
                proof {
                    lemma_pool_index_unique(*self, connection_id@);
                }
                &self.pools[i].pool
            },
            None => {
                return Err(ConnectionError::NotFound(String::from_str(connection_id)));
            },
        };
        match self.index_of_config(connection_id) {
            Some(i) => {
                proof {
                    lemma_config_index_unique(*self, connection_id@);
                }
                let db = self.configs[i].database.clone();
                Ok((pool, db))
            },
            None => Err(ConnectionError::NotFound(String::from_str(connection_id))),
        }
    }

    /// True exactly when a live pool is registered under the id.
    pub fn is_connected(&self, connection_id: &str) -> (b: bool)
        ensures
            b == self.has_pool(connection_id@),
    {
        self.index_of_pool(connection_id).is_some()
    }
}

impl<P> Default for ConnectionManager<P> {
    /// An empty registry.
    fn default() -> (r: Self)
        ensures
            r.wf(),
            r.configs_view() == Seq::<ConfigView>::empty(),
            r.pools_view() == Seq::<(Seq<char>, DatabaseType, P)>::empty(),
    {
        Self::new()
    }
}

/// The engine kind and connection string for a throwaway connection test,
/// straight from the supplied parameters. Nothing is saved and the
/// credential store is untouched: the function reads no state at all.
pub fn test_connection_request(params: &TestConnectionParams) -> (r: (DatabaseType, String))
    ensures
        r.0 == params.db_type,
        r.1@ == spec_connection_string(
            params.db_type,
            params.host@,
            params.port,
            params.database@,
            params.username@,
            params.password@,
        ),
{
    let conn = build_connection_string(
        params.db_type,
        params.host.as_str(),
        params.port,
        params.database.as_str(),
        params.username.as_str(),
        params.password.as_str(),
    );
    (params.db_type, conn)
}

/// Folds the outcome of the throwaway pool build into the test result:
/// success exactly when no error text came back, and the driver's text is
/// passed through untouched.
pub fn test_connection_outcome(error: Option<String>) -> (r: TestConnectionResult)
    ensures
        r.success == (error is None),
        r.error == error,
{
    match error {
        None => TestConnectionResult { success: true, error: None },
        Some(e) => TestConnectionResult { success: false, error: Some(e) },
    }
}

/// Nothing observable distinguishes the two registries: same listing, and
/// the same pools under every id.
pub open spec fn same_observable<P>(a: ConnectionManager<P>, b: ConnectionManager<P>) -> bool {
    &&& a.configs_view() == b.configs_view()
    &&& forall|s: Seq<char>| #[trigger] a.has_pool(s) == b.has_pool(s)
    &&& forall|s: Seq<char>|
        a.has_pool(s) ==> #[trigger] a.pool_kind(s) == b.pool_kind(s) && a.pool_of(s)
            == b.pool_of(s)
}

/// Two successful creations return distinct ids: the second id was fresh
/// in the state the first left behind, where the first id is present.
pub proof fn lemma_created_ids_distinct<P>(
    m0: ConnectionManager<P>,
    m1: ConnectionManager<P>,
    m2: ConnectionManager<P>,
    id1: Seq<char>,
    id2: Seq<char>,
    p1: CreateConnectionParams,
    p2: CreateConnectionParams,
    t1: i64,
    t2: i64,
)
    requires
        !m0.has_config(id1),
        create_post(m0, m1, id1, p1, t1),
        !m1.has_config(id2),
        create_post(m1, m2, id2, p2, t2),
    ensures
        id1 != id2,
{
    let cv1 = m1.configs_view();
    assert(cv1[cv1.len() - 1].id == id1);
    assert(m1.has_config(id1));
}

/// After a creation, the listing holds the new configuration with the
/// supplied non-secret fields exactly once: it stands at the end, and no
/// other entry carries the new id. No entry ever carries a password: the
/// configuration type has no such field.
pub proof fn lemma_create_lists_exactly_once<P>(
    m0: ConnectionManager<P>,
    m1: ConnectionManager<P>,
    id: Seq<char>,
    params: CreateConnectionParams,
    t: i64,
)
    requires
        !m0.has_config(id),
        create_post(m0, m1, id, params, t),
    ensures
        m1.configs_view().len() == m0.configs_view().len() + 1,
        m1.configs_view().last() == config_from_params(params, id, t),
        forall|j: int|
            #![trigger m1.configs_view()[j]]
            0 <= j < m1.configs_view().len() - 1 ==> m1.configs_view()[j].id != id,
{
    assert forall|j: int|
        0 <= j < m1.configs_view().len() - 1 implies m1.configs_view()[j].id != id by {
        assert(m1.configs_view()[j] == m0.configs_view()[j]);
        if m0.configs_view()[j].id == id {
            assert(m0.has_config(id));
        }
    }
}

/// Registering a pool records the moment on the saved configuration: its
/// last_connected becomes the clock value `t`, its created_at stays. With
/// the clock at or past the creation moment, the recorded time is no
/// earlier than created_at.
pub proof fn lemma_register_updates_last_connected<P>(
    pre: ConnectionManager<P>,
    post: ConnectionManager<P>,
    id: Seq<char>,
    kind: DatabaseType,
    pool: P,
    t: i64,
)
    requires
        pre.wf(),
        pre.has_config(id),
        register_post(pre, post, id, kind, pool, t),
        match pre.config_of(id).created_at {
            Some(c) => c <= t,
            None => true,
        },
    ensures
        post.has_config(id),
        post.config_of(id).last_connected == Some(t),
        post.config_of(id).created_at == pre.config_of(id).created_at,
        match post.config_of(id).created_at {
            Some(c) => post.config_of(id).last_connected matches Some(l) && c <= l,
            None => true,
        },
{
    lemma_config_index_unique(pre, id);
    let ci = pre.config_index(id);
    assert(post.configs_view()[ci].id == id);
    assert(post.has_config(id));
    assert forall|j: int|
        0 <= j < post.configs_view().len() && post.configs_view()[j].id == id implies j
        == ci by {
        if j != ci {
            assert(post.configs_view()[j] == pre.configs_view()[j]);
        }
    }
    assert(post.config_index(id) == ci);
}

/// Disconnecting is idempotent: a second disconnect of the same id leaves
/// the registry observably as the first left it.
pub proof fn lemma_disconnect_idempotent<P>(
    m0: ConnectionManager<P>,
    m1: ConnectionManager<P>,
    m2: ConnectionManager<P>,
    id: Seq<char>,
)
    requires
        disconnect_post(m0, m1, id),
        disconnect_post(m1, m2, id),
    ensures
        same_observable(m1, m2),
{
    assert forall|s: Seq<char>| #[trigger] m1.has_pool(s) == m2.has_pool(s) by {
        if s != id {
            assert(m2.has_pool(s) == m1.has_pool(s));
        }
    }
}

/// A disconnect of an id that holds no pool changes nothing observable.
pub proof fn lemma_disconnect_never_connected<P>(
    m0: ConnectionManager<P>,
    m1: ConnectionManager<P>,
    id: Seq<char>,
)
    requires
        !m0.has_pool(id),
        disconnect_post(m0, m1, id),
    ensures
        same_observable(m0, m1),
{
    assert forall|s: Seq<char>| #[trigger] m0.has_pool(s) == m1.has_pool(s) by {
        if s != id {
            assert(m1.has_pool(s) == m0.has_pool(s));
        }
    }
}

/// After a deletion the id is gone: no entry of the listing carries it and
/// no pool stands under it, so a later connect or query lookup answers
/// NotFound (`connect_prepare` and `pool_handle` answer NotFound exactly
/// on the absent id).
pub proof fn lemma_delete_removes<P>(
    pre: ConnectionManager<P>,
    post: ConnectionManager<P>,
    id: Seq<char>,
)
    requires
        delete_post(pre, post, id),
    ensures
        !post.has_config(id),
        !post.has_pool(id),
        forall|j: int|
            #![trigger post.configs_view()[j]]
            0 <= j < post.configs_view().len() ==> post.configs_view()[j].id != id,
{
    assert forall|j: int|
        0 <= j < post.configs_view().len() implies post.configs_view()[j].id != id by {
        if post.configs_view()[j].id == id {
            assert(post.has_config(id));
        }
    }
}

} // verus!
