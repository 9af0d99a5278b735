//! The application: a server's configuration, its servants and its life.

use vstd::prelude::*;

use crate::codec::raw::str_eq;
use crate::communicator::Communicator;
use crate::error::TarsError;
use crate::transport::{TarsServer, TarsServerConfig};
use crate::util::duration::millis_of;
use crate::util::config::{default_client, default_server};
use crate::util::{ClientConfig, ServerConfig};

verus! {

/// Application state.
#[derive(Debug, Clone, Copy, PartialEq, Eq, Structural)]
pub enum AppState {
    /// Made, not yet running
    Init,
    /// Running
    Running,
    /// Shutting down
    ShuttingDown,
    /// Stopped
    Stopped,
}

/// The transport configuration of a servant at `address`, with the limits
/// and timers of the server configuration.
pub fn servant_config(server_config: &ServerConfig, address: &str) -> (c: TarsServerConfig)
    ensures
        c.proto@ == "tcp"@,
        c.address@ == address@,
        c.max_invoke == server_config.max_invoke,
        millis_of(c.accept_timeout) == server_config.accept_timeout,
        millis_of(c.read_timeout) == server_config.read_timeout,
        millis_of(c.write_timeout) == server_config.write_timeout,
        millis_of(c.handle_timeout) == server_config.handle_timeout,
        millis_of(c.idle_timeout) == server_config.idle_timeout,
        c.queue_cap == server_config.queue_cap,
        c.tcp_no_delay == server_config.tcp_no_delay,
        !c.has_tls,
{
    TarsServerConfig::tcp(address).with_max_invoke(server_config.max_invoke).with_accept_timeout(
        server_config.accept_timeout_duration(),
    ).with_read_timeout(server_config.read_timeout_duration()).with_write_timeout(
        server_config.write_timeout_duration(),
    ).with_handle_timeout(server_config.handle_timeout_duration()).with_idle_timeout(
        server_config.idle_timeout_duration(),
    ).with_queue_cap(server_config.queue_cap).with_tcp_no_delay(server_config.tcp_no_delay)
}

/// A server application.
pub struct Application {
    server_config: ServerConfig,
    client_config: ClientConfig,
    communicator: Communicator,
    servers: Vec<(String, TarsServer)>,
    obj_run_list: Vec<String>,
    state: AppState,
}

/// The index of the first servant at or behind `from` under `name`, or the
/// number of servants where there is none.
pub open spec fn find_servant(s: Seq<(String, TarsServer)>, name: Seq<char>, from: int) -> int
    decreases s.len() - from,
{
    if from < 0 || from >= s.len() {
        s.len() as int
    } else if s[from].0@ == name {
        from
    } else {
        find_servant(s, name, from + 1)
    }
}

/// Whether `after` is the list `before` with a new server for `name` at
/// `address`: in the place of the servant that stood under the name, or at
/// the end; every other servant as it was. The new server is open, has no
/// connection and no invoke, and takes on as many invokes as `limit` says.
pub open spec fn servant_set(
    before: Seq<(String, TarsServer)>,
    name: Seq<char>,
    address: Seq<char>,
    limit: i32,
    after: Seq<(String, TarsServer)>,
) -> bool {
    let at = find_servant(before, name, 0);
    &&& 0 <= at <= before.len()
    &&& after.len() == (if at < before.len() {
        before.len()
    } else {
        before.len() + 1
    })
    &&& after[at].0@ == name
    &&& !after[at].1.is_shut()
    &&& after[at].1.connections() == 0
    &&& after[at].1.invokes() == 0
    &&& after[at].1.limit() == limit
    &&& after[at].1.settings().address@ == address
    &&& forall|j: int| 0 <= j < before.len() && j != at ==> after[j] == before[j]
}

/// Where a search for a servant ends.
pub proof fn lemma_find_servant(s: Seq<(String, TarsServer)>, name: Seq<char>, from: int)
    requires
        0 <= from <= s.len(),
    ensures
        from <= find_servant(s, name, from) <= s.len(),
    decreases s.len() - from,
{
    if from < s.len() && s[from].0@ != name {
        lemma_find_servant(s, name, from + 1);
    }
}

impl Application {
    /// The state as mathematics.
    pub closed spec fn phase(&self) -> AppState {
        self.state
    }

    /// The servants as mathematics.
    pub closed spec fn servants(&self) -> Seq<(String, TarsServer)> {
        self.servers@
    }

    /// The names of the servants in the order in which they were added.
    pub closed spec fn run_list(&self) -> Seq<String> {
        self.obj_run_list@
    }

    /// The server configuration as mathematics.
    pub closed spec fn server_settings(&self) -> ServerConfig {
        self.server_config
    }

    /// The client configuration as mathematics.
    pub closed spec fn client_settings(&self) -> ClientConfig {
        self.client_config
    }

    /// The communicator as mathematics.
    pub closed spec fn comm(&self) -> Communicator {
        self.communicator
    }

    /// The invoke limit of the server configuration as mathematics.
    pub open spec fn invoke_limit(&self) -> i32 {
        self.server_settings().max_invoke
    }

    /// A new application: default configurations, no servant, state init.
    pub fn new() -> (a: Application)
        ensures
            a.phase() == AppState::Init,
            a.servants().len() == 0,
            a.run_list().len() == 0,
            a.server_settings()@ == default_server(),
            a.client_settings()@ == default_client(),
            a.comm().settings() == default_client(),
            a.comm().props().len() == 0,
            a.comm().proxies().len() == 0,
    {
        Application {
            server_config: ServerConfig::default(),
            client_config: ClientConfig::default(),
            communicator: Communicator::new(),
            servers: Vec::new(),
            obj_run_list: Vec::new(),
            state: AppState::Init,
        }
    }

    /// The server configuration.
    pub fn server_config(&self) -> (c: &ServerConfig)
        ensures
            *c == self.server_settings(),
    {
        &self.server_config
    }

    /// Sets the server configuration.
    pub fn set_server_config(&mut self, config: ServerConfig)
        ensures
            final(self).server_settings() == config,
            final(self).client_settings() == old(self).client_settings(),
            final(self).comm() == old(self).comm(),
            final(self).phase() == old(self).phase(),
            final(self).servants() == old(self).servants(),
            final(self).run_list() == old(self).run_list(),
    {
        self.server_config = config;
    }

    /// The client configuration.
    pub fn client_config(&self) -> (c: &ClientConfig)
        ensures
            *c == self.client_settings(),
    {
        &self.client_config
    }

    /// Sets the client configuration.
    pub fn set_client_config(&mut self, config: ClientConfig)
        ensures
            final(self).client_settings() == config,
            final(self).server_settings() == old(self).server_settings(),
            final(self).comm() == old(self).comm(),
            final(self).phase() == old(self).phase(),
            final(self).servants() == old(self).servants(),
            final(self).run_list() == old(self).run_list(),
    {
        self.client_config = config;
    }

    /// The communicator.
    pub fn communicator(&self) -> (c: &Communicator)
        ensures
            *c == self.comm(),
    {
        &self.communicator
    }

    /// The state.
    pub fn state(&self) -> (s: AppState)
        ensures
            s == self.phase(),
    {
        self.state
    }

    /// The index of the servant under a name.
    fn servant_position(&self, obj_name: &str) -> (r: Option<usize>)
        ensures
            match r {
                Some(i) => i == find_servant(self.servants(), obj_name@, 0) && i
                    < self.servants().len(),
                None => find_servant(self.servants(), obj_name@, 0) >= self.servants().len(),
            },
    {
        let mut i: usize = 0;
        while i < self.servers.len()
            invariant
                0 <= i <= self.servers@.len(),
                find_servant(self.servers@, obj_name@, 0) == find_servant(
                    self.servers@,
                    obj_name@,
                    i as int,
                ),
            decreases self.servers@.len() - i,
        {
            if str_eq(self.servers[i].0.as_str(), obj_name) {
                return Some(i);
            }
            i = i + 1;
        }
        None
    }

    /// Adds a servant at an address: a server with the limits and timers of
    /// the server configuration. A servant that stood under the name is
    /// replaced; the name is added to the run list either way.
    pub fn add_servant(&mut self, obj_name: &str, address: &str) -> (r: Result<(), TarsError>)
        ensures
            r is Ok,
            final(self).phase() == old(self).phase(),
            final(self).server_settings() == old(self).server_settings(),
            final(self).client_settings() == old(self).client_settings(),
            final(self).comm() == old(self).comm(),
            final(self).run_list().len() == old(self).run_list().len() + 1,
            final(self).run_list().subrange(0, old(self).run_list().len() as int)
                == old(self).run_list(),
            final(self).run_list().last()@ == obj_name@,
            servant_set(
                old(self).servants(),
                obj_name@,
                address@,
                old(self).invoke_limit(),
                final(self).servants(),
            ),
    {
        let config = servant_config(&self.server_config, address);
        let server = TarsServer::new(config);
        match self.servant_position(obj_name) {
            Some(i) => {
                self.servers.set(i, (obj_name.to_owned(), server));
            },
            None => {
                self.servers.push((obj_name.to_owned(), server));
            },
        }
        self.obj_run_list.push(obj_name.to_owned());
        proof {
            lemma_find_servant(old(self).servers@, obj_name@, 0);
            assert(self.obj_run_list@.subrange(0, old(self).obj_run_list@.len() as int) =~= old(self).obj_run_list@);
        }
        Ok(())
    }

    /// Starts the run: the state is running.
    pub fn run(&mut self)
        ensures
            final(self).phase() == AppState::Running,
            final(self).servants() == old(self).servants(),
            final(self).run_list() == old(self).run_list(),
            final(self).server_settings() == old(self).server_settings(),
            final(self).client_settings() == old(self).client_settings(),
            final(self).comm() == old(self).comm(),
    {
        self.state = AppState::Running;
    }

    /// Starts the shutdown: the state is shutting down, and every server is
    /// closed to new connections.
    pub fn shutdown(&mut self) -> (r: Result<(), TarsError>)
        ensures
            r is Ok,
            final(self).phase() == AppState::ShuttingDown,
            final(self).run_list() == old(self).run_list(),
            final(self).server_settings() == old(self).server_settings(),
            final(self).client_settings() == old(self).client_settings(),
            final(self).comm() == old(self).comm(),
            final(self).servants().len() == old(self).servants().len(),
            forall|i: int|
                0 <= i < final(self).servants().len()
                    ==> (#[trigger] final(self).servants()[i]).1.is_shut()
                    && final(self).servants()[i].0 == old(self).servants()[i].0
                        && final(self).servants()[i].1.invokes()
                            == old(self).servants()[i].1.invokes()
                        && final(self).servants()[i].1.connections()
                            == old(self).servants()[i].1.connections()
                    && final(self).servants()[i].1.settings()
                        == old(self).servants()[i].1.settings(),
    {
        self.state = AppState::ShuttingDown;
        let n: usize = self.servers.len();
        let mut i: usize = 0;
        while i < n
            invariant
                0 <= i <= n,
                n == self.servers@.len(),
                self.state == AppState::ShuttingDown,
                self.obj_run_list == old(self).obj_run_list,
                self.server_config == old(self).server_config,
                self.client_config == old(self).client_config,
                self.communicator == old(self).communicator,
                n == old(self).servers@.len(),
                forall|j: int|
                    0 <= j < i ==> (#[trigger] self.servers@[j]).1.is_shut() && self.servers@[j].0
                        == old(self).servers@[j].0
                            && self.servers@[j].1.invokes() == old(self).servers@[j].1.invokes()
                            && self.servers@[j].1.connections()
                                == old(self).servers@[j].1.connections()
                            && self.servers@[j].1.settings() == old(self).servers@[j].1.settings(),
                forall|j: int| i <= j < n ==> self.servers@[j] == old(self).servers@[j],
            decreases n - i,
        {
            let (name, mut server) = self.servers.remove(i);
            server.shutdown();
            self.servers.insert(i, (name, server));
            i = i + 1;
        }
        Ok(())
    }

    /// Ends the run: the state is stopped.
    pub fn stopped(&mut self)
        ensures
            final(self).phase() == AppState::Stopped,
            final(self).servants() == old(self).servants(),
            final(self).run_list() == old(self).run_list(),
            final(self).server_settings() == old(self).server_settings(),
            final(self).client_settings() == old(self).client_settings(),
            final(self).comm() == old(self).comm(),
    {
        self.state = AppState::Stopped;
    }
}

/// Builds an application step by step.
pub struct ApplicationBuilder {
    app: Application,
}

impl ApplicationBuilder {
    /// A builder of a new application.
    pub fn new() -> (b: ApplicationBuilder)
        ensures
            b.build_spec().phase() == AppState::Init,
            b.build_spec().servants().len() == 0,
            b.build_spec().run_list().len() == 0,
    {
        ApplicationBuilder { app: Application::new() }
    }

    /// The application that `build` gives.
    pub closed spec fn build_spec(self) -> Application {
        self.app
    }

    /// The same builder with a server configuration.
    pub fn server_config(self, config: ServerConfig) -> (b: ApplicationBuilder)
        ensures
            b.build_spec().server_settings() == config,
            b.build_spec().client_settings() == self.build_spec().client_settings(),
            b.build_spec().phase() == self.build_spec().phase(),
            b.build_spec().servants() == self.build_spec().servants(),
            b.build_spec().run_list() == self.build_spec().run_list(),
    {
        let mut b = self;
        b.app.set_server_config(config);
        b
    }

    /// The same builder with a client configuration.
    pub fn client_config(self, config: ClientConfig) -> (b: ApplicationBuilder)
        ensures
            b.build_spec().client_settings() == config,
            b.build_spec().server_settings() == self.build_spec().server_settings(),
            b.build_spec().phase() == self.build_spec().phase(),
            b.build_spec().servants() == self.build_spec().servants(),
            b.build_spec().run_list() == self.build_spec().run_list(),
    {
        let mut b = self;
        b.app.set_client_config(config);
        b
    }

    /// The application.
    pub fn build(self) -> (a: Application)
        ensures
            a == self.build_spec(),
    {
        self.app
    }
}

} // verus!
