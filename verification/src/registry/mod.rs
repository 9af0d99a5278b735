//! Service discovery: where the endpoints of a service are learned.
//!
//! The registry is asked at one of several nodes. Each node has a circuit
//! breaker; a node that fails is passed over until it recovers, and a query
//! that fails at one node goes on to the next.

pub mod breaker;
pub mod locator;
pub mod query;

pub use breaker::{NodeCircuitBreaker, RegistryCircuitBreaker};
pub use query::TarsRegistry;

use vstd::prelude::*;

use crate::endpoint::{Endpoint, EndpointView, ServantInstance};
use crate::error::TarsError;
use crate::selector::nodes::{clone_nodes, views};

verus! {

/// Where servants are registered and found.
pub trait Registrar {
    /// The active endpoints that a query answers with.
    spec fn known(&self) -> Seq<EndpointView>;

    /// Whether the registrar, as it stands, may answer a query for the
    /// object `id`, in the SET division `set` where one is given, with
    /// `answer`. A registrar whose answers depend on what it hears from
    /// elsewhere admits every answer.
    spec fn answers(
        &self,
        id: Seq<char>,
        set: Option<Seq<char>>,
        answer: Result<(Vec<Endpoint>, Vec<Endpoint>), TarsError>,
    ) -> bool;

    /// Registers a servant instance.
    fn register(&mut self, servant: &ServantInstance) -> (r: Result<(), TarsError>);

    /// Deregisters a servant instance.
    fn deregister(&mut self, servant: &ServantInstance) -> (r: Result<(), TarsError>);

    /// The endpoints of an object, active ones first and inactive ones
    /// second: one of the answers that the registrar admits.
    fn query_servant(&mut self, id: &str) -> (r: Result<(Vec<Endpoint>, Vec<Endpoint>), TarsError>)
        ensures
            old(self).answers(id@, None, r),
    ;

    /// The endpoints of an object in a SET division: one of the answers
    /// that the registrar admits.
    fn query_servant_by_set(&mut self, id: &str, set: &str) -> (r: Result<
        (Vec<Endpoint>, Vec<Endpoint>),
        TarsError,
    >)
        ensures
            old(self).answers(id@, Some(set@), r),
    ;
}

/// A registrar that knows its endpoints from the start and asks nobody.
pub struct DirectRegistrar {
    endpoints: Vec<Endpoint>,
}

impl DirectRegistrar {
    /// A registrar that answers every query with the given endpoints.
    pub fn new(endpoints: Vec<Endpoint>) -> (r: DirectRegistrar)
        ensures
            r.known() == views(endpoints@),
    {
        DirectRegistrar { endpoints }
    }
}

impl Registrar for DirectRegistrar {
    closed spec fn known(&self) -> Seq<EndpointView> {
        views(self.endpoints@)
    }

    /// Every query is answered with the endpoints that are known, all of
    /// them active.
    open spec fn answers(
        &self,
        id: Seq<char>,
        set: Option<Seq<char>>,
        answer: Result<(Vec<Endpoint>, Vec<Endpoint>), TarsError>,
    ) -> bool {
        answer is Ok && views(answer->Ok_0.0@) == self.known() && answer->Ok_0.1@.len() == 0
    }

    /// Does nothing: there is nowhere to register.
    fn register(&mut self, servant: &ServantInstance) -> (r: Result<(), TarsError>)
        ensures
            r is Ok,
            final(self).known() == old(self).known(),
    {
        Ok(())
    }

    /// Does nothing: there is nowhere to deregister.
    fn deregister(&mut self, servant: &ServantInstance) -> (r: Result<(), TarsError>)
        ensures
            r is Ok,
            final(self).known() == old(self).known(),
    {
        Ok(())
    }

    /// Answers with the endpoints it knows, all of them active.
    fn query_servant(&mut self, id: &str) -> (r: Result<(Vec<Endpoint>, Vec<Endpoint>), TarsError>)
        ensures
            final(self).known() == old(self).known(),
            r is Ok,
            views(r->Ok_0.0@) == old(self).known(),
            r->Ok_0.1@.len() == 0,
    {
        Ok((clone_nodes(&self.endpoints), Vec::new()))
    }

    /// Answers with the endpoints it knows, whatever the SET division.
    fn query_servant_by_set(&mut self, id: &str, set: &str) -> (r: Result<
        (Vec<Endpoint>, Vec<Endpoint>),
        TarsError,
    >)
        ensures
            final(self).known() == old(self).known(),
            r is Ok,
            views(r->Ok_0.0@) == old(self).known(),
            r->Ok_0.1@.len() == 0,
    {
        Ok((clone_nodes(&self.endpoints), Vec::new()))
    }
}

/// What taking over the answer to a query leaves, and what is handed back:
/// on success the two lists are those of the answer, on an error they are
/// as they were and the error is handed on.
pub open spec fn taken_over(
    active: Seq<EndpointView>,
    inactive: Seq<EndpointView>,
    answer: Result<(Vec<Endpoint>, Vec<Endpoint>), TarsError>,
    active_after: Seq<EndpointView>,
    inactive_after: Seq<EndpointView>,
    r: Result<(), TarsError>,
) -> bool {
    match answer {
        Ok((found, lost)) => r is Ok && active_after == views(found@) && inactive_after == views(
            lost@,
        ),
        Err(e) => r == Err::<(), TarsError>(e) && active_after == active && inactive_after
            == inactive,
    }
}

/// Keeps the endpoints of one object as the registrar last reported them.
pub struct EndpointManager {
    obj_name: String,
    active_endpoints: Vec<Endpoint>,
    inactive_endpoints: Vec<Endpoint>,
    refresh_interval_ms: u64,
}

impl EndpointManager {
    /// The active endpoints as mathematics.
    pub closed spec fn active(&self) -> Seq<EndpointView> {
        views(self.active_endpoints@)
    }

    /// The inactive endpoints as mathematics.
    pub closed spec fn inactive(&self) -> Seq<EndpointView> {
        views(self.inactive_endpoints@)
    }

    /// The refresh interval in milliseconds as mathematics.
    pub closed spec fn interval(&self) -> u64 {
        self.refresh_interval_ms
    }

    /// The object name as mathematics.
    pub closed spec fn object(&self) -> Seq<char> {
        self.obj_name@
    }

    /// A manager for an object, with no endpoints yet and a refresh every
    /// 60 seconds.
    pub fn new(obj_name: &str) -> (m: EndpointManager)
        ensures
            m.object() == obj_name@,
            m.active().len() == 0,
            m.inactive().len() == 0,
            m.interval() == 60000,
    {
        EndpointManager {
            obj_name: obj_name.to_owned(),
            active_endpoints: Vec::new(),
            inactive_endpoints: Vec::new(),
            refresh_interval_ms: 60000,
        }
    }

    /// The same manager with another refresh interval.
    pub fn with_refresh_interval(self, interval_ms: u64) -> (m: EndpointManager)
        ensures
            m.object() == self.object(),
            m.active() == self.active(),
            m.inactive() == self.inactive(),
            m.interval() == interval_ms,
    {
        let mut m = self;
        m.refresh_interval_ms = interval_ms;
        m
    }

    /// The refresh interval in milliseconds.
    pub fn refresh_interval_ms(&self) -> (r: u64)
        ensures
            r == self.interval(),
    {
        self.refresh_interval_ms
    }

    /// Takes over what a query has answered: on success the two lists are
    /// replaced, on an error they stay and the error is handed on.
    pub fn apply(&mut self, answer: Result<(Vec<Endpoint>, Vec<Endpoint>), TarsError>) -> (r: Result<
        (),
        TarsError,
    >)
        ensures
            final(self).object() == old(self).object(),
            final(self).interval() == old(self).interval(),
            taken_over(
                old(self).active(),
                old(self).inactive(),
                answer,
                final(self).active(),
                final(self).inactive(),
                r,
            ),
    {
        match answer {
            Ok((active, inactive)) => {
                self.active_endpoints = active;
                self.inactive_endpoints = inactive;
                Ok(())
            },
            Err(e) => Err(e),
        }
    }

    /// Asks the registrar for the endpoints of the object and takes over
    /// what it answers.
    pub fn refresh<R: Registrar>(&mut self, registrar: &mut R) -> (r: Result<(), TarsError>)
        ensures
            final(self).object() == old(self).object(),
            final(self).interval() == old(self).interval(),
            r is Err ==> final(self).active() == old(self).active() && final(self).inactive()
                == old(self).inactive(),
            exists|answer: Result<(Vec<Endpoint>, Vec<Endpoint>), TarsError>|
                old(registrar).answers(old(self).object(), None, answer) && #[trigger] taken_over(
                    old(self).active(),
                    old(self).inactive(),
                    answer,
                    final(self).active(),
                    final(self).inactive(),
                    r,
                ),
    {
        let answer = registrar.query_servant(self.obj_name.as_str());
        self.apply(answer)
    }

    /// A copy of the active endpoints.
    pub fn get_active(&self) -> (r: Vec<Endpoint>)
        ensures
            views(r@) == self.active(),
    {
        clone_nodes(&self.active_endpoints)
    }

    /// A copy of the inactive endpoints.
    pub fn get_inactive(&self) -> (r: Vec<Endpoint>)
        ensures
            views(r@) == self.inactive(),
    {
        clone_nodes(&self.inactive_endpoints)
    }
}

} // verus!
