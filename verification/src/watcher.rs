//! The watch over a server that was started, as a machine that is told what happened and says what
//! to do. It stops the server once nobody plays on it.
use vstd::prelude::*;

use crate::mc_api::{QueryAction, QueryEvent, QueryStage, QueryStep, ServerQuery, WatchTarget};
use crate::opaque_error::OpaqueError;
use crate::server::{
    answerable, deployment_needs_connection, deployment_status, lists_ports, node_port,
    DescriptionRequest, ScaleRequest, Server,
};
use crate::text::decimal;
use crate::types::var_string_fits;

verus! {

/// How far a look at the server has come.
#[derive(Debug)]
pub enum WatchStage {
    /// It is not time yet.
    Sleep,
    /// The server is looked up.
    Lookup(ServerQuery),
    /// The server is tried.
    Connect { server: Server, address: String },
    /// The server is to be asked to describe itself.
    Describe { server: Server, request: DescriptionRequest },
    /// Nobody plays: the watcher is to be kept no more.
    Forget(Server),
    /// Nobody plays: the server is to be stopped.
    Stop(Server),
}

/// What is to be done.
#[derive(Debug)]
pub enum WatchAction<'a> {
    /// So many seconds are to pass.
    Sleep(u64),
    /// The cluster is to be asked.
    AskCluster(QueryAction),
    /// A connection to this address is to be tried, and kept.
    Connect(&'a str),
    /// These packets are to be sent to the server, and its answer is to be read.
    Describe(&'a DescriptionRequest),
    /// The watcher under this address is to be kept no more.
    Forget(&'a str),
    /// The cluster is to scale a deployment.
    Scale(ScaleRequest),
}

/// What happened.
#[derive(Debug)]
pub enum WatchEvent {
    /// Time has passed.
    Slept,
    /// The cluster answered.
    Cluster(QueryEvent),
    /// A connection was tried, and stands or not.
    Connected(bool),
    /// The server was asked, and says how many players are on it, or could not be asked.
    Described(Result<i32, OpaqueError>),
    /// The watcher is kept no more.
    Forgotten,
    /// The cluster was told to stop the server.
    Stopped,
}

/// What comes of an event.
pub enum WatchStep {
    /// There is more to do.
    Next(Watcher),
    /// The server cannot be found.
    Lost(OpaqueError),
    /// The server cannot be asked.
    GaveUp(OpaqueError),
    /// The server is stopped.
    Ended,
}

/// What a watch is for: a server, and how many seconds pass before each look at it.
#[derive(Debug)]
pub struct WatchPlan {
    pub target: WatchTarget,
    pub seconds: u64,
}

/// The watch over a server.
#[derive(Debug)]
pub struct Watcher {
    pub plan: WatchPlan,
    pub stage: WatchStage,
}

/// The stage that `step` leads to, if it leads to one and keeps the plan.
pub open spec fn next_watch_stage(step: WatchStep, plan: WatchPlan) -> Option<WatchStage> {
    match step {
        WatchStep::Next(next) => if next.plan == plan {
            Some(next.stage)
        } else {
            None
        },
        _ => None,
    }
}

/// Whether the watch is given up for the reason `text`.
pub open spec fn gives_up(step: WatchStep, text: Seq<char>) -> bool {
    step matches WatchStep::GaveUp(e) && e.context@ == text
}

/// What comes of a server that was found, once it is known whether it can be connected to.
pub open spec fn inspects(
    plan: WatchPlan,
    server: Server,
    connectable: bool,
    step: WatchStep,
) -> bool {
    match server.dep.status {
        None => gives_up(step, "failed to get status of deployment for checking replicas"@),
        Some(s) => {
            let status = deployment_status(s, connectable);
            if status !is Connectable {
                gives_up(step, "server is not running; status="@ + status.name())
            } else if !var_string_fits(server.server_addr@) {
                gives_up(step, "failed to create handshake packet from scratch... WTF?"@)
            } else {
                &&& next_watch_stage(step, plan) matches Some(
                    WatchStage::Describe { server: asked, request },
                )
                &&& asked == server
                &&& request.asks(server.server_addr@)
            }
        },
    }
}

/// What a lookup that has come to `found` leads to.
pub open spec fn looks_on(plan: WatchPlan, found: QueryStep, step: WatchStep) -> bool {
    match found {
        QueryStep::Next(query) => next_watch_stage(step, plan) == Some(
            WatchStage::Lookup(query),
        ),
        QueryStep::Failed(error) => step == WatchStep::Lost(error),
        QueryStep::Found(server) => match server.connection_target() {
            Some(place) => {
                &&& next_watch_stage(step, plan) matches Some(
                    WatchStage::Connect { server: tried, address },
                )
                &&& tried == server
                &&& address@ == place
            },
            None => inspects(plan, server, false, step),
        },
    }
}

/// Goes on with a server that was found, once it is known whether it can be connected to.
fn inspect(plan: WatchPlan, server: Server, connectable: bool) -> (step: WatchStep)
    ensures
        inspects(plan, server, connectable, step),
{
    let status = match server.query_status(connectable) {
        Ok(status) => status,
        Err(error) => return WatchStep::GaveUp(error),
    };
    match server.query_description(status) {
        Ok(request) => WatchStep::Next(
            Watcher { plan, stage: WatchStage::Describe { server, request } },
        ),
        Err(error) => WatchStep::GaveUp(error),
    }
}

impl Watcher {
    /// Whether the machine can go on with `event`.
    pub open spec fn accepts(self, event: WatchEvent) -> bool {
        match (self.stage, event) {
            (WatchStage::Sleep, WatchEvent::Slept) => true,
            (WatchStage::Lookup(query), WatchEvent::Cluster(answer)) => {
                &&& query.answered_by(answer)
                &&& match (query.stage, answer) {
                    (
                        QueryStage::Service { deployment, .. },
                        QueryEvent::Service(Ok(service)),
                    ) => answerable(deployment, service),
                    _ => true,
                }
            },
            (WatchStage::Connect { .. }, WatchEvent::Connected(_)) => true,
            (WatchStage::Describe { .. }, WatchEvent::Described(_)) => true,
            (WatchStage::Forget(_), WatchEvent::Forgotten) => true,
            (WatchStage::Stop(_), WatchEvent::Stopped) => true,
            _ => false,
        }
    }

    /// What `event` leads to, where the machine can go on with it.
    pub open spec fn leads_to(self, event: WatchEvent, step: WatchStep) -> bool {
        match (self.stage, event) {
            (WatchStage::Sleep, WatchEvent::Slept) => {
                &&& next_watch_stage(step, self.plan) matches Some(WatchStage::Lookup(query))
                &&& query.looks_up(self.plan.target.addr@, self.plan.target.port@)
            },
            (WatchStage::Lookup(query), WatchEvent::Cluster(answer)) => {
                exists|found: QueryStep|
                    #[trigger] query.leads_to(answer, found) && looks_on(self.plan, found, step)
            },
            (
                WatchStage::Connect { server, .. },
                WatchEvent::Connected(connectable),
            ) => inspects(self.plan, server, connectable, step),
            (WatchStage::Describe { server, .. }, WatchEvent::Described(players)) => match players {
                Ok(online) => if online == 0 {
                    next_watch_stage(step, self.plan) == Some(WatchStage::Forget(server))
                } else {
                    next_watch_stage(step, self.plan) == Some(WatchStage::Sleep)
                },
                Err(error) => step == WatchStep::GaveUp(error),
            },
            (WatchStage::Forget(server), WatchEvent::Forgotten) => {
                next_watch_stage(step, self.plan) == Some(WatchStage::Stop(server))
            },
            (WatchStage::Stop(_), WatchEvent::Stopped) => step is Ended,
            _ => false,
        }
    }

    /// A watch that begins, with so many seconds before each look.
    pub fn begin(target: WatchTarget, seconds: u64) -> (watcher: Watcher)
        ensures
            watcher.plan.target == target,
            watcher.plan.seconds == seconds,
            watcher.stage is Sleep,
    {
        Watcher { plan: WatchPlan { target, seconds }, stage: WatchStage::Sleep }
    }

    /// Whether the machine can go on with `event`.
    pub fn can_take(&self, event: &WatchEvent) -> (accepted: bool)
        ensures
            accepted == self.accepts(*event),
    {
        match (&self.stage, event) {
            (WatchStage::Sleep, WatchEvent::Slept) => true,
            (WatchStage::Lookup(query), WatchEvent::Cluster(answer)) => query.answers(answer)
                && match (&query.stage, answer) {
                (
                    QueryStage::Service { deployment, .. },
                    QueryEvent::Service(Ok(service)),
                ) => !deployment_needs_connection(deployment) || lists_ports(service),
                _ => true,
            },
            (WatchStage::Connect { .. }, WatchEvent::Connected(_)) => true,
            (WatchStage::Describe { .. }, WatchEvent::Described(_)) => true,
            (WatchStage::Forget(_), WatchEvent::Forgotten) => true,
            (WatchStage::Stop(_), WatchEvent::Stopped) => true,
            _ => false,
        }
    }

    /// Whether `action` is what is to be done next.
    pub open spec fn asks(self, action: WatchAction) -> bool {
        match self.stage {
            WatchStage::Sleep => action == WatchAction::Sleep(self.plan.seconds),
            WatchStage::Lookup(query) => action matches WatchAction::AskCluster(asked)
                && query.asks(asked),
            WatchStage::Connect { address, .. } => action matches WatchAction::Connect(a) && a@
                == address@,
            WatchStage::Describe { request, .. } => action matches WatchAction::Describe(r) && *r
                == request,
            WatchStage::Forget(_) => action matches WatchAction::Forget(key) && key@
                == self.plan.target.full_addr@,
            WatchStage::Stop(server) => action matches WatchAction::Scale(scale) && scale.scales(
                server,
                0,
            ),
        }
    }

    /// What is to be done next.
    pub fn action(&self) -> (action: WatchAction<'_>)
        ensures
            self.asks(action),
    {
        match &self.stage {
            WatchStage::Sleep => WatchAction::Sleep(self.plan.seconds),
            WatchStage::Lookup(query) => WatchAction::AskCluster(query.action()),
            WatchStage::Connect { address, .. } => WatchAction::Connect(address.as_str()),
            WatchStage::Describe { request, .. } => WatchAction::Describe(request),
            WatchStage::Forget(_) => WatchAction::Forget(self.plan.target.full_addr.as_str()),
            WatchStage::Stop(server) => WatchAction::Scale(server.stop()),
        }
    }

    /// Goes on with what happened.
    pub fn step(self, event: WatchEvent) -> (step: WatchStep)
        requires
            self.accepts(event),
        ensures
            self.leads_to(event, step),
    {
        let plan = self.plan;
        match (self.stage, event) {
            (WatchStage::Sleep, WatchEvent::Slept) => {
                let query = ServerQuery::query_server(
                    plan.target.addr.as_str(),
                    plan.target.port.as_str(),
                );
                WatchStep::Next(Watcher { plan, stage: WatchStage::Lookup(query) })
            },
            (WatchStage::Lookup(query), WatchEvent::Cluster(answer)) => {
                let ghost asked = query;
                let found = query.step(answer);
                assert(asked.leads_to(answer, found));
                match found {
                    QueryStep::Next(query) => WatchStep::Next(
                        Watcher { plan, stage: WatchStage::Lookup(query) },
                    ),
                    QueryStep::Failed(error) => WatchStep::Lost(error),
                    QueryStep::Found(server) => match server.connection() {
                        Some(address) => WatchStep::Next(
                            Watcher { plan, stage: WatchStage::Connect { server, address } },
                        ),
                        None => inspect(plan, server, false),
                    },
                }
            },
            (
                WatchStage::Connect { server, .. },
                WatchEvent::Connected(connectable),
            ) => inspect(plan, server, connectable),
            (WatchStage::Describe { server, .. }, WatchEvent::Described(players)) => match players {
                Ok(online) => if online == 0 {
                    WatchStep::Next(Watcher { plan, stage: WatchStage::Forget(server) })
                } else {
                    WatchStep::Next(Watcher { plan, stage: WatchStage::Sleep })
                },
                Err(error) => WatchStep::GaveUp(error),
            },
            (WatchStage::Forget(server), WatchEvent::Forgotten) => WatchStep::Next(
                Watcher { plan, stage: WatchStage::Stop(server) },
            ),
            (WatchStage::Stop(_), WatchEvent::Stopped) => WatchStep::Ended,
            _ => vstd::pervasive::unreached(),
        }
    }
}

/// A run of a watch: it begins asleep, and each event leads on to the next of its states.
pub open spec fn is_run(states: Seq<Watcher>, events: Seq<WatchEvent>) -> bool {
    &&& states.len() == events.len() + 1
    &&& states[0].stage is Sleep
    &&& forall|i: int|
        0 <= i < events.len() ==> (#[trigger] states[i]).leads_to(
            events[i],
            WatchStep::Next(states[i + 1]),
        )
}

/// What a look at a server comes to: one on which somebody plays is looked at again, after as long
/// a sleep; one on which nobody plays is stopped, once its watcher is kept no more, and the watch
/// then ends; and a watch whose server cannot be asked ends without stopping it.
pub proof fn law_watch_round(watcher: Watcher, event: WatchEvent, step: WatchStep)
    requires
        watcher.leads_to(event, step),
    ensures
        step matches WatchStep::Next(next) ==> next.plan == watcher.plan,
        watcher.stage matches WatchStage::Describe { server, .. } ==> match event {
            WatchEvent::Described(Ok(online)) => {
                &&& step matches WatchStep::Next(next)
                &&& online == 0 ==> next.stage == WatchStage::Forget(server)
                &&& online != 0 ==> next.stage is Sleep
            },
            WatchEvent::Described(Err(error)) => step == WatchStep::GaveUp(error),
            _ => false,
        },
        watcher.stage matches WatchStage::Forget(server) ==> (step matches WatchStep::Next(next)
            && next.stage == WatchStage::Stop(server)),
        watcher.stage is Stop ==> step is Ended,
        step matches WatchStep::Next(next) ==> {
            &&& next.stage is Stop ==> watcher.stage is Forget && event is Forgotten
            &&& next.stage is Forget ==> watcher.stage is Describe && event
                == WatchEvent::Described(Ok(0))
        },
        step is Ended ==> watcher.stage is Stop,
{
}

/// In a run of a watch, every look at the server begins with a sleep of as many seconds as the
/// watch was begun with, and the server is stopped at most once: at the end of the run, right after
/// it said that nobody plays on it and its watcher was kept no more.
pub proof fn law_watch_run(states: Seq<Watcher>, events: Seq<WatchEvent>, at: int)
    requires
        is_run(states, events),
        0 <= at < states.len(),
    ensures
        states[at].plan == states[0].plan,
        states[at].stage is Sleep ==> forall|action: WatchAction| #[trigger]
            states[at].asks(action) ==> action == WatchAction::Sleep(states[0].plan.seconds),
        (states[at].stage matches WatchStage::Lookup(query) && query.stage is Deployments) ==> at
            >= 1 && states[at - 1].stage is Sleep && events[at - 1] is Slept,
        states[at].stage is Stop ==> {
            &&& at == states.len() - 1
            &&& at >= 2
            &&& states[at - 1].stage is Forget
            &&& states[at - 2].stage is Describe
            &&& events[at - 2] == WatchEvent::Described(Ok(0))
        },
    decreases at,
{
    if at < events.len() {
        assert(states[at].leads_to(events[at], WatchStep::Next(states[at + 1])));
    }
    if at > 0 {
        law_watch_run(states, events, at - 1);
        assert(states[at - 1].leads_to(events[at - 1], WatchStep::Next(states[at])));
        if at > 1 {
            assert(states[at - 2].leads_to(events[at - 2], WatchStep::Next(states[at - 1])));
        }
    }
}

/// What a watcher does, stage by stage: it sleeps for the seconds of its plan, asks what the lookup
/// asks, tries the address, sends the request, gives up its key, and at last scales the deployment
/// with the name of the service to no replica, whatever the status of the deployment holds.
pub proof fn law_watcher_does(watcher: Watcher, action: WatchAction)
    requires
        watcher.asks(action),
    ensures
        watcher.stage is Sleep <==> action is Sleep,
        action matches WatchAction::Sleep(seconds) ==> seconds == watcher.plan.seconds,
        watcher.stage matches WatchStage::Lookup(query) ==> (
        action matches WatchAction::AskCluster(asked) && query.asks(asked)),
        watcher.stage matches WatchStage::Connect { address, .. } ==> (
        action matches WatchAction::Connect(tried) && tried@ == address@),
        watcher.stage matches WatchStage::Describe { request, .. } ==> (
        action matches WatchAction::Describe(sent) && *sent == request),
        watcher.stage is Forget ==> (action matches WatchAction::Forget(key) && key@
            == watcher.plan.target.full_addr@),
        watcher.stage matches WatchStage::Stop(server) ==> (
        action matches WatchAction::Scale(scale) && {
            &&& scale.replicas == 0
            &&& server.srv.metadata.name matches Some(name) ==> scale.name@ == name@
            &&& server.srv.metadata.name is None ==> scale.name@ == "#error#"@
        }),
        action is Scale ==> watcher.stage is Stop,
{
}

/// In a run of a watch, a server that is stopped is told to have no replica: every action that the
/// state asks for scales it to none.
pub proof fn law_stopped_means_no_replica(
    states: Seq<Watcher>,
    events: Seq<WatchEvent>,
    at: int,
    action: WatchAction,
)
    requires
        is_run(states, events),
        0 <= at < states.len(),
        states[at].stage is Stop,
        states[at].asks(action),
    ensures
        action matches WatchAction::Scale(scale) && {
            let server = states[at].stage->Stop_0;
            &&& scale.replicas == 0
            &&& server.srv.metadata.name matches Some(name) ==> scale.name@ == name@
            &&& server.srv.metadata.name is None ==> scale.name@ == "#error#"@
            &&& states[at - 2].stage matches WatchStage::Describe { server: described, .. }
            &&& described == server
        },
{
    law_watch_run(states, events, at);
    assert(states[at - 1].leads_to(events[at - 1], WatchStep::Next(states[at])));
    assert(states[at - 2].leads_to(events[at - 2], WatchStep::Next(states[at - 1])));
}

/// The functions of the machine do what its laws speak of.
pub proof fn law_watcher_obeys(
    target: WatchTarget,
    seconds: u64,
    begun: Watcher,
    watcher: Watcher,
    action: WatchAction,
    event: WatchEvent,
    accepted: bool,
    step: WatchStep,
)
    requires
        call_ensures(Watcher::begin, (target, seconds), begun),
        call_ensures(Watcher::action, (&watcher,), action),
        call_ensures(Watcher::can_take, (&watcher, &event), accepted),
        watcher.accepts(event),
        call_ensures(Watcher::step, (watcher, event), step),
    ensures
        begun.plan.target == target,
        begun.plan.seconds == seconds,
        begun.stage is Sleep,
        watcher.asks(action),
        accepted,
        watcher.leads_to(event, step),
{
}

/// A sleep is followed by the lookup of the server that the watch is for.
pub proof fn law_watch_looks_after_sleep(watcher: Watcher, step: WatchStep)
    requires
        watcher.stage is Sleep,
        watcher.leads_to(WatchEvent::Slept, step),
    ensures
        step matches WatchStep::Next(next) && next.plan == watcher.plan && (
        next.stage matches WatchStage::Lookup(query) && query.looks_up(
            watcher.plan.target.addr@,
            watcher.plan.target.port@,
        )),
{
}

/// A lookup goes on, is lost with its error, or leads to the server: one of which a replica is
/// ready and which has a node port is tried at that, and the watch over any other is given up.
pub proof fn law_watch_lookup(watcher: Watcher, answer: QueryEvent, step: WatchStep)
    requires
        watcher.stage is Lookup,
        watcher.leads_to(WatchEvent::Cluster(answer), step),
    ensures
        exists|found: QueryStep| #[trigger]
            watcher.stage->Lookup_0.leads_to(answer, found) && match found {
                QueryStep::Next(query) => step matches WatchStep::Next(next) && next.stage
                    == WatchStage::Lookup(query) && next.plan == watcher.plan,
                QueryStep::Failed(error) => step == WatchStep::Lost(error),
                QueryStep::Found(server) => {
                    let ready = {
                        &&& server.dep.status matches Some(s)
                        &&& s.replicas matches Some(n)
                        &&& n > 0
                        &&& s.ready_replicas matches Some(r)
                        &&& r > 0
                    };
                    match node_port(server.srv) {
                        Some(n) if ready => {
                            &&& step matches WatchStep::Next(next)
                            &&& next.plan == watcher.plan
                            &&& next.stage matches WatchStage::Connect { server: tried, address }
                            &&& tried == server
                            &&& address@ == "localhost:"@ + decimal(n as int)
                        },
                        _ => step is GaveUp,
                    }
                },
            },
{
    let found = choose|found: QueryStep| #[trigger]
        watcher.stage->Lookup_0.leads_to(answer, found) && looks_on(watcher.plan, found, step);
    assert(watcher.stage->Lookup_0.leads_to(answer, found));
}

/// Just a server that runs, of which a replica is ready and which takes a connection, is asked for
/// its players, by its own address; the watch over any other is given up.
pub proof fn law_only_running_servers_are_watched_on(
    watcher: Watcher,
    connectable: bool,
    step: WatchStep,
)
    requires
        watcher.stage is Connect,
        watcher.leads_to(WatchEvent::Connected(connectable), step),
    ensures
        ({
            let server = watcher.stage->Connect_server;
            let asked = {
                &&& connectable
                &&& var_string_fits(server.server_addr@)
                &&& server.dep.status matches Some(s)
                &&& s.replicas matches Some(n)
                &&& n > 0
                &&& s.ready_replicas matches Some(r)
                &&& r > 0
            };
            &&& asked ==> {
                &&& step matches WatchStep::Next(next)
                &&& next.plan == watcher.plan
                &&& next.stage matches WatchStage::Describe { server: told, request }
                &&& told == server
                &&& request.handshake.server_address.value@ == server.server_addr@
                &&& request.handshake.next_state.int_value() == 1
            }
            &&& !asked ==> step is GaveUp
        }),
{
}

/// Every stage takes the event that it waits for; a service that was fetched it takes if it can be
/// made out what the server is up to.
pub proof fn law_watcher_takes(watcher: Watcher, event: WatchEvent)
    ensures
        watcher.accepts(event) <==> match watcher.stage {
            WatchStage::Sleep => event is Slept,
            WatchStage::Lookup(query) => event matches WatchEvent::Cluster(answer)
                && query.answered_by(answer) && match (query.stage, answer) {
                (
                    QueryStage::Service { deployment, .. },
                    QueryEvent::Service(Ok(service)),
                ) => answerable(deployment, service),
                _ => true,
            },
            WatchStage::Connect { .. } => event is Connected,
            WatchStage::Describe { .. } => event is Described,
            WatchStage::Forget(_) => event is Forgotten,
            WatchStage::Stop(_) => event is Stopped,
        },
{
}

} // verus!
