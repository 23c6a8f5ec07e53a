//! The life of a language server: when it is started, when it is started
//! again, and when it is let be.

use crate::json::{items_view, Json, JsonValue};
use crate::lsp_parse::Utf16Position;
use crate::protocol::{
    docs_view, published_view, responses_view, CompletionResponse, Doc, DocumentState, Proto, Protocol,
    ProtocolState, Published, PublishedDiagnostics, Response, LAST_MOMENT, MAX_MESSAGES_PER_POLL,
};
use crate::protocol_turn::{completion_asked, in_step, polled, reload_asked};
use crate::resolution::{Launch, LaunchSpec, Report, Resolution, ToolchainReport};
use vstd::prelude::*;

verus! {

pub const HEALTHY_RESET: u64 = 30_000;

pub const MAX_AUTOMATIC_RETRIES: u8 = 5;

/// Where a server is in its life. `Pending` is a search that is over and not
/// yet acted on.
pub enum ServiceState {
    Resolving,
    Pending(Resolution),
    Running(Protocol),
    Backoff { until: u64 },
    Unavailable,
    Stopped,
}

pub enum Phase {
    Resolving,
    Pending(Resolution),
    Running(Proto),
    Backoff(u64),
    Unavailable,
    Stopped,
}

impl ServiceState {
    pub open spec fn view(&self) -> Phase {
        match self {
            ServiceState::Resolving => Phase::Resolving,
            ServiceState::Pending(r) => Phase::Pending(*r),
            ServiceState::Running(p) => Phase::Running(p.view()),
            ServiceState::Backoff { until } => Phase::Backoff(*until),
            ServiceState::Unavailable => Phase::Unavailable,
            ServiceState::Stopped => Phase::Stopped,
        }
    }
}

pub struct LanguageService {
    pub generation: u64,
    pub retries: u8,
    pub cleanup_uncertain: bool,
    pub state: ServiceState,
}

pub struct Service {
    pub generation: u64,
    pub retries: u8,
    pub uncertain: bool,
    pub phase: Phase,
}

impl Service {
    pub open spec fn well_formed(&self) -> bool {
        self.phase matches Phase::Running(p) ==> p.well_formed()
    }
}

/// What is reported of a search that is over.
pub struct ResolutionRecord {
    pub generation: u64,
    pub report: ToolchainReport,
    pub launch_available: bool,
    pub detail: String,
}

pub open spec fn detail_of(launch: Result<LaunchSpec, String>) -> Seq<char> {
    match launch {
        Ok(_) => "fresh installed tools resolved"@,
        Err(why) => why@,
    }
}

/// What is asked of the outside after a round.
#[derive(Clone, Copy, Debug, PartialEq, Eq, Structural)]
pub enum ServiceAction {
    Nothing,
    BeginResolution,
    StopFailed,
}

/// How the outside stands: a search that is over (`None` where it broke down)
/// or under way, and a process that is alive or not.
pub enum Search {
    Underway,
    Over(Option<Resolution>),
}

#[derive(Clone, Copy, Debug, PartialEq, Eq, Structural)]
pub enum TransportStatus {
    Alive,
    Exited,
    Failed,
}

pub struct ServicePoll {
    pub changed: bool,
    pub resolution: Option<ResolutionRecord>,
    pub completions: Vec<CompletionResponse>,
    pub diagnostics: Vec<PublishedDiagnostics>,
    pub diagnostic_generation: Option<u64>,
    pub action: ServiceAction,
}

pub struct Round {
    pub changed: bool,
    pub record: Option<(u64, Report, bool, Seq<char>)>,
    pub completions: Seq<Response>,
    pub diagnostics: Seq<Published>,
    pub generation: Option<u64>,
    pub action: ServiceAction,
}

impl ServicePoll {
    pub open spec fn view(&self) -> Round {
        Round {
            changed: self.changed,
            record: match self.resolution {
                Some(r) => Some((r.generation, r.report.view(), r.launch_available, r.detail@)),
                None => None,
            },
            completions: responses_view(self.completions@),
            diagnostics: published_view(self.diagnostics@),
            generation: self.diagnostic_generation,
            action: self.action,
        }
    }
}

pub open spec fn quiet(changed: bool, action: ServiceAction) -> Round {
    Round {
        changed,
        record: None,
        completions: Seq::empty(),
        diagnostics: Seq::empty(),
        generation: None,
        action,
    }
}

/// The end of a search is taken in. One that broke down leaves doubt.
pub open spec fn searched(s: Service, search: Search) -> Service {
    match search {
        Search::Underway => s,
        Search::Over(found) => if s.phase is Resolving {
            match found {
                Some(r) => Service {
                    uncertain: s.uncertain || !r.cleanup_confirmed,
                    phase: Phase::Pending(r),
                    ..s
                },
                None => Service { uncertain: true, phase: Phase::Unavailable, ..s },
            }
        } else {
            s
        },
    }
}

pub open spec fn healthy(p: Proto, now: u64) -> bool {
    p.ready_since matches Some(since) && now >= since + HEALTHY_RESET
}

/// A round of a server that runs.
pub open spec fn ran(
    s: Service,
    p: Proto,
    transport: TransportStatus,
    messages: Seq<Json>,
    documents: Seq<Doc>,
    writes: bool,
    now: u64,
    changed: bool,
) -> (Service, Round) {
    let retries = if healthy(p, now) {
        0
    } else {
        s.retries
    };
    if transport != TransportStatus::Alive {
        (Service { retries, ..s }, quiet(true, ServiceAction::StopFailed))
    } else {
        let step = polled(p, messages, documents, writes, now);
        let q = Proto { completions: Seq::empty(), diagnostics: Seq::empty(), ..step.next };
        (
            Service { retries, phase: Phase::Running(q), ..s },
            Round {
                changed: changed || step.fault is Some || messages.len() > 0,
                record: None,
                completions: step.next.completions,
                diagnostics: if step.fault is Some {
                    Seq::empty()
                } else {
                    step.next.diagnostics
                },
                generation: if step.fault is None && step.next.state == ProtocolState::Ready {
                    Some(step.next.generation)
                } else {
                    None
                },
                action: if step.fault is Some {
                    ServiceAction::StopFailed
                } else {
                    ServiceAction::Nothing
                },
            },
        )
    }
}

pub open spec fn serviced(
    s: Service,
    search: Search,
    transport: TransportStatus,
    messages: Seq<Json>,
    documents: Seq<Doc>,
    writes: bool,
    now: u64,
) -> (Service, Round) {
    let t = searched(s, search);
    let over = s.phase is Resolving && search is Over;
    match t.phase {
        Phase::Pending(r) => (
            t,
            Round {
                record: Some((r.generation, r.report.view(), r.launch is Ok, detail_of(r.launch))),
                ..quiet(true, ServiceAction::Nothing)
            },
        ),
        Phase::Backoff(until) => if writes && now >= until {
            (t, quiet(true, ServiceAction::BeginResolution))
        } else {
            (t, quiet(over, ServiceAction::Nothing))
        },
        Phase::Running(p) => ran(t, p, transport, messages, documents, writes, now, over),
        _ => (t, quiet(over, ServiceAction::Nothing)),
    }
}

/// How long to wait before the next start, in milliseconds: twice as long each
/// time, up to eight seconds.
pub open spec fn backoff_millis(retries: u8) -> u64 {
    if retries <= 1 {
        250
    } else if retries == 2 {
        500
    } else if retries == 3 {
        1_000
    } else if retries == 4 {
        2_000
    } else if retries == 5 {
        4_000
    } else {
        8_000
    }
}

pub open spec fn more(retries: u8) -> u8 {
    if retries < 255 {
        (retries + 1) as u8
    } else {
        retries
    }
}

/// Another start after a while, as long as there were not too many.
pub open spec fn retried(s: Service, now: u64) -> Service {
    let retries = more(s.retries);
    Service {
        retries,
        phase: if retries <= MAX_AUTOMATIC_RETRIES {
            Phase::Backoff((now + backoff_millis(retries)) as u64)
        } else {
            Phase::Unavailable
        },
        ..s
    }
}

/// Whether what runs is known to be gone: what the outside says of a search or
/// a process, what a search said of itself, and nothing otherwise.
pub open spec fn gone(phase: Phase, outside: bool) -> bool {
    match phase {
        Phase::Resolving => outside,
        Phase::Running(_) => outside,
        Phase::Pending(r) => r.cleanup_confirmed,
        _ => true,
    }
}

pub open spec fn halted(s: Service, outside: bool) -> Service {
    Service { phase: Phase::Stopped, uncertain: s.uncertain || !gone(s.phase, outside), ..s }
}

pub open spec fn failed_running(s: Service, outside: bool, now: u64) -> Service {
    let t = halted(s, outside);
    if t.uncertain {
        Service { retries: more(t.retries), phase: Phase::Unavailable, ..t }
    } else {
        retried(t, now)
    }
}

pub open spec fn next_number(generation: u64) -> u64 {
    if generation < u64::MAX {
        (generation + 1) as u64
    } else {
        generation
    }
}

pub open spec fn search_begun(s: Service, started: bool) -> Service {
    Service {
        generation: next_number(s.generation),
        phase: if started {
            Phase::Resolving
        } else {
            Phase::Unavailable
        },
        ..s
    }
}

/// What a search that was reported leads to: a start, or nothing.
pub open spec fn authorized(s: Service, published: bool) -> (Service, Option<Launch>) {
    match s.phase {
        Phase::Pending(r) => if !r.cleanup_confirmed {
            (Service { uncertain: true, phase: Phase::Unavailable, ..s }, None)
        } else if !published {
            (Service { phase: Phase::Unavailable, ..s }, None)
        } else {
            match r.launch {
                Err(_) => (Service { phase: Phase::Unavailable, ..s }, None),
                Ok(launch) => (Service { phase: Phase::Stopped, ..s }, Some(launch.view())),
            }
        },
        _ => (s, None),
    }
}

/// How a start went.
pub enum LaunchOutcome {
    Running(Protocol),
    Failed { cleanup_confirmed: bool },
}

pub open spec fn launched(s: Service, outcome: LaunchOutcome, now: u64) -> Service {
    match outcome {
        LaunchOutcome::Running(p) => Service { phase: Phase::Running(p.view()), ..s },
        LaunchOutcome::Failed { cleanup_confirmed } => if cleanup_confirmed {
            retried(s, now)
        } else {
            Service { uncertain: true, phase: Phase::Unavailable, ..s }
        },
    }
}

/// What a request for a reload leads to.
#[derive(Clone, Copy, Debug, PartialEq, Eq, Structural)]
pub enum ReloadStep {
    Refused,
    Asked,
    Restart,
}

pub open spec fn reload_wanted(s: Service, now: u64) -> (Service, ReloadStep) {
    if s.uncertain {
        (s, ReloadStep::Refused)
    } else {
        match s.phase {
            Phase::Running(p) => if p.state == ProtocolState::Ready {
                let step = reload_asked(p, now);
                (
                    Service { phase: Phase::Running(step.next), ..s },
                    if step.fault is None {
                        ReloadStep::Asked
                    } else {
                        ReloadStep::Restart
                    },
                )
            } else {
                (s, ReloadStep::Restart)
            },
            _ => (s, ReloadStep::Restart),
        }
    }
}

pub open spec fn restarted(s: Service, outside: bool) -> Service {
    let t = halted(s, outside);
    if t.uncertain {
        Service { phase: Phase::Unavailable, ..t }
    } else {
        Service { retries: 0, ..t }
    }
}

pub open spec fn status_text(phase: Phase) -> Seq<char> {
    match phase {
        Phase::Resolving => "LSP resolving"@,
        Phase::Pending(_) => "LSP resolving"@,
        Phase::Running(p) => match p.state {
            ProtocolState::Initializing => "LSP initializing"@,
            ProtocolState::Ready => "LSP ready"@,
            _ => "LSP stopping"@,
        },
        Phase::Backoff(_) => "LSP retry pending"@,
        Phase::Unavailable => "LSP unavailable"@,
        Phase::Stopped => "LSP stopped"@,
    }
}

fn no_round(changed: bool, action: ServiceAction) -> (r: ServicePoll)
    ensures
        r.view() == quiet(changed, action),
{
    let completions: Vec<CompletionResponse> = Vec::new();
    let diagnostics: Vec<PublishedDiagnostics> = Vec::new();
    assert(responses_view(completions@) =~= Seq::<Response>::empty());
    assert(published_view(diagnostics@) =~= Seq::<Published>::empty());
    ServicePoll {
        changed,
        resolution: None,
        completions,
        diagnostics,
        diagnostic_generation: None,
        action,
    }
}

fn take_completions(p: &mut Protocol) -> (r: Vec<CompletionResponse>)
    ensures
        responses_view(r@) == old(p).view().completions,
        final(p).view() == (Proto { completions: Seq::empty(), ..old(p).view() }),
{
    let mut r: Vec<CompletionResponse> = Vec::new();
    std::mem::swap(&mut r, &mut p.completions);
    assert(p.view().completions =~= Seq::<Response>::empty());
    r
}

fn take_diagnostics(p: &mut Protocol) -> (r: Vec<PublishedDiagnostics>)
    ensures
        published_view(r@) == old(p).view().diagnostics,
        final(p).view() == (Proto { diagnostics: Seq::empty(), ..old(p).view() }),
{
    let mut r: Vec<PublishedDiagnostics> = Vec::new();
    std::mem::swap(&mut r, &mut p.diagnostics);
    assert(p.view().diagnostics =~= Seq::<Published>::empty());
    r
}

impl LanguageService {
    pub open spec fn view(&self) -> Service {
        Service {
            generation: self.generation,
            retries: self.retries,
            uncertain: self.cleanup_uncertain,
            phase: self.state.view(),
        }
    }

    /// A service whose first search has started, or could not.
    pub fn start(started: bool) -> (r: LanguageService)
        ensures
            r.view() == (Service {
                generation: 1,
                retries: 0,
                uncertain: false,
                phase: if started {
                    Phase::Resolving
                } else {
                    Phase::Unavailable
                },
            }),
            r.view().well_formed(),
    {
        let state = if started {
            ServiceState::Resolving
        } else {
            ServiceState::Unavailable
        };
        LanguageService { generation: 1, retries: 0, cleanup_uncertain: false, state }
    }

    fn take_search(&mut self, search: Search) -> (over: bool)
        requires
            old(self).view().well_formed(),
        ensures
            final(self).view() == searched(old(self).view(), search),
            final(self).view().well_formed(),
            over == (old(self).view().phase is Resolving && search is Over),
    {
        let resolving = match &self.state {
            ServiceState::Resolving => true,
            _ => false,
        };
        match search {
            Search::Underway => false,
            Search::Over(found) => {
                if resolving {
                    match found {
                        Some(r) => {
                            self.cleanup_uncertain = self.cleanup_uncertain || !r.cleanup_confirmed;
                            self.state = ServiceState::Pending(r);
                        },
                        None => {
                            self.cleanup_uncertain = true;
                            self.state = ServiceState::Unavailable;
                        },
                    }
                }
                resolving
            },
        }
    }

    /// One round. `messages` are those that came since the last one.
    pub fn poll(
        &mut self,
        search: Search,
        transport: TransportStatus,
        messages: &Vec<JsonValue>,
        documents: &Vec<DocumentState>,
        writes_allowed: bool,
        now: u64,
    ) -> (r: ServicePoll)
        requires
            old(self).view().well_formed(),
            messages@.len() <= MAX_MESSAGES_PER_POLL,
        ensures
            final(self).view() == serviced(
                old(self).view(),
                search,
                transport,
                items_view(messages@),
                docs_view(documents@),
                writes_allowed,
                now,
            ).0,
            r.view() == serviced(
                old(self).view(),
                search,
                transport,
                items_view(messages@),
                docs_view(documents@),
                writes_allowed,
                now,
            ).1,
            final(self).view().well_formed(),
    {
        let over = self.take_search(search);
        let ghost t = self.view();
        match &mut self.state {
            ServiceState::Pending(resolution) => {
                let (launch_available, detail) = match &resolution.launch {
                    Ok(_) => (true, "fresh installed tools resolved".to_owned()),
                    Err(why) => (false, why.clone()),
                };
                let mut r = no_round(true, ServiceAction::Nothing);
                r.resolution = Some(
                    ResolutionRecord {
                        generation: resolution.generation,
                        report: resolution.report.clone(),
                        launch_available,
                        detail,
                    },
                );
                r
            },
            ServiceState::Backoff { until } => {
                if writes_allowed && now >= *until {
                    no_round(true, ServiceAction::BeginResolution)
                } else {
                    no_round(over, ServiceAction::Nothing)
                }
            },
            ServiceState::Running(protocol) => {
                match protocol.ready_since {
                    Some(since) => {
                        if now >= since && now - since >= HEALTHY_RESET {
                            self.retries = 0;
                        }
                    },
                    None => {},
                }
                if transport != TransportStatus::Alive {
                    return no_round(true, ServiceAction::StopFailed);
                }
                let result = protocol.poll(messages, documents, writes_allowed, now);
                let completions = take_completions(protocol);
                let diagnostics = take_diagnostics(protocol);
                let generation = protocol.generation;
                let ready = protocol.state == ProtocolState::Ready;
                match result {
                    Ok(heard) => {
                        ServicePoll {
                            changed: over || heard,
                            resolution: None,
                            completions,
                            diagnostics,
                            diagnostic_generation: if ready {
                                Some(generation)
                            } else {
                                None
                            },
                            action: ServiceAction::Nothing,
                        }
                    },
                    Err(_) => {
                        let mut r = no_round(true, ServiceAction::StopFailed);
                        r.completions = completions;
                        r
                    },
                }
            },
            _ => no_round(over, ServiceAction::Nothing),
        }
    }

    /// Under which generation completions of a document can be asked for.
    pub fn completion_generation(&self, document: &DocumentState) -> (r: Option<u64>)
        ensures
            r == match self.view().phase {
                Phase::Running(p) => if in_step(p, document.view()) {
                    Some(p.generation)
                } else {
                    None
                },
                _ => None,
            },
    {
        match &self.state {
            ServiceState::Running(protocol) => {
                if protocol.follows(document) {
                    Some(protocol.generation)
                } else {
                    None
                }
            },
            _ => None,
        }
    }

    pub fn completion_generation_is_ready(&self, generation: u64) -> (r: bool)
        ensures
            r == (self.view().phase matches Phase::Running(p) && p.state == ProtocolState::Ready
                && p.generation == generation),
    {
        match &self.state {
            ServiceState::Running(protocol) => protocol.state == ProtocolState::Ready
                && protocol.generation == generation,
            _ => false,
        }
    }

    /// Asks for completions. Says whether they were asked for.
    pub fn request_completion(
        &mut self,
        document: &DocumentState,
        position_byte: u64,
        position: Utf16Position,
        request_sequence: u64,
        now: u64,
    ) -> (r: bool)
        requires
            old(self).view().well_formed(),
            now <= LAST_MOMENT,
        ensures
            final(self).view().well_formed(),
            match old(self).view().phase {
                Phase::Running(p) => {
                    let step = completion_asked(
                        p,
                        document.view(),
                        position_byte,
                        position,
                        request_sequence,
                        now,
                    );
                    &&& final(self).view() == (Service {
                        phase: Phase::Running(step.next),
                        ..old(self).view()
                    })
                    &&& r == (step.fault is None && in_step(p, document.view()))
                },
                _ => final(self).view() == old(self).view() && !r,
            },
    {
        match &mut self.state {
            ServiceState::Running(protocol) => {
                match protocol.request_completion(
                    document,
                    position_byte,
                    position,
                    request_sequence,
                    now,
                ) {
                    Ok(id) => id.is_some(),
                    Err(_) => false,
                }
            },
            _ => false,
        }
    }

    /// Acts on a search that was reported. Gives what to start, if anything.
    pub fn authorize_resolution(&mut self, published: bool) -> (r: Option<LaunchSpec>)
        requires
            old(self).view().well_formed(),
        ensures
            final(self).view() == authorized(old(self).view(), published).0,
            final(self).view().well_formed(),
            match authorized(old(self).view(), published).1 {
                Some(launch) => r is Some && r->0.view() == launch,
                None => r is None,
            },
    {
        let pending = match &self.state {
            ServiceState::Pending(_) => true,
            _ => false,
        };
        if !pending {
            return None;
        }
        let mut state = ServiceState::Stopped;
        std::mem::swap(&mut state, &mut self.state);
        match state {
            ServiceState::Pending(resolution) => {
                if !resolution.cleanup_confirmed {
                    self.cleanup_uncertain = true;
                    self.state = ServiceState::Unavailable;
                    return None;
                }
                if !published {
                    self.state = ServiceState::Unavailable;
                    return None;
                }
                match resolution.launch {
                    Ok(spec) => Some(spec),
                    Err(_) => {
                        self.state = ServiceState::Unavailable;
                        None
                    },
                }
            },
            _ => None,
        }
    }

    fn retry(&mut self, now: u64)
        requires
            now <= LAST_MOMENT,
        ensures
            final(self).view() == retried(old(self).view(), now),
    {
        if self.retries < 255 {
            self.retries = self.retries + 1;
        }
        if self.retries <= MAX_AUTOMATIC_RETRIES {
            self.state = ServiceState::Backoff { until: now + backoff(self.retries) };
        } else {
            self.state = ServiceState::Unavailable;
        }
    }

    /// Takes in how a start went.
    pub fn finish_launch(&mut self, outcome: LaunchOutcome, now: u64)
        requires
            outcome matches LaunchOutcome::Running(p) ==> p.view().well_formed(),
            now <= LAST_MOMENT,
        ensures
            final(self).view() == launched(old(self).view(), outcome, now),
            final(self).view().well_formed(),
    {
        match outcome {
            LaunchOutcome::Running(protocol) => {
                self.state = ServiceState::Running(protocol);
            },
            LaunchOutcome::Failed { cleanup_confirmed } => {
                if cleanup_confirmed {
                    self.retry(now);
                } else {
                    self.cleanup_uncertain = true;
                    self.state = ServiceState::Unavailable;
                }
            },
        }
    }

    /// Stops. `outside` says whether the search or the process is known to be
    /// gone. Says whether nothing was ever left behind.
    pub fn cancel_and_stop(&mut self, outside: bool) -> (r: bool)
        ensures
            final(self).view() == halted(old(self).view(), outside),
            final(self).view().well_formed(),
            r == !final(self).view().uncertain,
    {
        let confirmed = match &self.state {
            ServiceState::Resolving => outside,
            ServiceState::Running(_) => outside,
            ServiceState::Pending(resolution) => resolution.cleanup_confirmed,
            _ => true,
        };
        self.state = ServiceState::Stopped;
        self.cleanup_uncertain = self.cleanup_uncertain || !confirmed;
        !self.cleanup_uncertain
    }

    /// A server that failed is stopped, and started again after a while.
    pub fn fail_running(&mut self, outside: bool, now: u64)
        requires
            now <= LAST_MOMENT,
        ensures
            final(self).view() == failed_running(old(self).view(), outside, now),
            final(self).view().well_formed(),
    {
        let confirmed = self.cancel_and_stop(outside);
        if confirmed {
            self.retry(now);
        } else {
            if self.retries < 255 {
                self.retries = self.retries + 1;
            }
            self.state = ServiceState::Unavailable;
        }
    }

    /// The number of the next search.
    pub fn next_generation(&self) -> (r: u64)
        ensures
            r == next_number(self.generation),
    {
        if self.generation < u64::MAX {
            self.generation + 1
        } else {
            self.generation
        }
    }

    /// A search under the next number has started, or could not.
    pub fn begin_resolution(&mut self, started: bool)
        ensures
            final(self).view() == search_begun(old(self).view(), started),
            final(self).view().well_formed(),
    {
        self.generation = self.next_generation();
        self.state = if started {
            ServiceState::Resolving
        } else {
            ServiceState::Unavailable
        };
    }

    /// Asks for a reload. A server that is not ready is started afresh.
    pub fn reload(&mut self, now: u64) -> (r: ReloadStep)
        requires
            old(self).view().well_formed(),
            now <= LAST_MOMENT,
        ensures
            final(self).view() == reload_wanted(old(self).view(), now).0,
            r == reload_wanted(old(self).view(), now).1,
            final(self).view().well_formed(),
    {
        if self.cleanup_uncertain {
            return ReloadStep::Refused;
        }
        match &mut self.state {
            ServiceState::Running(protocol) => {
                if protocol.state == ProtocolState::Ready {
                    match protocol.request_reload(now) {
                        Ok(_) => ReloadStep::Asked,
                        Err(_) => ReloadStep::Restart,
                    }
                } else {
                    ReloadStep::Restart
                }
            },
            _ => ReloadStep::Restart,
        }
    }

    /// Stops for a fresh start. Says whether one may follow.
    pub fn restart(&mut self, outside: bool) -> (r: bool)
        ensures
            final(self).view() == restarted(old(self).view(), outside),
            final(self).view().well_formed(),
            r == !final(self).view().uncertain,
    {
        if !self.cancel_and_stop(outside) {
            self.state = ServiceState::Unavailable;
            return false;
        }
        self.retries = 0;
        true
    }

    pub fn stop_for_authority(&mut self, outside: bool) -> (r: bool)
        ensures
            final(self).view() == halted(old(self).view(), outside),
            final(self).view().well_formed(),
            r == !final(self).view().uncertain,
    {
        self.cancel_and_stop(outside)
    }

    pub fn stop_for_command(&mut self, outside: bool) -> (r: bool)
        ensures
            final(self).view() == halted(old(self).view(), outside),
            final(self).view().well_formed(),
            r == !final(self).view().uncertain,
    {
        self.cancel_and_stop(outside)
    }

    /// Whether a search is to begin after a command.
    pub fn resume_after_command(&self) -> (r: bool)
        ensures
            r == (!self.view().uncertain && self.view().phase is Stopped),
    {
        let stopped = match &self.state {
            ServiceState::Stopped => true,
            _ => false,
        };
        !self.cleanup_uncertain && stopped
    }

    /// Stops for good.
    pub fn shutdown(&mut self, outside: bool) -> (r: bool)
        ensures
            final(self).view() == halted(old(self).view(), outside),
            final(self).view().well_formed(),
            r == !final(self).view().uncertain,
    {
        self.cancel_and_stop(outside)
    }

    pub fn status(&self) -> (r: &'static str)
        ensures
            r@ == status_text(self.view().phase),
    {
        match &self.state {
            ServiceState::Resolving => "LSP resolving",
            ServiceState::Pending(_) => "LSP resolving",
            ServiceState::Running(protocol) => match protocol.state {
                ProtocolState::Initializing => "LSP initializing",
                ProtocolState::Ready => "LSP ready",
                _ => "LSP stopping",
            },
            ServiceState::Backoff { .. } => "LSP retry pending",
            ServiceState::Unavailable => "LSP unavailable",
            ServiceState::Stopped => "LSP stopped",
        }
    }
}

pub fn backoff(retries: u8) -> (r: u64)
    ensures
        r == backoff_millis(retries),
{
    if retries <= 1 {
        250
    } else if retries == 2 {
        500
    } else if retries == 3 {
        1_000
    } else if retries == 4 {
        2_000
    } else if retries == 5 {
        4_000
    } else {
        8_000
    }
}

// What holds of every service.

/// Doubt about a process that was left behind never goes away.
pub proof fn doubt_is_permanent(
    s: Service,
    search: Search,
    transport: TransportStatus,
    messages: Seq<Json>,
    documents: Seq<Doc>,
    writes: bool,
    now: u64,
    outside: bool,
    flag: bool,
    outcome: LaunchOutcome,
)
    requires
        s.uncertain,
    ensures
        serviced(s, search, transport, messages, documents, writes, now).0.uncertain,
        halted(s, outside).uncertain,
        failed_running(s, outside, now).uncertain,
        search_begun(s, flag).uncertain,
        authorized(s, flag).0.uncertain,
        launched(s, outcome, now).uncertain,
        reload_wanted(s, now).0.uncertain,
        restarted(s, outside).uncertain,
{
}

/// With that doubt a reload is refused, and what fails or was to start again stays
/// down.
pub proof fn doubt_forbids_a_restart(s: Service, outside: bool, now: u64)
    requires
        s.uncertain,
    ensures
        reload_wanted(s, now) == (s, ReloadStep::Refused),
        failed_running(s, outside, now).phase is Unavailable,
        restarted(s, outside).phase is Unavailable,
{
}

/// A service after so many starts in a row that failed.
pub open spec fn after_failures(s: Service, n: nat, now: u64) -> Service
    decreases n,
{
    if n == 0 {
        s
    } else {
        launched(
            after_failures(s, (n - 1) as nat, now),
            LaunchOutcome::Failed { cleanup_confirmed: true },
            now,
        )
    }
}

/// One start and five more that fail leave the server down; fewer leave it
/// waiting for another start.
pub proof fn five_retries(s: Service, n: nat, now: u64)
    requires
        s.retries == 0,
        1 <= n <= 255,
        !s.uncertain,
    ensures
        after_failures(s, n, now).retries == n,
        n <= MAX_AUTOMATIC_RETRIES ==> after_failures(s, n, now).phase is Backoff,
        n > MAX_AUTOMATIC_RETRIES ==> after_failures(s, n, now).phase is Unavailable,
    decreases n,
{
    reveal_with_fuel(after_failures, 2);
    if n > 1 {
        five_retries(s, (n - 1) as nat, now);
    }
}

/// Only a search whose tools were reported, and that left nothing behind, is
/// acted on.
pub proof fn a_start_needs_a_report(s: Service, published: bool)
    requires
        authorized(s, published).1 is Some,
    ensures
        published,
        s.phase matches Phase::Pending(r) && r.cleanup_confirmed && r.launch is Ok,
{
}

} // verus!
