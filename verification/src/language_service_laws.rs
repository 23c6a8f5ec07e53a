//! What a language service does over several of its steps.

use crate::json::Json;
use crate::language_service;
use crate::language_service::{
    LaunchOutcome, Phase, ReloadStep, Search, Service, ServiceAction, TransportStatus,
};
use crate::protocol::{Doc, Proto, ProtocolState};
use vstd::prelude::*;

verus! {

/// A service that fails to start is tried again five times, after waits that begin
/// with a quarter of a second and double each time, and then no more.
pub proof fn waits_double(s: Service, now: u64)
    requires
        s.retries < 255,
        now <= u64::MAX - 100_000,
    ensures
        ({
            let t = language_service::launched(
                s,
                LaunchOutcome::Failed { cleanup_confirmed: true },
                now,
            );
            &&& t.retries == s.retries + 1
            &&& s.retries == 0 ==> t.phase == Phase::Backoff((now + 250) as u64)
            &&& s.retries == 1 ==> t.phase == Phase::Backoff((now + 500) as u64)
            &&& s.retries == 2 ==> t.phase == Phase::Backoff((now + 1000) as u64)
            &&& s.retries == 3 ==> t.phase == Phase::Backoff((now + 2000) as u64)
            &&& s.retries == 4 ==> t.phase == Phase::Backoff((now + 4000) as u64)
            &&& s.retries >= 5 ==> t.phase is Unavailable
            &&& t.generation == s.generation
            &&& t.uncertain == s.uncertain
        }),
{
}

/// A wait that is over leads to a new search where the language server may be
/// written to, and not before.
pub proof fn a_wait_ends_in_a_search(
    s: Service,
    search: Search,
    transport: TransportStatus,
    messages: Seq<Json>,
    documents: Seq<Doc>,
    writes: bool,
    now: u64,
    until: u64,
)
    requires
        s.phase == Phase::Backoff(until),
    ensures
        ({
            let (t, round) = language_service::serviced(
                s,
                search,
                transport,
                messages,
                documents,
                writes,
                now,
            );
            &&& t == s
            &&& round.action == ServiceAction::BeginResolution <==> writes && now >= until
            &&& round.action == ServiceAction::BeginResolution <==> round.changed
            &&& round.completions.len() == 0
            &&& round.diagnostics.len() == 0
            &&& round.record is None
        }),
{
}

/// A search begins under a number of its own, and its end is what the service waits
/// for: what it found is reported under the number that it was found for, and until
/// it is over nothing happens.
pub proof fn a_search_is_reported(
    s: Service,
    search: Search,
    transport: TransportStatus,
    messages: Seq<Json>,
    documents: Seq<Doc>,
    writes: bool,
    now: u64,
)
    requires
        s.phase is Resolving,
    ensures
        ({
            let (t, round) = language_service::serviced(
                s,
                search,
                transport,
                messages,
                documents,
                writes,
                now,
            );
            match search {
                Search::Underway => t == s && !round.changed && round.record is None,
                Search::Over(None) => t.phase is Unavailable && t.uncertain && round.record is None
                    && round.changed,
                Search::Over(Some(r)) => {
                    &&& t.phase == Phase::Pending(r)
                    &&& t.uncertain <==> s.uncertain || !r.cleanup_confirmed
                    &&& round.changed
                    &&& round.record matches Some((number, report, available, detail)) && {
                        &&& number == r.generation
                        &&& report == r.report.view()
                        &&& available <==> r.launch is Ok
                        &&& r.launch is Err ==> detail == r.launch->Err_0@
                        &&& r.launch is Ok ==> detail == "fresh installed tools resolved"@
                    }
                },
            }
        }),
{
}

/// What was found is started where the report of it was written down, nothing of the
/// search is left running and it names something to start. Otherwise the service is
/// given up.
pub proof fn what_was_found_is_started(s: Service, r: crate::resolution::Resolution, written: bool)
    requires
        s.phase == Phase::Pending(r),
    ensures
        ({
            let (t, start) = language_service::authorized(s, written);
            if r.cleanup_confirmed && written && r.launch is Ok {
                start == Some(r.launch->Ok_0.view()) && t.phase is Stopped && t.uncertain
                    == s.uncertain
            } else {
                start is None && t.phase is Unavailable && (t.uncertain <==> s.uncertain
                    || !r.cleanup_confirmed)
            }
        }),
{
}

/// A server that has been ready for half a minute has its failures forgotten, and
/// one that has not keeps them.
pub proof fn a_healthy_server_is_forgiven(
    s: Service,
    p: Proto,
    search: Search,
    transport: TransportStatus,
    messages: Seq<Json>,
    documents: Seq<Doc>,
    writes: bool,
    now: u64,
)
    requires
        s.phase == Phase::Running(p),
    ensures
        ({
            let (t, round) = language_service::serviced(
                s,
                search,
                transport,
                messages,
                documents,
                writes,
                now,
            );
            &&& (p.ready_since matches Some(since) && now >= since + 30_000) ==> t.retries == 0
            &&& p.ready_since is None ==> t.retries == s.retries
            &&& (p.ready_since matches Some(since) && now < since + 30_000) ==> t.retries
                == s.retries
            &&& transport != TransportStatus::Alive ==> round.action == ServiceAction::StopFailed
                && t.phase == s.phase
        }),
{
}

/// A server that fails is waited for again, unless something of it may still run: then
/// it is given up for good.
pub proof fn a_failed_server_is_tried_again(s: Service, gone: bool, now: u64)
    requires
        s.phase is Running,
        s.retries < 255,
        now <= u64::MAX - 100_000,
    ensures
        ({
            let t = language_service::failed_running(s, gone, now);
            &&& t.retries == s.retries + 1
            &&& t.uncertain <==> s.uncertain || !gone
            &&& t.phase is Backoff <==> !s.uncertain && gone && s.retries < 5
            &&& !(t.phase is Backoff) ==> t.phase is Unavailable
            &&& t.phase is Backoff && s.retries == 0 ==> t.phase == Phase::Backoff(
                (now + 250) as u64,
            )
        }),
{
}

/// A reload is asked of a server that is ready. Any other is started anew, with its
/// failures forgotten, unless something of it may still run.
pub proof fn a_reload_is_asked_or_starts_anew(s: Service, gone: bool, now: u64)
    ensures
        s.uncertain ==> language_service::reload_wanted(s, now).1 == ReloadStep::Refused,
        !s.uncertain && !(s.phase is Running) ==> language_service::reload_wanted(s, now) == (
            s,
            ReloadStep::Restart,
        ),
        !s.uncertain && (s.phase matches Phase::Running(p) && p.state != ProtocolState::Ready)
            ==> language_service::reload_wanted(s, now) == (s, ReloadStep::Restart),
        language_service::reload_wanted(s, now).1 == ReloadStep::Asked ==> (s.phase
            matches Phase::Running(p) && p.state == ProtocolState::Ready),
        s.phase is Running && !s.uncertain && gone ==> language_service::restarted(s, gone).phase
            is Stopped && language_service::restarted(s, gone).retries == 0,
        s.phase is Running && !gone ==> language_service::restarted(s, gone).phase is Unavailable
            && language_service::restarted(s, gone).uncertain,
{
}

/// The next search has the next number.
pub proof fn searches_are_numbered(s: Service, started: bool)
    requires
        s.generation < u64::MAX,
    ensures
        ({
            let t = language_service::search_begun(s, started);
            &&& t.generation == s.generation + 1
            &&& t.phase is Resolving <==> started
            &&& t.phase is Unavailable <==> !started
            &&& t.retries == s.retries
        }),
{
}

} // verus!
