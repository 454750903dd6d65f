//! The upgrade cycle of one container as a state machine, and the report of
//! a run over many containers.
//!
//! The machine decides; its caller acts. The caller resolves the latest
//! version, sends notifications, posts the trigger and writes to the store,
//! and tells the machine how each of these went. The machine answers with
//! the next thing to do.

use vstd::prelude::*;
use vstd::string::StringExecFns;
use crate::error::ResolveError;
use crate::registry::{is_success, kind_of, parse_kind, RegistryRef};
use crate::version::{compare_versions, law_no_upgrade_to_same, upgrade_needed};

verus! {

/// How far the cycle of one container has come.
#[derive(Clone, Copy, Debug, PartialEq, Eq, Structural)]
pub enum CycleState {
    /// Nothing is known yet; the latest version is being resolved.
    Pending,
    /// A newer version was resolved.
    Checked,
    /// The notification that the upgrade starts was attempted.
    NotifiedPre,
    /// The trigger was accepted.
    Triggered,
    /// The new version was written to the store.
    Persisted,
    /// The notification that the upgrade is complete was attempted.
    NotifiedPost,
    /// The resolved version is not newer than the recorded one.
    Skipped,
    /// The trigger was refused or could not be delivered.
    TriggerFailed,
    /// The latest version could not be resolved.
    CheckFailed,
    /// The trigger was accepted and the store refused the write.
    StoreWriteFailed,
}

/// How the cycle of one container ended.
#[derive(Clone, Copy, Debug, PartialEq, Eq, Structural)]
pub enum Outcome {
    Skipped,
    Upgraded,
    TriggerFailed,
    CheckFailed,
    StoreWriteFailed,
}

/// What the caller is to do next.
#[derive(Clone, Copy, Debug, PartialEq, Eq, Structural)]
pub enum Action {
    /// Send the notification that the upgrade starts, then report `Notified`.
    NotifyStarting,
    /// Post the trigger, then report its status or that it was unreachable.
    Trigger,
    /// Send the notification that the trigger failed, then go on to the
    /// next container.
    NotifyTriggerFailed,
    /// Write the latest version to the store, then report `Stored`.
    Persist,
    /// Send the notification that the upgrade is complete, then report
    /// `Notified`.
    NotifyCompleted,
    /// The cycle is over.
    Finish(Outcome),
    /// The event does not belong to this state: nothing changes.
    Ignore,
}

/// What the caller reports.
#[derive(Debug)]
pub enum Event {
    /// The latest version was resolved.
    Resolved(String),
    /// The latest version could not be resolved.
    ResolveFailed(ResolveError),
    /// A notification was attempted; `true` where it was delivered.
    Notified(bool),
    /// The trigger was answered with this status.
    TriggerReplied(u16),
    /// The trigger got no answer.
    TriggerUnreachable,
    /// A write to the store was attempted; `true` where it succeeded.
    Stored(bool),
}

/// The cycle of one container.
#[derive(Debug)]
pub struct Cycle {
    pub state: CycleState,
    /// The version that the store recorded when the cycle began.
    pub current_version: String,
    /// The version that was resolved, once one was.
    pub latest_version: Option<String>,
    /// Why the latest version could not be resolved, where it could not.
    pub check_error: Option<ResolveError>,
    /// The status with which the trigger was answered, where it was.
    pub trigger_status: Option<u16>,
}

/// `Event` as a mathematical value.
pub enum EventModel {
    Resolved(Seq<char>),
    ResolveFailed(ResolveError),
    Notified(bool),
    TriggerReplied(u16),
    TriggerUnreachable,
    Stored(bool),
}

/// `Cycle` as a mathematical value.
pub struct CycleModel {
    pub state: CycleState,
    pub current: Seq<char>,
    pub latest: Option<Seq<char>>,
    pub check_error: Option<ResolveError>,
    pub trigger_status: Option<u16>,
}

impl View for Event {
    type V = EventModel;

    open spec fn view(&self) -> EventModel {
        match *self {
            Event::Resolved(latest) => EventModel::Resolved(latest@),
            Event::ResolveFailed(e) => EventModel::ResolveFailed(e),
            Event::Notified(delivered) => EventModel::Notified(delivered),
            Event::TriggerReplied(status) => EventModel::TriggerReplied(status),
            Event::TriggerUnreachable => EventModel::TriggerUnreachable,
            Event::Stored(written) => EventModel::Stored(written),
        }
    }
}

impl View for Cycle {
    type V = CycleModel;

    open spec fn view(&self) -> CycleModel {
        CycleModel {
            state: self.state,
            current: self.current_version@,
            latest: match self.latest_version {
                Some(l) => Some(l@),
                None => None,
            },
            check_error: self.check_error,
            trigger_status: self.trigger_status,
        }
    }
}

/// The cycle as it stands before anything was done.
pub open spec fn initial(current: Seq<char>) -> CycleModel {
    CycleModel {
        state: CycleState::Pending,
        current,
        latest: None,
        check_error: None,
        trigger_status: None,
    }
}

/// The same cycle in another state.
pub open spec fn moved(c: CycleModel, state: CycleState) -> CycleModel {
    CycleModel { state, ..c }
}

/// The outcome that a state stands for; `None` while the cycle is running.
pub open spec fn outcome_of(state: CycleState) -> Option<Outcome> {
    match state {
        CycleState::NotifiedPost => Some(Outcome::Upgraded),
        CycleState::Skipped => Some(Outcome::Skipped),
        CycleState::TriggerFailed => Some(Outcome::TriggerFailed),
        CycleState::CheckFailed => Some(Outcome::CheckFailed),
        CycleState::StoreWriteFailed => Some(Outcome::StoreWriteFailed),
        _ => None,
    }
}

/// The transition of the machine: the cycle after the event, and what the
/// caller is to do next.
pub open spec fn next(c: CycleModel, e: EventModel) -> (CycleModel, Action) {
    match c.state {
        CycleState::Pending => match e {
            EventModel::Resolved(latest) => if upgrade_needed(c.current, latest) {
                (
                    CycleModel { state: CycleState::Checked, latest: Some(latest), ..c },
                    Action::NotifyStarting,
                )
            } else {
                (
                    CycleModel { state: CycleState::Skipped, latest: Some(latest), ..c },
                    Action::Finish(Outcome::Skipped),
                )
            },
            EventModel::ResolveFailed(error) => (
                CycleModel { state: CycleState::CheckFailed, check_error: Some(error), ..c },
                Action::Finish(Outcome::CheckFailed),
            ),
            _ => (c, Action::Ignore),
        },
        CycleState::Checked => match e {
            EventModel::Notified(_) => (moved(c, CycleState::NotifiedPre), Action::Trigger),
            _ => (c, Action::Ignore),
        },
        CycleState::NotifiedPre => match e {
            EventModel::TriggerReplied(status) => if is_success(status) {
                (
                    CycleModel { state: CycleState::Triggered, trigger_status: Some(status), ..c },
                    Action::Persist,
                )
            } else {
                (
                    CycleModel {
                        state: CycleState::TriggerFailed,
                        trigger_status: Some(status),
                        ..c
                    },
                    Action::NotifyTriggerFailed,
                )
            },
            EventModel::TriggerUnreachable => (
                moved(c, CycleState::TriggerFailed),
                Action::NotifyTriggerFailed,
            ),
            _ => (c, Action::Ignore),
        },
        CycleState::Triggered => match e {
            EventModel::Stored(written) => if written {
                (moved(c, CycleState::Persisted), Action::NotifyCompleted)
            } else {
                (
                    moved(c, CycleState::StoreWriteFailed),
                    Action::Finish(Outcome::StoreWriteFailed),
                )
            },
            _ => (c, Action::Ignore),
        },
        CycleState::Persisted => match e {
            EventModel::Notified(_) => (
                moved(c, CycleState::NotifiedPost),
                Action::Finish(Outcome::Upgraded),
            ),
            _ => (c, Action::Ignore),
        },
        CycleState::NotifiedPost => (c, Action::Finish(Outcome::Upgraded)),
        CycleState::Skipped => (c, Action::Finish(Outcome::Skipped)),
        CycleState::TriggerFailed => (c, Action::Finish(Outcome::TriggerFailed)),
        CycleState::CheckFailed => (c, Action::Finish(Outcome::CheckFailed)),
        CycleState::StoreWriteFailed => (c, Action::Finish(Outcome::StoreWriteFailed)),
    }
}

/// Starts the cycle of a container whose recorded version is
/// `current_version`. The caller resolves the latest version next.
pub fn begin(current_version: &str) -> (c: Cycle)
    ensures
        c@ == initial(current_version@),
{
    Cycle {
        state: CycleState::Pending,
        current_version: String::from_str(current_version),
        latest_version: None,
        check_error: None,
        trigger_status: None,
    }
}

/// Takes the cycle one step further on an event.
pub fn step(cycle: Cycle, event: Event) -> (r: (Cycle, Action))
    ensures
        (r.0@, r.1) == next(cycle@, event@),
{
    let mut c = cycle;
    let action = match c.state {
        CycleState::Pending => match event {
            Event::Resolved(latest) => {
                let newer = compare_versions(c.current_version.as_str(), latest.as_str());
                c.latest_version = Some(latest);
                if newer {
                    c.state = CycleState::Checked;
                    Action::NotifyStarting
                } else {
                    c.state = CycleState::Skipped;
                    Action::Finish(Outcome::Skipped)
                }
            },
            Event::ResolveFailed(error) => {
                c.state = CycleState::CheckFailed;
                c.check_error = Some(error);
                Action::Finish(Outcome::CheckFailed)
            },
            _ => Action::Ignore,
        },
        CycleState::Checked => match event {
            Event::Notified(_) => {
                c.state = CycleState::NotifiedPre;
                Action::Trigger
            },
            _ => Action::Ignore,
        },
        CycleState::NotifiedPre => match event {
            Event::TriggerReplied(status) => {
                c.trigger_status = Some(status);
                if 200 <= status && status <= 299 {
                    c.state = CycleState::Triggered;
                    Action::Persist
                } else {
                    c.state = CycleState::TriggerFailed;
                    Action::NotifyTriggerFailed
                }
            },
            Event::TriggerUnreachable => {
                c.state = CycleState::TriggerFailed;
                Action::NotifyTriggerFailed
            },
            _ => Action::Ignore,
        },
        CycleState::Triggered => match event {
            Event::Stored(written) => {
                if written {
                    c.state = CycleState::Persisted;
                    Action::NotifyCompleted
                } else {
                    c.state = CycleState::StoreWriteFailed;
                    Action::Finish(Outcome::StoreWriteFailed)
                }
            },
            _ => Action::Ignore,
        },
        CycleState::Persisted => match event {
            Event::Notified(_) => {
                c.state = CycleState::NotifiedPost;
                Action::Finish(Outcome::Upgraded)
            },
            _ => Action::Ignore,
        },
        CycleState::NotifiedPost => Action::Finish(Outcome::Upgraded),
        CycleState::Skipped => Action::Finish(Outcome::Skipped),
        CycleState::TriggerFailed => Action::Finish(Outcome::TriggerFailed),
        CycleState::CheckFailed => Action::Finish(Outcome::CheckFailed),
        CycleState::StoreWriteFailed => Action::Finish(Outcome::StoreWriteFailed),
    };
    (c, action)
}

/// The outcome that a state stands for; `None` while the cycle is running.
pub fn outcome(state: CycleState) -> (r: Option<Outcome>)
    ensures
        r == outcome_of(state),
{
    match state {
        CycleState::NotifiedPost => Some(Outcome::Upgraded),
        CycleState::Skipped => Some(Outcome::Skipped),
        CycleState::TriggerFailed => Some(Outcome::TriggerFailed),
        CycleState::CheckFailed => Some(Outcome::CheckFailed),
        CycleState::StoreWriteFailed => Some(Outcome::StoreWriteFailed),
        _ => None,
    }
}

/// The trigger was answered with a status in 200..=299.
pub open spec fn is_accepted_trigger(e: EventModel) -> bool {
    match e {
        EventModel::TriggerReplied(status) => is_success(status),
        _ => false,
    }
}

/// The version that the store records once the caller has acted on `e`: a
/// write that succeeded in state `Triggered` records the latest version,
/// and nothing else changes the store.
pub open spec fn store_after(c: CycleModel, stored: Seq<char>, e: EventModel) -> Seq<char> {
    if c.state == CycleState::Triggered && e == EventModel::Stored(true) && c.latest is Some {
        c.latest->0
    } else {
        stored
    }
}

/// The cycle and the store after a sequence of events.
pub open spec fn run(c: CycleModel, stored: Seq<char>, events: Seq<EventModel>) -> (
    CycleModel,
    Seq<char>,
)
    decreases events.len(),
{
    if events.len() == 0 {
        (c, stored)
    } else {
        run(next(c, events[0]).0, store_after(c, stored, events[0]), events.skip(1))
    }
}

/// The new version has been written.
pub open spec fn has_persisted(state: CycleState) -> bool {
    state == CycleState::Persisted || state == CycleState::NotifiedPost
}

/// The trigger has been accepted.
pub open spec fn has_triggered(state: CycleState) -> bool {
    has_persisted(state) || state == CycleState::Triggered || state
        == CycleState::StoreWriteFailed
}

/// What holds of a cycle and the store at every moment of a run: the store
/// records the latest version once it was written and the version that
/// the cycle started from until then; a latest version is known in every
/// state but `Pending` and `CheckFailed`; and it calls for an upgrade in
/// every state but `Skipped`.
pub open spec fn consistent(c: CycleModel, stored: Seq<char>) -> bool {
    &&& has_persisted(c.state) ==> c.latest is Some && stored == c.latest->0
    &&& !has_persisted(c.state) ==> stored == c.current
    &&& c.state == CycleState::Pending ==> c.latest is None
    &&& c.state != CycleState::Pending && c.state != CycleState::CheckFailed ==> c.latest is Some
    &&& c.latest is Some ==> (upgrade_needed(c.current, c.latest->0) <==> c.state
        != CycleState::Skipped)
}

/// One step keeps the cycle and the store consistent, never changes the
/// version that the cycle started from, and reaches a state in which the
/// trigger has been accepted only from such a state or on an accepted
/// trigger.
pub proof fn law_step_consistent(c: CycleModel, stored: Seq<char>, e: EventModel)
    requires
        consistent(c, stored),
    ensures
        consistent(next(c, e).0, store_after(c, stored, e)),
        next(c, e).0.current == c.current,
        has_triggered(next(c, e).0.state) ==> has_triggered(c.state) || is_accepted_trigger(e),
        next(c, e).1 == Action::Persist <==> c.state == CycleState::NotifiedPre
            && is_accepted_trigger(e),
        c.latest is Some ==> next(c, e).0.latest == c.latest,
{
}

/// A run keeps the cycle and the store consistent.
pub proof fn law_run_consistent(c: CycleModel, stored: Seq<char>, events: Seq<EventModel>)
    requires
        consistent(c, stored),
    ensures
        consistent(run(c, stored, events).0, run(c, stored, events).1),
        run(c, stored, events).0.current == c.current,
        c.latest is Some ==> run(c, stored, events).0.latest == c.latest,
    decreases events.len(),
{
    if events.len() > 0 {
        law_step_consistent(c, stored, events[0]);
        law_run_consistent(
            next(c, events[0]).0,
            store_after(c, stored, events[0]),
            events.skip(1),
        );
    }
}

/// The store records the resolved version exactly when the cycle reached
/// `Persisted`; in every other state it still records the version that the
/// cycle started from.
pub proof fn law_store_updated_iff_persisted(current: Seq<char>, events: Seq<EventModel>)
    ensures
        ({
            let end = run(initial(current), current, events);
            if has_persisted(end.0.state) {
                end.0.latest is Some && end.1 == end.0.latest->0
            } else {
                end.1 == current
            }
        }),
{
    law_run_consistent(initial(current), current, events);
}

/// Without an accepted trigger nothing is written: whatever else happens,
/// the store records the version that the cycle started from.
pub proof fn law_no_write_without_trigger(
    c: CycleModel,
    stored: Seq<char>,
    events: Seq<EventModel>,
)
    requires
        consistent(c, stored),
        !has_triggered(c.state),
        forall|i: int| 0 <= i < events.len() ==> !is_accepted_trigger(#[trigger] events[i]),
    ensures
        !has_triggered(run(c, stored, events).0.state),
        run(c, stored, events).1 == c.current,
    decreases events.len(),
{
    if events.len() > 0 {
        law_step_consistent(c, stored, events[0]);
        assert forall|i: int| 0 <= i < events.skip(1).len() implies !is_accepted_trigger(
            #[trigger] events.skip(1)[i],
        ) by {
            assert(events.skip(1)[i] == events[i + 1]);
        }
        law_no_write_without_trigger(
            next(c, events[0]).0,
            store_after(c, stored, events[0]),
            events.skip(1),
        );
    }
}

/// A cycle that ended as upgraded or skipped leaves the store such that the
/// next cycle, on the same resolved version, is skipped.
pub proof fn law_second_run_skips(current: Seq<char>, events: Seq<EventModel>)
    requires
        ({
            let end = run(initial(current), current, events);
            has_persisted(end.0.state) || end.0.state == CycleState::Skipped
        }),
    ensures
        ({
            let end = run(initial(current), current, events);
            &&& end.0.latest is Some
            &&& next(initial(end.1), EventModel::Resolved(end.0.latest->0)).0.state
                == CycleState::Skipped
            &&& next(initial(end.1), EventModel::Resolved(end.0.latest->0)).1 == Action::Finish(
                Outcome::Skipped,
            )
        }),
{
    law_run_consistent(initial(current), current, events);
    let end = run(initial(current), current, events);
    law_no_upgrade_to_same(end.0.latest->0);
}

/// How many containers of a run ended in which way.
#[derive(Clone, Copy, Debug, PartialEq, Eq, Structural)]
pub struct Report {
    pub skipped: usize,
    pub upgraded: usize,
    pub trigger_failed: usize,
    pub check_failed: usize,
    pub store_write_failed: usize,
}

/// How often `o` occurs among `outcomes`.
pub open spec fn count_of(outcomes: Seq<Outcome>, o: Outcome) -> nat
    decreases outcomes.len(),
{
    if outcomes.len() == 0 {
        0
    } else {
        count_of(outcomes.drop_last(), o) + if outcomes.last() == o {
            1nat
        } else {
            0nat
        }
    }
}

/// Each outcome is counted once: the five counts add up to the length.
pub proof fn law_counts_add_up(outcomes: Seq<Outcome>)
    ensures
        count_of(outcomes, Outcome::Skipped) + count_of(outcomes, Outcome::Upgraded) + count_of(
            outcomes,
            Outcome::TriggerFailed,
        ) + count_of(outcomes, Outcome::CheckFailed) + count_of(
            outcomes,
            Outcome::StoreWriteFailed,
        ) == outcomes.len(),
    decreases outcomes.len(),
{
    if outcomes.len() > 0 {
        law_counts_add_up(outcomes.drop_last());
    }
}

/// Counts the outcomes of a run.
pub fn tally(outcomes: &Vec<Outcome>) -> (r: Report)
    ensures
        r.skipped == count_of(outcomes@, Outcome::Skipped),
        r.upgraded == count_of(outcomes@, Outcome::Upgraded),
        r.trigger_failed == count_of(outcomes@, Outcome::TriggerFailed),
        r.check_failed == count_of(outcomes@, Outcome::CheckFailed),
        r.store_write_failed == count_of(outcomes@, Outcome::StoreWriteFailed),
        r.skipped + r.upgraded + r.trigger_failed + r.check_failed + r.store_write_failed
            == outcomes@.len(),
{
    let mut r = Report {
        skipped: 0,
        upgraded: 0,
        trigger_failed: 0,
        check_failed: 0,
        store_write_failed: 0,
    };
    let mut k: usize = 0;
    assert(outcomes@.take(0).len() == 0);
    while k < outcomes.len()
        invariant
            k <= outcomes@.len(),
            r.skipped == count_of(outcomes@.take(k as int), Outcome::Skipped),
            r.upgraded == count_of(outcomes@.take(k as int), Outcome::Upgraded),
            r.trigger_failed == count_of(outcomes@.take(k as int), Outcome::TriggerFailed),
            r.check_failed == count_of(outcomes@.take(k as int), Outcome::CheckFailed),
            r.store_write_failed == count_of(outcomes@.take(k as int), Outcome::StoreWriteFailed),
            r.skipped + r.upgraded + r.trigger_failed + r.check_failed + r.store_write_failed == k,
        decreases outcomes@.len() - k,
    {
        assert(outcomes@.take(k + 1).drop_last() =~= outcomes@.take(k as int));
        assert(outcomes@.take(k + 1).last() == outcomes@[k as int]);
        match outcomes[k] {
            Outcome::Skipped => {
                r.skipped = r.skipped + 1;
            },
            Outcome::Upgraded => {
                r.upgraded = r.upgraded + 1;
            },
            Outcome::TriggerFailed => {
                r.trigger_failed = r.trigger_failed + 1;
            },
            Outcome::CheckFailed => {
                r.check_failed = r.check_failed + 1;
            },
            Outcome::StoreWriteFailed => {
                r.store_write_failed = r.store_write_failed + 1;
            },
        }
        k += 1;
    }
    assert(outcomes@.take(k as int) =~= outcomes@);
    r
}

/// One row of the store: a deployment that is watched for upgrades.
#[derive(Debug)]
pub struct MonitoredContainer {
    pub webhook_url: String,
    pub current_version: String,
    pub registry: RegistryRef,
    pub architecture_filter: Option<String>,
}

/// Reads a row of the store. The image source must name a registry kind.
pub fn container_from_row(
    webhook_url: String,
    version: String,
    namespace: String,
    repository: String,
    image_source: &str,
    architecture: Option<String>,
) -> (r: Result<MonitoredContainer, ResolveError>)
    ensures
        match r {
            Ok(c) => {
                &&& kind_of(image_source@) == Some(c.registry.kind)
                &&& c.webhook_url == webhook_url
                &&& c.current_version == version
                &&& c.registry.namespace == namespace
                &&& c.registry.repository == repository
                &&& c.architecture_filter == architecture
            },
            Err(e) => e == ResolveError::RegistryUnsupported && kind_of(image_source@) is None,
        },
{
    match parse_kind(image_source) {
        Ok(kind) => Ok(
            MonitoredContainer {
                webhook_url,
                current_version: version,
                registry: RegistryRef { namespace, repository, kind },
                architecture_filter: architecture,
            },
        ),
        Err(e) => Err(e),
    }
}

/// The call that asks a deployment to redeploy.
#[derive(Debug)]
pub struct TriggerRequest {
    pub url: String,
    pub content_type: String,
    pub body: String,
}

/// The trigger for a deployment: a POST to its webhook with a fixed body.
pub fn trigger_request(webhook_url: &str) -> (r: TriggerRequest)
    ensures
        r.url@ == webhook_url@,
        r.content_type@ == "application/x-www-form-urlencoded"@,
        r.body@ == "Redeploy with latest image of same tag"@,
{
    TriggerRequest {
        url: String::from_str(webhook_url),
        content_type: String::from_str("application/x-www-form-urlencoded"),
        body: String::from_str("Redeploy with latest image of same tag"),
    }
}

/// The text of an upgrade notification after its first words.
pub open spec fn upgrade_text(
    namespace: Seq<char>,
    repository: Seq<char>,
    current: Seq<char>,
    latest: Seq<char>,
) -> Seq<char> {
    " upgrade for "@ + namespace + "/"@ + repository + " from version "@ + current + " to "@
        + latest
}

/// The text of an upgrade notification: `lead`, then the image and the two
/// versions.
fn upgrade_message(lead: &str, namespace: &str, repository: &str, current: &str, latest: &str)
    -> (r: String)
    ensures
        r@ == lead@ + upgrade_text(namespace@, repository@, current@, latest@),
{
    let r = String::from_str(lead).concat(" upgrade for ").concat(namespace).concat("/").concat(
        repository,
    ).concat(" from version ").concat(current).concat(" to ").concat(latest);
    assert(r@ =~= lead@ + upgrade_text(namespace@, repository@, current@, latest@));
    r
}

/// The notification that an upgrade starts.
pub fn starting_message(namespace: &str, repository: &str, current: &str, latest: &str) -> (r:
    String)
    ensures
        r@ == "Starting"@ + upgrade_text(namespace@, repository@, current@, latest@),
{
    upgrade_message("Starting", namespace, repository, current, latest)
}

/// The notification that an upgrade is complete.
pub fn completed_message(namespace: &str, repository: &str, current: &str, latest: &str) -> (r:
    String)
    ensures
        r@ == "Completed"@ + upgrade_text(namespace@, repository@, current@, latest@),
{
    upgrade_message("Completed", namespace, repository, current, latest)
}

/// The notification that a trigger failed; `status` is the answer as text.
pub fn trigger_failed_message(status: &str) -> (r: String)
    ensures
        r@ == "Failed to send webhook request: "@ + status@,
{
    String::from_str("Failed to send webhook request: ").concat(status)
}

} // verus!
