//! The rules of provisioning: what each stage waits for, what follows
//! each outcome, and what holds of every run.

use crate::dependency::Section;
use crate::error::{ErrorKind, FondaErrorView};
use crate::manifest::scanned;
use crate::naming::{name_rule, valid_env_name};
use crate::platform::PlatformTag;
use crate::provision::{ActionView, EventView, PlanView, ProvisionerView, Stage};
use crate::requirements::{rendered, requirements_of};
use vstd::prelude::*;

verus! {

/// The name of the interpreter candidate of rank `i`. The order is the
/// order of probing: the general name first.
pub open spec fn candidate_of(i: usize) -> Seq<char> {
    if i == 0 {
        "python"@
    } else if i == 1 {
        "python3"@
    } else {
        "py"@
    }
}

/// The rank of the last interpreter candidate.
pub const LAST_CANDIDATE: usize = 2;

/// A command as one line: the program, then each argument after a space.
pub open spec fn command_line(program: Seq<char>, args: Seq<Seq<char>>) -> Seq<char>
    decreases args.len(),
{
    if args.len() == 0 {
        program
    } else {
        command_line(program.push(' ') + args[0], args.drop_first())
    }
}

/// The command line of an action that runs a process; empty for any other.
pub open spec fn action_line(a: ActionView) -> Seq<char> {
    match a {
        ActionView::Spawn { program, args } => command_line(program, args),
        _ => Seq::<char>::empty(),
    }
}

/// The machine before anything is done.
pub open spec fn initial(
    manifest_path: Seq<char>,
    requirements_path: Seq<char>,
    platform: PlatformTag,
) -> ProvisionerView {
    ProvisionerView {
        stage: Stage::Start,
        platform,
        manifest_path,
        plan: PlanView {
            env_name: Seq::<char>::empty(),
            target_path: Seq::<char>::empty(),
            requirements_path,
        },
        content: Seq::<char>::empty(),
        failure: None,
    }
}

/// The action that each stage waits for.
pub open spec fn pending_action(s: ProvisionerView) -> ActionView {
    match s.stage {
        Stage::Start => ActionView::LoadManifest { path: s.manifest_path },
        Stage::ManifestValidated => ActionView::WriteRequirements {
            path: s.plan.requirements_path,
            content: s.content,
        },
        Stage::RequirementsWritten => ActionView::ProbeTarget { path: s.plan.target_path },
        Stage::EnvAbsenceChecked => ActionView::Spawn {
            program: "uv"@,
            args: seq!["venv"@, s.plan.target_path],
        },
        Stage::FallbackDiscovery(i) => ActionView::Spawn {
            program: candidate_of(i),
            args: seq!["--version"@],
        },
        Stage::FallbackCreation(i) => ActionView::Spawn {
            program: candidate_of(i),
            args: seq!["-m"@, "venv"@, s.plan.target_path],
        },
        Stage::EnvCreated(i) => ActionView::Spawn {
            program: candidate_of(i),
            args: seq!["--version"@],
        },
        Stage::Installing(i) => ActionView::Spawn {
            program: candidate_of(i),
            args: seq!["-m"@, "pip"@, "install"@, "-r"@, s.plan.requirements_path],
        },
        Stage::DepsInstalled => ActionView::Report { env_name: s.plan.env_name },
        Stage::Done => ActionView::Stop,
        Stage::Failed => ActionView::Stop,
    }
}

/// The machine `s` moved to `stage`.
pub open spec fn moved(s: ProvisionerView, stage: Stage) -> ProvisionerView {
    ProvisionerView { stage, ..s }
}

/// The machine `s` stopped by a failure.
pub open spec fn failed(
    s: ProvisionerView,
    kind: ErrorKind,
    subject: Seq<char>,
    detail: Seq<char>,
) -> ProvisionerView {
    ProvisionerView {
        stage: Stage::Failed,
        failure: Some(FondaErrorView { kind, subject, detail }),
        ..s
    }
}

/// The machine stopped because no interpreter candidate answered.
pub open spec fn no_interpreter(s: ProvisionerView) -> ProvisionerView {
    failed(
        s,
        ErrorKind::InterpreterNotFound,
        "python, python3, py"@,
        "No Python installation found"@,
    )
}

/// The machine after the manifest was loaded: the plan is made from the
/// manifest's name, and the package list is resolved for the platform.
pub open spec fn loaded(s: ProvisionerView, text: Seq<char>, name: Seq<char>) -> ProvisionerView {
    ProvisionerView {
        stage: Stage::ManifestValidated,
        plan: PlanView {
            env_name: name,
            target_path: name,
            requirements_path: s.plan.requirements_path,
        },
        content: rendered(
            requirements_of(
                scanned(text, Section::Dependencies),
                scanned(text, Section::Pip),
                s.platform,
            ),
        ),
        ..s
    }
}

/// The machine after a probe of the candidate of rank `i`: on an answer it
/// goes to `found`; else the next candidate is probed, or the run fails
/// where there is none left.
pub open spec fn probed(
    s: ProvisionerView,
    i: usize,
    ok: bool,
    found: Stage,
    next: Stage,
) -> ProvisionerView {
    if ok {
        moved(s, found)
    } else if i < LAST_CANDIDATE {
        moved(s, next)
    } else {
        no_interpreter(s)
    }
}

/// The transition of the machine: the state that follows `s` once the
/// pending action has come to `e`. An event that does not answer the
/// pending action changes nothing, and every failure is final.
pub open spec fn step(s: ProvisionerView, e: EventView) -> ProvisionerView {
    match s.stage {
        Stage::Start => match e {
            EventView::ManifestLoaded { text, name } => loaded(s, text, name),
            EventView::ManifestMissing { detail } => failed(
                s,
                ErrorKind::ConfigNotFound,
                s.manifest_path,
                detail,
            ),
            EventView::ManifestMalformed { detail } => failed(
                s,
                ErrorKind::ManifestSyntax,
                s.manifest_path,
                detail,
            ),
            _ => s,
        },
        Stage::ManifestValidated => match e {
            EventView::RequirementsWritten => if valid_env_name(s.plan.env_name) {
                moved(s, Stage::RequirementsWritten)
            } else {
                failed(s, ErrorKind::InvalidEnvironmentName, s.plan.env_name, name_rule())
            },
            EventView::RequirementsWriteFailed { detail } => failed(
                s,
                ErrorKind::RequirementsWrite,
                s.plan.requirements_path,
                detail,
            ),
            _ => s,
        },
        Stage::RequirementsWritten => match e {
            EventView::TargetProbed { exists } => if exists {
                failed(s, ErrorKind::EnvironmentExists, s.plan.env_name, Seq::<char>::empty())
            } else {
                moved(s, Stage::EnvAbsenceChecked)
            },
            _ => s,
        },
        Stage::EnvAbsenceChecked => match e {
            EventView::ProcessFinished { ok, detail } => if ok {
                moved(s, Stage::EnvCreated(0))
            } else {
                moved(s, Stage::FallbackDiscovery(0))
            },
            _ => s,
        },
        Stage::FallbackDiscovery(i) => match e {
            EventView::ProcessFinished { ok, detail } => probed(
                s,
                i,
                ok,
                Stage::FallbackCreation(i),
                Stage::FallbackDiscovery((i + 1) as usize),
            ),
            _ => s,
        },
        Stage::FallbackCreation(i) => match e {
            EventView::ProcessFinished { ok, detail } => if ok {
                moved(s, Stage::EnvCreated(0))
            } else {
                failed(
                    s,
                    ErrorKind::EnvironmentCreationFailed,
                    action_line(pending_action(s)),
                    detail,
                )
            },
            _ => s,
        },
        Stage::EnvCreated(i) => match e {
            EventView::ProcessFinished { ok, detail } => probed(
                s,
                i,
                ok,
                Stage::Installing(i),
                Stage::EnvCreated((i + 1) as usize),
            ),
            _ => s,
        },
        Stage::Installing(i) => match e {
            EventView::ProcessFinished { ok, detail } => if ok {
                moved(s, Stage::DepsInstalled)
            } else {
                failed(s, ErrorKind::InstallationFailed, action_line(pending_action(s)), detail)
            },
            _ => s,
        },
        Stage::DepsInstalled => match e {
            EventView::Reported => moved(s, Stage::Done),
            _ => s,
        },
        Stage::Done => s,
        Stage::Failed => s,
    }
}

/// Whether a machine is in order: it holds a failure exactly when it has
/// failed, a candidate rank is a rank of the list, the target is the
/// directory named after the environment, and past the name gate the name
/// is valid.
pub open spec fn wf(s: ProvisionerView) -> bool {
    &&& s.stage == Stage::Failed <==> s.failure is Some
    &&& match s.stage {
        Stage::FallbackDiscovery(i) => i <= LAST_CANDIDATE,
        Stage::FallbackCreation(i) => i <= LAST_CANDIDATE,
        Stage::EnvCreated(i) => i <= LAST_CANDIDATE,
        Stage::Installing(i) => i <= LAST_CANDIDATE,
        _ => true,
    }
    &&& s.plan.target_path == s.plan.env_name
    &&& s.stage != Stage::Start && s.stage != Stage::ManifestValidated && s.stage
        != Stage::Failed ==> valid_env_name(s.plan.env_name)
}

/// The machine after taking `events` one after the other.
pub open spec fn run(s: ProvisionerView, events: Seq<EventView>) -> ProvisionerView
    decreases events.len(),
{
    if events.len() == 0 {
        s
    } else {
        run(step(s, events[0]), events.drop_first())
    }
}

/// Whether a process is asked for at any point while `events` are taken:
/// by the machine as it stands, or by one of the states that follow.
pub open spec fn asks_for_process(s: ProvisionerView, events: Seq<EventView>) -> bool
    decreases events.len(),
{
    pending_action(s) is Spawn || (events.len() > 0 && asks_for_process(
        step(s, events[0]),
        events.drop_first(),
    ))
}

/// Whether a machine has failed because the target was already there.
pub open spec fn failed_on_existing_target(s: ProvisionerView) -> bool {
    s.stage == Stage::Failed && s.failure is Some && s.failure->0.kind
        == ErrorKind::EnvironmentExists
}

/// Whether a stage lies before the first process of a run.
pub open spec fn before_creation(stage: Stage) -> bool {
    stage == Stage::Start || stage == Stage::ManifestValidated || stage
        == Stage::RequirementsWritten
}

/// A machine in order stays in order, whatever event it is given.
pub proof fn lemma_step_keeps_wf(s: ProvisionerView, e: EventView)
    requires
        wf(s),
    ensures
        wf(step(s, e)),
{
}

/// A run that is over stays as it is and asks for nothing more: no stage
/// is tried again after a failure.
pub proof fn lemma_finished_is_final(s: ProvisionerView, events: Seq<EventView>)
    requires
        s.stage == Stage::Failed || s.stage == Stage::Done,
    ensures
        run(s, events) == s,
        !asks_for_process(s, events),
    decreases events.len(),
{
    if events.len() > 0 {
        lemma_finished_is_final(step(s, events[0]), events.drop_first());
    }
}

/// Once the target was found absent no later event makes the run fail on
/// an existing target.
proof fn lemma_no_late_existing_target(s: ProvisionerView, events: Seq<EventView>)
    requires
        !before_creation(s.stage),
        !failed_on_existing_target(s),
    ensures
        !failed_on_existing_target(run(s, events)),
    decreases events.len(),
{
    if events.len() > 0 {
        lemma_no_late_existing_target(step(s, events[0]), events.drop_first());
    }
}

/// Something at the target path ends the run there: the next state is the
/// failure `EnvironmentExists`, about the environment name.
pub proof fn lemma_existing_target_fails(s: ProvisionerView)
    requires
        s.stage == Stage::RequirementsWritten,
    ensures
        step(s, EventView::TargetProbed { exists: true }) == failed(
            s,
            ErrorKind::EnvironmentExists,
            s.plan.env_name,
            Seq::<char>::empty(),
        ),
        failed_on_existing_target(step(s, EventView::TargetProbed { exists: true })),
{
}

/// A run that fails on an existing target has asked for no process: from
/// any stage before creation, whatever the events, the failure comes
/// before the first process would be run.
pub proof fn lemma_existing_target_before_any_process(s: ProvisionerView, events: Seq<EventView>)
    requires
        before_creation(s.stage),
        failed_on_existing_target(run(s, events)),
    ensures
        !asks_for_process(s, events),
    decreases events.len(),
{
    if events.len() > 0 {
        let t = step(s, events[0]);
        let rest = events.drop_first();
        if before_creation(t.stage) {
            lemma_existing_target_before_any_process(t, rest);
        } else if t.stage == Stage::Failed {
            lemma_finished_is_final(t, rest);
        } else {
            lemma_no_late_existing_target(t, rest);
        }
    }
}

/// Probing keeps the order of the candidates and stops at the first answer:
/// the candidate that answers is the one used and no other is probed after
/// it; one that does not answer passes the turn to the next rank; after the
/// last one the run fails with `InterpreterNotFound`.
pub proof fn lemma_probing_order(s: ProvisionerView, i: usize, detail: Seq<char>)
    requires
        s.stage == Stage::EnvCreated(i) || s.stage == Stage::FallbackDiscovery(i),
    ensures
        ({
            let yes = step(s, EventView::ProcessFinished { ok: true, detail });
            let no = step(s, EventView::ProcessFinished { ok: false, detail });
            &&& s.stage == Stage::EnvCreated(i) ==> yes == moved(s, Stage::Installing(i))
            &&& s.stage == Stage::FallbackDiscovery(i) ==> yes == moved(
                s,
                Stage::FallbackCreation(i),
            )
            &&& pending_action(yes) is Spawn && pending_action(yes)->Spawn_program == candidate_of(i)
            &&& i < LAST_CANDIDATE ==> pending_action(no) is Spawn && pending_action(
                no,
            )->Spawn_program == candidate_of((i + 1) as usize)
            &&& i >= LAST_CANDIDATE ==> no == no_interpreter(s)
        }),
{
}

/// The stage that probes the candidate of rank `i`: for creation after the
/// preferred creator failed, or for installation.
pub open spec fn probing(for_creation: bool, i: usize) -> Stage {
    if for_creation {
        Stage::FallbackDiscovery(i)
    } else {
        Stage::EnvCreated(i)
    }
}

/// The stage that puts the candidate of rank `i` to use.
pub open spec fn using(for_creation: bool, i: usize) -> Stage {
    if for_creation {
        Stage::FallbackCreation(i)
    } else {
        Stage::Installing(i)
    }
}

/// Whether an event is the end of a process, with the given outcome.
pub open spec fn process_ended(e: EventView, with_success: bool) -> bool {
    e matches EventView::ProcessFinished { ok, .. } && ok == with_success
}

/// The first candidate that answers is the one used: when the probes from
/// rank `i` on fail one after the other and then one succeeds, the machine
/// puts that candidate to use and has probed none after it.
pub proof fn lemma_first_answer_is_used(
    s: ProvisionerView,
    for_creation: bool,
    i: usize,
    events: Seq<EventView>,
)
    requires
        s.stage == probing(for_creation, i),
        events.len() >= 1,
        i + events.len() - 1 <= LAST_CANDIDATE,
        forall|j: int| 0 <= j < events.len() - 1 ==> process_ended(#[trigger] events[j], false),
        process_ended(events.last(), true),
    ensures
        run(s, events) == moved(s, using(for_creation, (i + events.len() - 1) as usize)),
    decreases events.len(),
{
    let rest = events.drop_first();
    if events.len() == 1 {
        assert(run(step(s, events[0]), rest) == step(s, events[0]));
    } else {
        assert(process_ended(events[0], false));
        let t = moved(s, probing(for_creation, (i + 1) as usize));
        assert(step(s, events[0]) == t);
        assert forall|j: int| 0 <= j < rest.len() - 1 implies process_ended(
            #[trigger] rest[j],
            false,
        ) by {
            assert(rest[j] == events[j + 1]);
        }
        assert(rest.last() == events.last());
        lemma_first_answer_is_used(t, for_creation, (i + 1) as usize, rest);
    }
}

/// Where no candidate answers the run fails with `InterpreterNotFound`:
/// when the probes from rank `i` up to the last all fail, nothing else is
/// tried.
pub proof fn lemma_no_answer_is_fatal(
    s: ProvisionerView,
    for_creation: bool,
    i: usize,
    events: Seq<EventView>,
)
    requires
        s.stage == probing(for_creation, i),
        i <= LAST_CANDIDATE,
        events.len() == LAST_CANDIDATE - i + 1,
        forall|j: int| 0 <= j < events.len() ==> process_ended(#[trigger] events[j], false),
    ensures
        run(s, events) == no_interpreter(s),
    decreases events.len(),
{
    let rest = events.drop_first();
    assert(process_ended(events[0], false));
    if i == LAST_CANDIDATE {
        assert(step(s, events[0]) == no_interpreter(s));
        assert(run(step(s, events[0]), rest) == step(s, events[0]));
    } else {
        let t = moved(s, probing(for_creation, (i + 1) as usize));
        assert(step(s, events[0]) == t);
        assert forall|j: int| 0 <= j < rest.len() implies process_ended(#[trigger] rest[j], false) by {
            assert(rest[j] == events[j + 1]);
        }
        lemma_no_answer_is_fatal(t, for_creation, (i + 1) as usize, rest);
        assert(no_interpreter(t) == no_interpreter(s));
    }
}

} // verus!
