//! Provisioning as a state machine. The machine holds what has been
//! reached; `pending` names the one thing to do next, and `advance` takes
//! what came of it. Whoever drives the machine reads files, probes paths
//! and runs processes; the machine decides. What it decides is laid down
//! in `transition`.

use crate::error::{ErrorKind, FondaError, FondaErrorView};
use crate::naming::is_valid_env_name;
use crate::platform::PlatformTag;
use crate::requirements::{render_requirements, resolve_text};
use crate::transition::{
    action_line, candidate_of, command_line, failed, initial, lemma_step_keeps_wf, moved,
    pending_action, probed, step, wf, LAST_CANDIDATE,
};
use vstd::prelude::*;
use vstd::string::StringExecFns;

verus! {

/// How far provisioning has come. A stage with a number is at work on the
/// interpreter candidate of that rank.
#[derive(Clone, Copy, Debug, PartialEq, Eq, Structural)]
pub enum Stage {
    /// Nothing done; the manifest is to be loaded.
    Start,
    /// The manifest is loaded; the package list is to be written.
    ManifestValidated,
    /// The package list is written and the name accepted; the target is to
    /// be probed.
    RequirementsWritten,
    /// Nothing stands at the target; the preferred creator is to run.
    EnvAbsenceChecked,
    /// The preferred creator failed; a candidate is probed to create with.
    FallbackDiscovery(usize),
    /// A candidate answered; it is to create the environment.
    FallbackCreation(usize),
    /// The environment stands; a candidate is probed to install with.
    EnvCreated(usize),
    /// A candidate answered; it is to install the package list.
    Installing(usize),
    /// The packages are installed; the outcome is to be reported.
    DepsInstalled,
    /// Finished with success.
    Done,
    /// Finished with the failure the machine holds.
    Failed,
}

/// What a run creates and from what.
#[derive(Clone, Debug, PartialEq, Eq)]
pub struct ProvisioningPlan {
    pub env_name: String,
    pub target_path: String,
    pub requirements_path: String,
}

/// A plan as plain values.
pub struct PlanView {
    pub env_name: Seq<char>,
    pub target_path: Seq<char>,
    pub requirements_path: Seq<char>,
}

impl View for ProvisioningPlan {
    type V = PlanView;

    open spec fn view(&self) -> PlanView {
        PlanView {
            env_name: self.env_name@,
            target_path: self.target_path@,
            requirements_path: self.requirements_path@,
        }
    }
}

/// What came of the pending action.
#[derive(Clone, Debug, PartialEq, Eq)]
pub enum Event {
    /// The manifest was read and is well-formed: its text and its name.
    ManifestLoaded { text: String, name: String },
    /// The manifest is missing or unreadable.
    ManifestMissing { detail: String },
    /// The manifest is not well-formed or lacks a required field.
    ManifestMalformed { detail: String },
    /// The package list was written.
    RequirementsWritten,
    /// The package list could not be written.
    RequirementsWriteFailed { detail: String },
    /// The target path was looked at.
    TargetProbed { exists: bool },
    /// A process was run. `ok` says that it started and exited with
    /// success; `detail` carries the launch error or what it wrote to its
    /// error stream.
    ProcessFinished { ok: bool, detail: String },
    /// The outcome was reported.
    Reported,
}

/// An event as plain values.
pub enum EventView {
    ManifestLoaded { text: Seq<char>, name: Seq<char> },
    ManifestMissing { detail: Seq<char> },
    ManifestMalformed { detail: Seq<char> },
    RequirementsWritten,
    RequirementsWriteFailed { detail: Seq<char> },
    TargetProbed { exists: bool },
    ProcessFinished { ok: bool, detail: Seq<char> },
    Reported,
}

impl View for Event {
    type V = EventView;

    open spec fn view(&self) -> EventView {
        match self {
            Event::ManifestLoaded { text, name } => EventView::ManifestLoaded {
                text: text@,
                name: name@,
            },
            Event::ManifestMissing { detail } => EventView::ManifestMissing { detail: detail@ },
            Event::ManifestMalformed { detail } => EventView::ManifestMalformed {
                detail: detail@,
            },
            Event::RequirementsWritten => EventView::RequirementsWritten,
            Event::RequirementsWriteFailed { detail } => EventView::RequirementsWriteFailed {
                detail: detail@,
            },
            Event::TargetProbed { exists } => EventView::TargetProbed { exists: *exists },
            Event::ProcessFinished { ok, detail } => EventView::ProcessFinished {
                ok: *ok,
                detail: detail@,
            },
            Event::Reported => EventView::Reported,
        }
    }
}

/// The one thing to do next.
#[derive(Clone, Debug, PartialEq, Eq)]
pub enum Action {
    /// Read the manifest at `path` and check its structure.
    LoadManifest { path: String },
    /// Write `content` to `path`, replacing what is there.
    WriteRequirements { path: String, content: String },
    /// Look whether anything stands at `path`.
    ProbeTarget { path: String },
    /// Run `program` with `args` and wait for it.
    Spawn { program: String, args: Vec<String> },
    /// Tell the user that the environment `env_name` is ready.
    Report { env_name: String },
    /// Nothing: the run is over.
    Stop,
}

/// An action as plain values.
pub enum ActionView {
    LoadManifest { path: Seq<char> },
    WriteRequirements { path: Seq<char>, content: Seq<char> },
    ProbeTarget { path: Seq<char> },
    Spawn { program: Seq<char>, args: Seq<Seq<char>> },
    Report { env_name: Seq<char> },
    Stop,
}

impl View for Action {
    type V = ActionView;

    open spec fn view(&self) -> ActionView {
        match self {
            Action::LoadManifest { path } => ActionView::LoadManifest { path: path@ },
            Action::WriteRequirements { path, content } => ActionView::WriteRequirements {
                path: path@,
                content: content@,
            },
            Action::ProbeTarget { path } => ActionView::ProbeTarget { path: path@ },
            Action::Spawn { program, args } => ActionView::Spawn {
                program: program@,
                args: args.deep_view(),
            },
            Action::Report { env_name } => ActionView::Report { env_name: env_name@ },
            Action::Stop => ActionView::Stop,
        }
    }
}

/// The provisioning machine.
#[derive(Clone, Debug, PartialEq, Eq)]
pub struct Provisioner {
    pub stage: Stage,
    pub platform: PlatformTag,
    pub manifest_path: String,
    pub plan: ProvisioningPlan,
    pub content: String,
    pub failure: Option<FondaError>,
}

/// The machine as plain values.
pub struct ProvisionerView {
    pub stage: Stage,
    pub platform: PlatformTag,
    pub manifest_path: Seq<char>,
    pub plan: PlanView,
    pub content: Seq<char>,
    pub failure: Option<FondaErrorView>,
}

impl View for Provisioner {
    type V = ProvisionerView;

    open spec fn view(&self) -> ProvisionerView {
        ProvisionerView {
            stage: self.stage,
            platform: self.platform,
            manifest_path: self.manifest_path@,
            plan: self.plan@,
            content: self.content@,
            failure: match self.failure {
                Some(e) => Some(e@),
                None => None,
            },
        }
    }
}

/// The name of the interpreter candidate of rank `i`.
pub fn candidate(i: usize) -> (s: &'static str)
    ensures
        s@ == candidate_of(i),
{
    if i == 0 {
        "python"
    } else if i == 1 {
        "python3"
    } else {
        "py"
    }
}

/// A command as one line: the program, then each argument after a space.
pub fn render_command(program: &str, args: &Vec<String>) -> (s: String)
    ensures
        s@ == command_line(program@, args.deep_view()),
{
    let ghost all = args.deep_view();
    let mut s = String::from_str(program);
    let mut i: usize = 0;
    assert(all.skip(0) =~= all);
    while i < args.len()
        invariant
            i <= args.len(),
            all == args.deep_view(),
            command_line(s@, all.skip(i as int)) == command_line(program@, all),
        decreases args.len() - i,
    {
        proof {
            assert(all.skip(i as int)[0] == args[i as int]@);
            assert(all.skip(i as int).drop_first() =~= all.skip(i + 1));
        }
        s.push(' ');
        s.append(args[i].as_str());
        i = i + 1;
    }
    s
}

/// Appends the text `a` to a list of arguments.
fn push_arg(args: &mut Vec<String>, a: &str)
    ensures
        final(args).deep_view() == old(args).deep_view().push(a@),
{
    args.push(String::from_str(a));
    assert(args.deep_view() =~= old(args).deep_view().push(a@));
}

/// The command that installs a package list when no environment is to be
/// created: through the interpreter on Windows, through the installer
/// itself elsewhere.
pub open spec fn install_action(current: PlatformTag, requirements_path: Seq<char>) -> ActionView {
    if current == PlatformTag::Windows {
        ActionView::Spawn {
            program: "python"@,
            args: seq!["-m"@, "pip"@, "install"@, "-r"@, requirements_path],
        }
    } else {
        ActionView::Spawn { program: "pip"@, args: seq!["install"@, "-r"@, requirements_path] }
    }
}

/// What to do to install the package list at `requirements_path` as it
/// stands: the command to run where the list is there (`present`), and the
/// failure `RequirementsNotFound` where it is not.
pub fn plan_install(present: bool, current: PlatformTag, requirements_path: &str) -> (r: Result<
    Action,
    FondaError,
>)
    ensures
        present ==> r is Ok && r->Ok_0@ == install_action(current, requirements_path@),
        !present ==> r is Err && r->Err_0@ == (FondaErrorView {
            kind: ErrorKind::RequirementsNotFound,
            subject: requirements_path@,
            detail: "not found"@,
        }),
{
    if !present {
        return Err(FondaError::new(ErrorKind::RequirementsNotFound, requirements_path, "not found"));
    }
    let mut args: Vec<String> = Vec::new();
    match current {
        PlatformTag::Windows => {
            push_arg(&mut args, "-m");
            push_arg(&mut args, "pip");
            push_arg(&mut args, "install");
            push_arg(&mut args, "-r");
            push_arg(&mut args, requirements_path);
            assert(args.deep_view() =~= seq![
                "-m"@,
                "pip"@,
                "install"@,
                "-r"@,
                requirements_path@,
            ]);
            Ok(Action::Spawn { program: String::from_str("python"), args })
        },
        _ => {
            push_arg(&mut args, "install");
            push_arg(&mut args, "-r");
            push_arg(&mut args, requirements_path);
            assert(args.deep_view() =~= seq!["install"@, "-r"@, requirements_path@]);
            Ok(Action::Spawn { program: String::from_str("pip"), args })
        },
    }
}

impl Provisioner {
    /// The machine before anything is done, for the manifest at
    /// `manifest_path`, the package list at `requirements_path` and the
    /// platform of the run.
    pub fn new(manifest_path: &str, requirements_path: &str, platform: PlatformTag) -> (p:
        Provisioner)
        ensures
            p@ == initial(manifest_path@, requirements_path@, platform),
            wf(p@),
    {
        Provisioner {
            stage: Stage::Start,
            platform,
            manifest_path: String::from_str(manifest_path),
            plan: ProvisioningPlan {
                env_name: String::new(),
                target_path: String::new(),
                requirements_path: String::from_str(requirements_path),
            },
            content: String::new(),
            failure: None,
        }
    }

    /// Whether the run is over, with success or with a failure.
    pub fn is_finished(&self) -> (b: bool)
        ensures
            b == (self@.stage == Stage::Done || self@.stage == Stage::Failed),
    {
        match self.stage {
            Stage::Done => true,
            Stage::Failed => true,
            _ => false,
        }
    }

    /// The action that the machine waits for.
    pub fn pending(&self) -> (a: Action)
        ensures
            a@ == pending_action(self@),
    {
        let mut args: Vec<String> = Vec::new();
        match self.stage {
            Stage::Start => Action::LoadManifest { path: self.manifest_path.clone() },
            Stage::ManifestValidated => Action::WriteRequirements {
                path: self.plan.requirements_path.clone(),
                content: self.content.clone(),
            },
            Stage::RequirementsWritten => Action::ProbeTarget {
                path: self.plan.target_path.clone(),
            },
            Stage::EnvAbsenceChecked => {
                push_arg(&mut args, "venv");
                push_arg(&mut args, self.plan.target_path.as_str());
                assert(args.deep_view() =~= seq!["venv"@, self.plan.target_path@]);
                Action::Spawn { program: String::from_str("uv"), args }
            },
            Stage::FallbackDiscovery(i) => {
                push_arg(&mut args, "--version");
                assert(args.deep_view() =~= seq!["--version"@]);
                Action::Spawn { program: String::from_str(candidate(i)), args }
            },
            Stage::FallbackCreation(i) => {
                push_arg(&mut args, "-m");
                push_arg(&mut args, "venv");
                push_arg(&mut args, self.plan.target_path.as_str());
                assert(args.deep_view() =~= seq!["-m"@, "venv"@, self.plan.target_path@]);
                Action::Spawn { program: String::from_str(candidate(i)), args }
            },
            Stage::EnvCreated(i) => {
                push_arg(&mut args, "--version");
                assert(args.deep_view() =~= seq!["--version"@]);
                Action::Spawn { program: String::from_str(candidate(i)), args }
            },
            Stage::Installing(i) => {
                push_arg(&mut args, "-m");
                push_arg(&mut args, "pip");
                push_arg(&mut args, "install");
                push_arg(&mut args, "-r");
                push_arg(&mut args, self.plan.requirements_path.as_str());
                assert(args.deep_view() =~= seq![
                    "-m"@,
                    "pip"@,
                    "install"@,
                    "-r"@,
                    self.plan.requirements_path@,
                ]);
                Action::Spawn { program: String::from_str(candidate(i)), args }
            },
            Stage::DepsInstalled => Action::Report { env_name: self.plan.env_name.clone() },
            Stage::Done => Action::Stop,
            Stage::Failed => Action::Stop,
        }
    }

    /// The command line of the pending action, where it runs a process.
    fn pending_line(&self) -> (s: String)
        ensures
            s@ == action_line(pending_action(self@)),
    {
        match self.pending() {
            Action::Spawn { program, args } => render_command(program.as_str(), &args),
            _ => String::new(),
        }
    }

    /// This machine moved to `stage`.
    fn moved_to(self, stage: Stage) -> (p: Provisioner)
        ensures
            p@ == moved(self@, stage),
    {
        Provisioner {
            stage,
            platform: self.platform,
            manifest_path: self.manifest_path,
            plan: self.plan,
            content: self.content,
            failure: self.failure,
        }
    }

    /// This machine stopped by a failure.
    fn fail_with(self, kind: ErrorKind, subject: String, detail: String) -> (p: Provisioner)
        ensures
            p@ == failed(self@, kind, subject@, detail@),
    {
        Provisioner {
            stage: Stage::Failed,
            platform: self.platform,
            manifest_path: self.manifest_path,
            plan: self.plan,
            content: self.content,
            failure: Some(FondaError { kind, subject, detail }),
        }
    }

    /// This machine after a probe of the candidate of rank `i`.
    fn after_probe(self, i: usize, ok: bool, found: Stage, next: Stage) -> (p: Provisioner)
        ensures
            p@ == probed(self@, i, ok, found, next),
    {
        if ok {
            self.moved_to(found)
        } else if i < LAST_CANDIDATE {
            self.moved_to(next)
        } else {
            self.fail_with(
                ErrorKind::InterpreterNotFound,
                String::from_str("python, python3, py"),
                String::from_str("No Python installation found"),
            )
        }
    }

    /// The machine that follows this one once the pending action has come
    /// to `event`.
    pub fn advance(self, event: Event) -> (next: Provisioner)
        ensures
            next@ == step(self@, event@),
            wf(self@) ==> wf(next@),
    {
        proof {
            if wf(self@) {
                lemma_step_keeps_wf(self@, event@);
            }
        }
        match self.stage {
            Stage::Start => match event {
                Event::ManifestLoaded { text, name } => {
                    let specs = resolve_text(text.as_str(), self.platform);
                    let content = render_requirements(&specs);
                    Provisioner {
                        stage: Stage::ManifestValidated,
                        platform: self.platform,
                        manifest_path: self.manifest_path,
                        plan: ProvisioningPlan {
                            env_name: name.clone(),
                            target_path: name,
                            requirements_path: self.plan.requirements_path,
                        },
                        content,
                        failure: self.failure,
                    }
                },
                Event::ManifestMissing { detail } => {
                    let subject = self.manifest_path.clone();
                    self.fail_with(ErrorKind::ConfigNotFound, subject, detail)
                },
                Event::ManifestMalformed { detail } => {
                    let subject = self.manifest_path.clone();
                    self.fail_with(ErrorKind::ManifestSyntax, subject, detail)
                },
                _ => self,
            },
            Stage::ManifestValidated => match event {
                Event::RequirementsWritten => {
                    if is_valid_env_name(self.plan.env_name.as_str()) {
                        self.moved_to(Stage::RequirementsWritten)
                    } else {
                        let subject = self.plan.env_name.clone();
                        let detail = String::from_str(
                            "Environment name must only contain alphanumeric characters, underscores, or hyphens",
                        );
                        self.fail_with(ErrorKind::InvalidEnvironmentName, subject, detail)
                    }
                },
                Event::RequirementsWriteFailed { detail } => {
                    let subject = self.plan.requirements_path.clone();
                    self.fail_with(ErrorKind::RequirementsWrite, subject, detail)
                },
                _ => self,
            },
            Stage::RequirementsWritten => match event {
                Event::TargetProbed { exists } => {
                    if exists {
                        let subject = self.plan.env_name.clone();
                        self.fail_with(ErrorKind::EnvironmentExists, subject, String::new())
                    } else {
                        self.moved_to(Stage::EnvAbsenceChecked)
                    }
                },
                _ => self,
            },
            Stage::EnvAbsenceChecked => match event {
                Event::ProcessFinished { ok, detail } => {
                    if ok {
                        self.moved_to(Stage::EnvCreated(0))
                    } else {
                        self.moved_to(Stage::FallbackDiscovery(0))
                    }
                },
                _ => self,
            },
            Stage::FallbackDiscovery(i) => match event {
                Event::ProcessFinished { ok, detail } => {
                    let next = if i < LAST_CANDIDATE {
                        Stage::FallbackDiscovery(i + 1)
                    } else {
                        Stage::Failed
                    };
                    self.after_probe(i, ok, Stage::FallbackCreation(i), next)
                },
                _ => self,
            },
            Stage::FallbackCreation(i) => match event {
                Event::ProcessFinished { ok, detail } => {
                    if ok {
                        self.moved_to(Stage::EnvCreated(0))
                    } else {
                        let subject = self.pending_line();
                        self.fail_with(ErrorKind::EnvironmentCreationFailed, subject, detail)
                    }
                },
                _ => self,
            },
            Stage::EnvCreated(i) => match event {
                Event::ProcessFinished { ok, detail } => {
                    let next = if i < LAST_CANDIDATE {
                        Stage::EnvCreated(i + 1)
                    } else {
                        Stage::Failed
                    };
                    self.after_probe(i, ok, Stage::Installing(i), next)
                },
                _ => self,
            },
            Stage::Installing(i) => match event {
                Event::ProcessFinished { ok, detail } => {
                    if ok {
                        self.moved_to(Stage::DepsInstalled)
                    } else {
                        let subject = self.pending_line();
                        self.fail_with(ErrorKind::InstallationFailed, subject, detail)
                    }
                },
                _ => self,
            },
            Stage::DepsInstalled => match event {
                Event::Reported => self.moved_to(Stage::Done),
                _ => self,
            },
            Stage::Done => self,
            Stage::Failed => self,
        }
    }
}

} // verus!
