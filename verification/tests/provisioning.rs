use fonda::error::{ErrorKind, FondaError};
use fonda::platform::PlatformTag;
use fonda::provision::{
    candidate, plan_install, render_command, Action, Event, Provisioner, Stage,
};

const DEMO_TEXT: &str = "name: demo\ndependencies:\n  - numpy>=1.24.0\n  - pip:flask,requests\n  - pywin32 # [win]\n";

fn strings(items: &[&str]) -> Vec<String> {
    items.iter().map(|s| s.to_string()).collect()
}

fn spawn(program: &str, args: &[&str]) -> Action {
    Action::Spawn { program: program.to_string(), args: strings(args) }
}

fn exit(ok: bool, detail: &str) -> Event {
    Event::ProcessFinished { ok, detail: detail.to_string() }
}

fn loaded(name: &str) -> Provisioner {
    Provisioner::new("environment.yaml", "requirements.txt", PlatformTag::Linux)
        .advance(Event::ManifestLoaded { text: DEMO_TEXT.to_string(), name: name.to_string() })
}

fn checked(name: &str) -> Provisioner {
    loaded(name).advance(Event::RequirementsWritten).advance(Event::TargetProbed { exists: false })
}

fn failure(p: &Provisioner) -> FondaError {
    p.failure.clone().unwrap()
}

#[test]
fn starts_by_loading_the_manifest() {
    let p = Provisioner::new("environment.yaml", "requirements.txt", PlatformTag::Linux);
    assert_eq!(p.stage, Stage::Start);
    assert_eq!(p.failure, None);
    assert!(!p.is_finished());
    assert_eq!(p.pending(), Action::LoadManifest { path: "environment.yaml".to_string() });
}

#[test]
fn loaded_manifest_gives_the_package_list_to_write() {
    let p = loaded("demo");
    assert_eq!(p.stage, Stage::ManifestValidated);
    assert_eq!(p.plan.env_name, "demo");
    assert_eq!(p.plan.target_path, "demo");
    assert_eq!(p.plan.requirements_path, "requirements.txt");
    assert_eq!(
        p.pending(),
        Action::WriteRequirements {
            path: "requirements.txt".to_string(),
            content: "numpy>=1.24.0\nflask\nrequests\n".to_string(),
        }
    );
}

#[test]
fn package_list_follows_the_platform_of_the_run() {
    let p = Provisioner::new("environment.yaml", "requirements.txt", PlatformTag::Windows)
        .advance(Event::ManifestLoaded { text: DEMO_TEXT.to_string(), name: "demo".to_string() });
    assert_eq!(p.content, "numpy>=1.24.0\nflask\nrequests\npywin32\n");
}

#[test]
fn missing_manifest_is_fatal() {
    let p = Provisioner::new("environment.yaml", "requirements.txt", PlatformTag::Linux)
        .advance(Event::ManifestMissing { detail: "No such file".to_string() });
    assert_eq!(p.stage, Stage::Failed);
    assert_eq!(
        failure(&p),
        FondaError::new(ErrorKind::ConfigNotFound, "environment.yaml", "No such file")
    );
    assert_eq!(p.pending(), Action::Stop);
    assert!(p.is_finished());
}

#[test]
fn malformed_manifest_is_fatal() {
    let p = Provisioner::new("environment.yaml", "requirements.txt", PlatformTag::Linux)
        .advance(Event::ManifestMalformed { detail: "missing field `dependencies`".to_string() });
    assert_eq!(p.stage, Stage::Failed);
    assert_eq!(
        failure(&p),
        FondaError::new(
            ErrorKind::ManifestSyntax,
            "environment.yaml",
            "missing field `dependencies`"
        )
    );
}

#[test]
fn unwritable_package_list_is_fatal() {
    let p = loaded("demo").advance(Event::RequirementsWriteFailed { detail: "denied".to_string() });
    assert_eq!(p.stage, Stage::Failed);
    assert_eq!(
        failure(&p),
        FondaError::new(ErrorKind::RequirementsWrite, "requirements.txt", "denied")
    );
}

#[test]
fn invalid_name_fails_before_the_target_is_touched() {
    for name in ["", "my env", "../demo"] {
        let p = loaded(name);
        assert_eq!(p.stage, Stage::ManifestValidated);
        let p = p.advance(Event::RequirementsWritten);
        assert_eq!(p.stage, Stage::Failed);
        assert_eq!(failure(&p).kind, ErrorKind::InvalidEnvironmentName);
        assert_eq!(failure(&p).subject, name);
        assert_eq!(p.pending(), Action::Stop);
    }
}

#[test]
fn scenario_existing_target_fails_without_any_process() {
    let mut p = Provisioner::new("environment.yaml", "requirements.txt", PlatformTag::Linux);
    let events = [
        Event::ManifestLoaded { text: DEMO_TEXT.to_string(), name: "demo".to_string() },
        Event::RequirementsWritten,
        Event::TargetProbed { exists: true },
    ];
    let mut wrote = false;
    for event in events {
        let action = p.pending();
        assert!(!matches!(action, Action::Spawn { .. }));
        wrote = wrote || matches!(action, Action::WriteRequirements { .. });
        p = p.advance(event);
    }
    assert!(wrote);
    assert_eq!(p.stage, Stage::Failed);
    assert_eq!(failure(&p), FondaError::new(ErrorKind::EnvironmentExists, "demo", ""));
    assert_eq!(p.pending(), Action::Stop);
}

#[test]
fn absent_target_leads_to_the_preferred_creator() {
    let p = loaded("demo").advance(Event::RequirementsWritten);
    assert_eq!(p.stage, Stage::RequirementsWritten);
    assert_eq!(p.pending(), Action::ProbeTarget { path: "demo".to_string() });
    let p = p.advance(Event::TargetProbed { exists: false });
    assert_eq!(p.stage, Stage::EnvAbsenceChecked);
    assert_eq!(p.pending(), spawn("uv", &["venv", "demo"]));
}

#[test]
fn preferred_creator_success_goes_on_to_install() {
    let p = checked("demo").advance(exit(true, ""));
    assert_eq!(p.stage, Stage::EnvCreated(0));
    assert_eq!(p.pending(), spawn("python", &["--version"]));
    let p = p.advance(exit(true, ""));
    assert_eq!(p.stage, Stage::Installing(0));
    assert_eq!(p.pending(), spawn("python", &["-m", "pip", "install", "-r", "requirements.txt"]));
    let p = p.advance(exit(true, ""));
    assert_eq!(p.stage, Stage::DepsInstalled);
    assert_eq!(p.pending(), Action::Report { env_name: "demo".to_string() });
    let p = p.advance(Event::Reported);
    assert_eq!(p.stage, Stage::Done);
    assert_eq!(p.failure, None);
    assert_eq!(p.pending(), Action::Stop);
    assert!(p.is_finished());
}

#[test]
fn scenario_preferred_creator_failure_falls_back_and_goes_on() {
    let p = checked("demo").advance(exit(false, "uv: command not found"));
    assert_eq!(p.stage, Stage::FallbackDiscovery(0));
    assert_eq!(p.failure, None);
    assert_eq!(p.pending(), spawn("python", &["--version"]));
    let p = p.advance(exit(false, "not found"));
    assert_eq!(p.stage, Stage::FallbackDiscovery(1));
    assert_eq!(p.pending(), spawn("python3", &["--version"]));
    let p = p.advance(exit(true, ""));
    assert_eq!(p.stage, Stage::FallbackCreation(1));
    assert_eq!(p.pending(), spawn("python3", &["-m", "venv", "demo"]));
    let p = p.advance(exit(true, ""));
    assert_eq!(p.stage, Stage::EnvCreated(0));
    let p = p.advance(exit(false, "")).advance(exit(false, "")).advance(exit(true, ""));
    assert_eq!(p.stage, Stage::Installing(2));
    assert_eq!(p.pending(), spawn("py", &["-m", "pip", "install", "-r", "requirements.txt"]));
    let p = p.advance(exit(true, "")).advance(Event::Reported);
    assert_eq!(p.stage, Stage::Done);
    assert_eq!(p.failure, None);
}

#[test]
fn fallback_without_interpreter_fails() {
    let p = checked("demo")
        .advance(exit(false, "no uv"))
        .advance(exit(false, ""))
        .advance(exit(false, ""));
    assert_eq!(p.stage, Stage::FallbackDiscovery(2));
    assert_eq!(p.pending(), spawn("py", &["--version"]));
    let p = p.advance(exit(false, ""));
    assert_eq!(p.stage, Stage::Failed);
    assert_eq!(
        failure(&p),
        FondaError::new(
            ErrorKind::InterpreterNotFound,
            "python, python3, py",
            "No Python installation found"
        )
    );
}

#[test]
fn failed_fallback_creation_reports_command_and_output() {
    let p = checked("demo")
        .advance(exit(false, "no uv"))
        .advance(exit(true, ""))
        .advance(exit(false, "Error: venv module missing"));
    assert_eq!(p.stage, Stage::Failed);
    assert_eq!(
        failure(&p),
        FondaError::new(
            ErrorKind::EnvironmentCreationFailed,
            "python -m venv demo",
            "Error: venv module missing"
        )
    );
}

#[test]
fn install_without_interpreter_fails() {
    let p = checked("demo")
        .advance(exit(true, ""))
        .advance(exit(false, ""))
        .advance(exit(false, ""))
        .advance(exit(false, ""));
    assert_eq!(p.stage, Stage::Failed);
    assert_eq!(failure(&p).kind, ErrorKind::InterpreterNotFound);
}

#[test]
fn failed_install_reports_command_and_output() {
    let p = checked("demo")
        .advance(exit(true, ""))
        .advance(exit(false, ""))
        .advance(exit(true, ""))
        .advance(exit(false, "ERROR: No matching distribution"));
    assert_eq!(p.stage, Stage::Failed);
    assert_eq!(
        failure(&p),
        FondaError::new(
            ErrorKind::InstallationFailed,
            "python3 -m pip install -r requirements.txt",
            "ERROR: No matching distribution"
        )
    );
}

#[test]
fn event_that_answers_nothing_changes_nothing() {
    let p = loaded("demo");
    assert_eq!(p.clone().advance(Event::TargetProbed { exists: true }), p);
    assert_eq!(p.clone().advance(exit(false, "x")), p);
    assert_eq!(p.clone().advance(Event::Reported), p);
    let q = checked("demo");
    assert_eq!(q.clone().advance(Event::RequirementsWritten), q);
    assert_eq!(q.clone().advance(Event::ManifestMissing { detail: String::new() }), q);
}

#[test]
fn finished_run_stays_as_it_is() {
    let failed = loaded("demo")
        .advance(Event::RequirementsWritten)
        .advance(Event::TargetProbed { exists: true });
    assert_eq!(failed.clone().advance(Event::TargetProbed { exists: false }), failed);
    assert_eq!(failed.clone().advance(exit(true, "")), failed);
    let done = checked("demo")
        .advance(exit(true, ""))
        .advance(exit(true, ""))
        .advance(exit(true, ""))
        .advance(Event::Reported);
    assert_eq!(done.stage, Stage::Done);
    assert_eq!(done.clone().advance(exit(false, "late")), done);
    assert_eq!(done.clone().advance(Event::Reported), done);
}

#[test]
fn candidates_are_probed_in_fixed_order() {
    assert_eq!(candidate(0), "python");
    assert_eq!(candidate(1), "python3");
    assert_eq!(candidate(2), "py");
}

#[test]
fn command_line_joins_with_single_spaces() {
    assert_eq!(render_command("uv", &strings(&["venv", "demo"])), "uv venv demo");
    assert_eq!(render_command("python", &Vec::new()), "python");
    assert_eq!(render_command("p", &strings(&["", "a b"])), "p  a b");
}

#[test]
fn install_alone_needs_the_package_list() {
    assert_eq!(
        plan_install(false, PlatformTag::Linux, "requirements.txt"),
        Err(FondaError::new(ErrorKind::RequirementsNotFound, "requirements.txt", "not found"))
    );
    assert_eq!(
        plan_install(true, PlatformTag::Linux, "requirements.txt"),
        Ok(spawn("pip", &["install", "-r", "requirements.txt"]))
    );
    assert_eq!(
        plan_install(true, PlatformTag::MacOS, "r.txt"),
        Ok(spawn("pip", &["install", "-r", "r.txt"]))
    );
    assert_eq!(
        plan_install(true, PlatformTag::Windows, "requirements.txt"),
        Ok(spawn("python", &["-m", "pip", "install", "-r", "requirements.txt"]))
    );
}
