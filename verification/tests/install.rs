use prek_python::install::{HookInstall, InstallFailure, InstallStep, RunState};
use prek_python::paths::EnvPath;
use prek_python::process::{Cmd, Error, Output, StatusError};
use prek_python::python::{python_info, PythonInfoError, VenvFailure};
use prek_python::request::{LanguageRequest, PythonRequest};
use prek_python::store::Store;
use prek_python::uv::Uv;
use prek_python::version::Version;

fn hook(language_request: LanguageRequest, repo_path: Option<&str>) -> HookInstall {
    HookInstall {
        uv: Uv::new(EnvPath::new("uv")),
        store: Store {
            uv_cache: "/store/cache/uv".to_string(),
            python_tools: "/store/tools/python".to_string(),
        },
        env_path: "/hooks/python-1".to_string(),
        language_request,
        allows_download: true,
        repo_path: repo_path.map(|path| path.to_string()),
        additional_dependencies: vec!["example==0.0.0".to_string()],
        windows: false,
        exe_extension: String::new(),
    }
}

fn status(stderr: &str) -> Error {
    Error::Status {
        error: StatusError {
            output: Some(Output {
                stdout: vec![],
                stderr: stderr.as_bytes().to_vec(),
            }),
        },
    }
}

/// A `uv` that creates every environment and fails to install packages, the first
/// time or always.
struct FakeUv {
    log: Vec<String>,
    pip_calls: usize,
    retry_succeeds: bool,
    wrap_bound: bool,
}

impl FakeUv {
    fn new(retry_succeeds: bool, wrap_bound: bool) -> FakeUv {
        FakeUv {
            log: Vec::new(),
            pip_calls: 0,
            retry_succeeds,
            wrap_bound,
        }
    }

    fn run(&mut self, cmd: &Cmd) -> Result<(), Error> {
        let line: String = cmd.args.iter().map(|arg| format!("{arg}\t")).collect();
        self.log.push(line);
        if cmd.args[0] == "venv" {
            return Ok(());
        }
        self.pip_calls += 1;
        if self.retry_succeeds && self.pip_calls > 1 {
            return Ok(());
        }
        let space = if self.wrap_bound { "\n      " } else { " " };
        Err(status(&format!(
            "× No solution found when resolving dependencies:\n╰─▶ Because the current Python version (3.9.6) does not satisfy{space}Python>=3.10 and example==0.0.0 depends on Python>=3.10, we can conclude that example==0.0.0 cannot be used.\n"
        )))
    }
}

fn install(hook: &HookInstall, uv: &mut FakeUv) -> InstallStep {
    let mut step = hook.start();
    loop {
        step = match step {
            InstallStep::Run { state, cmd } => {
                let result = uv.run(&cmd);
                hook.after_run(state, result)
            }
            end => return end,
        };
    }
}

fn is_query(step: &InstallStep) -> bool {
    matches!(step, InstallStep::Query { .. })
}

#[test]
fn inferred_retry_recreates_venv_and_retries_install() {
    let hook = hook(LanguageRequest::Any { system_only: false }, None);
    let mut uv = FakeUv::new(true, true);
    let end = install(&hook, &mut uv);

    assert!(is_query(&end), "expected success: {end:?}");

    let commands = uv.log;
    let pip_install_calls = commands
        .iter()
        .filter(|command| command.starts_with("pip\tinstall\t"))
        .count();
    assert_eq!(pip_install_calls, 2, "commands: {commands:?}");
    assert!(
        commands.iter().any(|command| {
            command.starts_with("venv\t")
                && command.contains("\t--clear\t")
                && command.contains("\t--python\t>=3.10,<3.11\t")
        }),
        "commands: {commands:?}"
    );
}

#[test]
fn inferred_retry_retries_remote_repo_install() {
    let hook = hook(LanguageRequest::Any { system_only: false }, Some("/repo"));
    let mut uv = FakeUv::new(true, false);
    let end = install(&hook, &mut uv);

    assert!(is_query(&end), "expected success: {end:?}");

    let commands = uv.log;
    let remote_installs = commands
        .iter()
        .filter(|command| {
            command.starts_with("pip\tinstall\t")
                && command.contains("\t--directory\t")
                && command.contains("\t.\t")
        })
        .count();
    assert_eq!(remote_installs, 2, "commands: {commands:?}");
    assert!(
        commands.iter().any(|command| {
            command.starts_with("venv\t")
                && command.contains("\t--clear\t")
                && command.contains("\t--python\t>=3.10,<3.11\t")
        }),
        "commands: {commands:?}"
    );
}

#[test]
fn system_language_version_does_not_retry_with_inferred_constraint() {
    let hook = hook(LanguageRequest::Any { system_only: true }, None);
    let mut uv = FakeUv::new(true, false);
    let end = install(&hook, &mut uv);

    assert!(!is_query(&end), "expected failure: {end:?}");

    let commands = uv.log;
    let pip_install_calls = commands
        .iter()
        .filter(|command| command.starts_with("pip\tinstall\t"))
        .count();
    assert_eq!(pip_install_calls, 1, "commands: {commands:?}");
    assert!(
        !commands
            .iter()
            .any(|command| command.starts_with("venv\t") && command.contains("\t--clear\t")),
        "commands: {commands:?}"
    );
    assert!(
        !commands
            .iter()
            .any(|command| command.contains("\t--python\t>=3.10,<3.11\t")),
        "commands: {commands:?}"
    );
}

#[test]
fn the_retry_is_made_once() {
    let hook = hook(LanguageRequest::Python(PythonRequest::Any), None);
    let mut uv = FakeUv::new(false, false);
    let end = install(&hook, &mut uv);
    assert_eq!(uv.pip_calls, 2);
    assert_eq!(uv.log.len(), 4);
    match end {
        InstallStep::Fail(failure) => assert_eq!(
            failure.context(),
            Some("Retry with inferred Python constraint `>=3.10,<3.11` failed".to_string())
        ),
        other => panic!("unexpected {other:?}"),
    }
}

#[test]
fn the_first_environment_is_made_as_the_hook_asks() {
    let hook = hook(
        LanguageRequest::Python(PythonRequest::MajorMinor(3, 9)),
        None,
    );
    let mut uv = FakeUv::new(true, false);
    let end = install(&hook, &mut uv);
    assert!(uv.log[0].ends_with("--no-python-downloads\t--python\t3.9\t"));
    assert!(!uv.log[0].contains("--clear"));
    // What was inferred lies outside of what the hook asks for.
    assert_eq!(uv.log.len(), 2);
    match end {
        InstallStep::Fail(failure) => assert_eq!(failure.context(), None),
        other => panic!("unexpected {other:?}"),
    }
}

#[test]
fn downloads_follow_an_offer_and_a_permission() {
    let offer = "A managed Python download is available";
    let mut plan = hook(LanguageRequest::Any { system_only: false }, None);
    let first = |retry: Option<&str>| RunState::Venv {
        retry: retry.map(|request| request.to_string()),
        downloads: false,
    };
    match plan.after_run(first(None), Err(status(offer))) {
        InstallStep::Run { state, cmd } => {
            assert_eq!(
                state,
                RunState::Venv {
                    retry: None,
                    downloads: true
                }
            );
            assert!(cmd.args.contains(&"--allow-python-downloads".to_string()));
            match plan.after_run(state, Err(status(offer))) {
                InstallStep::Fail(failure) => {
                    assert_eq!(
                        failure,
                        InstallFailure::Venv {
                            retry: None,
                            cause: VenvFailure::Command(status(offer))
                        }
                    );
                    assert_eq!(
                        failure.context(),
                        Some("Failed to create Python virtual environment".to_string())
                    );
                }
                other => panic!("unexpected {other:?}"),
            }
        }
        other => panic!("unexpected {other:?}"),
    }
    plan.allows_download = false;
    match plan.after_run(first(Some(">=3.10,<3.11")), Err(status(offer))) {
        InstallStep::Fail(failure) => {
            assert_eq!(
                failure,
                InstallFailure::Venv {
                    retry: Some(">=3.10,<3.11".to_string()),
                    cause: VenvFailure::DownloadsDisabled
                }
            );
            assert_eq!(
                failure.context(),
                Some(
                    "Failed to recreate Python virtual environment with inferred Python constraint `>=3.10,<3.11`"
                        .to_string()
                )
            );
        }
        other => panic!("unexpected {other:?}"),
    }
}

#[test]
fn hooks_without_dependencies_are_asked_at_once() {
    let mut plan = hook(LanguageRequest::Any { system_only: false }, None);
    plan.additional_dependencies = vec![];
    let mut uv = FakeUv::new(false, false);
    match install(&plan, &mut uv) {
        InstallStep::Query { python } => {
            assert_eq!(python.base, "/hooks/python-1");
            assert_eq!(
                python.names,
                vec!["bin".to_string(), "python".to_string()]
            );
        }
        other => panic!("unexpected {other:?}"),
    }
    assert_eq!(uv.log.len(), 1);
}

#[test]
fn a_given_request_is_retried_in_the_first_round_alone() {
    let plan = hook(LanguageRequest::Any { system_only: false }, None);
    let request = || Some(">=3.10,<3.11".to_string());
    assert!(matches!(
        plan.after_failed_dependencies(None, status("x"), request()),
        InstallStep::Run { .. }
    ));
    assert!(matches!(
        plan.after_failed_dependencies(None, status("x"), None),
        InstallStep::Fail(_)
    ));
    assert!(matches!(
        plan.after_failed_dependencies(request(), status("x"), request()),
        InstallStep::Fail(_)
    ));
    assert_eq!(
        plan.retry_request(&status("does not satisfy Python>3.10")),
        Some(">3.10,<3.11".to_string())
    );
    assert_eq!(plan.retry_request(&status("other")), None);
}

#[test]
fn the_answer_of_the_interpreter_ends_the_installation() {
    let info = || python_info(Version::new(3, 10, 0), "/usr", false, "");
    assert_eq!(HookInstall::after_query(Ok(info())), Ok(info()));
    let error = || PythonInfoError::Query("gone".to_string());
    let failure = HookInstall::after_query(Err(error())).unwrap_err();
    assert_eq!(failure, InstallFailure::Info(error()));
    assert_eq!(
        failure.context(),
        Some("Failed to query Python info".to_string())
    );
}
