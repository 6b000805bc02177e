use prek_python::paths::EnvPath;
use prek_python::process::{Cmd, Error, Output, StatusError};
use prek_python::python::{
    bin_dir, python_exec, python_info, query_python_info, to_uv_python_request, Python,
    PythonInfoError, VenvFailure, VenvStep,
};
use prek_python::request::{LanguageRequest, PythonRequest};
use prek_python::store::Store;
use prek_python::uv::Uv;
use prek_python::version::{Version, VersionReq};

fn setup_test_install() -> (Uv, Store, String) {
    let store = Store {
        uv_cache: "/store/cache/uv".to_string(),
        python_tools: "/store/tools/python".to_string(),
    };
    (
        Uv::new(EnvPath::new("uv")),
        store,
        "/hooks/python-1".to_string(),
    )
}

fn status(stderr: &str) -> Error {
    Error::Status {
        error: StatusError {
            output: Some(Output {
                stdout: vec![],
                stderr: stderr.as_bytes().to_vec(),
            }),
        },
    }
}

fn strings(list: &[&str]) -> Vec<String> {
    list.iter().map(|s| s.to_string()).collect()
}

#[test]
fn create_venv_command_removes_uv_system_python_override() {
    let (uv, store, env_path) = setup_test_install();
    let request = LanguageRequest::Any { system_only: false };
    let python = to_uv_python_request(&request);
    let cmd = Python::create_venv_command(
        &uv,
        &store,
        &env_path,
        python.as_deref(),
        false,
        false,
        false,
    );

    assert_eq!(cmd.env_change("UV_SYSTEM_PYTHON"), Some(None));
    assert_eq!(cmd.env_change("UV_PYTHON"), Some(None));
    assert_eq!(cmd.env_change("UV_MANAGED_PYTHON"), Some(None));
    assert_eq!(cmd.env_change("UV_NO_MANAGED_PYTHON"), Some(None));
}

#[test]
fn pip_install_command_removes_uv_system_python_override() {
    let (uv, store, env_path) = setup_test_install();
    let cmd = Python::pip_install_command(&uv, &store, &env_path);

    assert_eq!(cmd.env_change("UV_SYSTEM_PYTHON"), Some(None));
    assert_eq!(cmd.env_change("UV_PYTHON"), Some(None));
    assert_eq!(cmd.env_change("UV_MANAGED_PYTHON"), Some(None));
    assert_eq!(cmd.env_change("UV_NO_MANAGED_PYTHON"), Some(None));
}

#[test]
fn requests_are_handed_to_uv_as_they_stand() {
    let python = |request| to_uv_python_request(&LanguageRequest::Python(request));
    assert_eq!(
        to_uv_python_request(&LanguageRequest::Any { system_only: true }),
        None
    );
    assert_eq!(python(PythonRequest::Any), None);
    assert_eq!(python(PythonRequest::Major(3)), Some("3".to_string()));
    assert_eq!(
        python(PythonRequest::MajorMinor(3, 10)),
        Some("3.10".to_string())
    );
    assert_eq!(
        python(PythonRequest::MajorMinorPatch(3, 10, 5)),
        Some("3.10.5".to_string())
    );
    let requirement = VersionReq::parse(">=3.10, <4").unwrap();
    assert_eq!(
        python(PythonRequest::Range(requirement, ">=3.10, <4".to_string())),
        Some(">=3.10, <4".to_string())
    );
}

#[test]
fn environments_are_created_with_managed_interpreters() {
    let (uv, store, env_path) = setup_test_install();
    let plain = Python::create_venv_command(&uv, &store, &env_path, None, false, false, false);
    assert_eq!(
        plain.args,
        strings(&[
            "venv",
            "/hooks/python-1",
            "--python-preference",
            "managed",
            "--no-project",
            "--project",
            "/",
            "--no-python-downloads",
        ])
    );
    assert_eq!(plain.summary, "create venv");
    assert_eq!(plain.env_change("UV_PYTHON_INSTALL_DIR"), None);
    assert_eq!(
        plain.env_change("UV_CACHE_DIR"),
        Some(Some("/store/cache/uv".to_string()))
    );
    assert_eq!(plain.check, None);

    let full = Python::create_venv_command(&uv, &store, &env_path, Some("3.10"), true, true, true);
    assert_eq!(
        full.args,
        strings(&[
            "venv",
            "/hooks/python-1",
            "--python-preference",
            "managed",
            "--no-project",
            "--project",
            "/",
            "--clear",
            "--allow-python-downloads",
            "--python",
            "3.10",
        ])
    );
    assert_eq!(
        full.env_change("UV_PYTHON_INSTALL_DIR"),
        Some(Some("/store/tools/python".to_string()))
    );
    assert_eq!(full.env_change("UV_PYTHON"), Some(None));
}

#[test]
fn packages_are_installed_into_the_environment() {
    let (uv, store, env_path) = setup_test_install();
    let packages = strings(&["a", "b==1"]);
    let cmd = Python::install_dependencies(&uv, &store, &env_path, None, &packages).unwrap();
    assert_eq!(
        cmd.args,
        strings(&["pip", "install", "--project", "/", "a", "b==1"])
    );
    assert_eq!(
        cmd.env_change("VIRTUAL_ENV"),
        Some(Some("/hooks/python-1".to_string()))
    );
    assert!(cmd.without_git_envs);
    assert_eq!(cmd.check, Some(true));

    let remote =
        Python::install_dependencies(&uv, &store, &env_path, Some("/repo"), &packages).unwrap();
    assert_eq!(
        remote.args,
        strings(&[
            "pip",
            "install",
            "--project",
            "/",
            "--directory",
            "/repo",
            ".",
            "a",
            "b==1"
        ])
    );
    assert!(
        Python::install_dependencies(&uv, &store, &env_path, Some("/repo"), &vec![]).is_some()
    );
    assert!(Python::install_dependencies(&uv, &store, &env_path, None, &vec![]).is_none());
}

#[test]
fn downloads_are_tried_where_uv_offers_them() {
    let offered = status("hint: A managed Python download is available for Python 3.12");
    assert!(Python::can_retry_with_downloads(&offered));
    assert!(!Python::can_retry_with_downloads(&status(
        "A managed Python download is"
    )));
    assert!(!Python::can_retry_with_downloads(&Error::Status {
        error: StatusError { output: None }
    }));
    assert!(!Python::can_retry_with_downloads(&Error::Other {
        message: "A managed Python download is available".to_string()
    }));
}

#[test]
fn a_failed_attempt_is_repeated_with_downloads() {
    let (uv, store, env_path) = setup_test_install();
    let after = |allows_download, result| {
        Python::create_venv_with_python(
            &uv,
            &store,
            &env_path,
            Some("3.12"),
            allows_download,
            true,
            result,
        )
    };
    let offer = "A managed Python download is available";
    assert_eq!(after(true, Ok(())), VenvStep::Created);
    match after(true, Err(status(offer))) {
        VenvStep::Retry(cmd) => {
            assert!(cmd.args.contains(&"--allow-python-downloads".to_string()));
            assert!(cmd.args.contains(&"--clear".to_string()));
            assert!(cmd.env_change("UV_PYTHON_INSTALL_DIR").is_some());
            assert_eq!(cmd.check, Some(true));
        }
        other => panic!("unexpected {other:?}"),
    }
    assert_eq!(
        after(false, Err(status(offer))),
        VenvStep::Failed(VenvFailure::DownloadsDisabled)
    );
    assert_eq!(
        after(true, Err(status("no"))),
        VenvStep::Failed(VenvFailure::Command(status("no")))
    );
    assert_eq!(
        VenvFailure::DownloadsDisabled.message().unwrap(),
        "No suitable system Python version found and downloads are disabled"
    );
    assert_eq!(VenvFailure::Command(status("no")).message(), None);
}

#[test]
fn interpreters_lie_in_the_directory_of_programs() {
    let venv = EnvPath::new("/env");
    assert_eq!(bin_dir(&venv, false).names, strings(&["bin"]));
    assert_eq!(bin_dir(&venv, true).names, strings(&["Scripts"]));
    assert_eq!(
        python_exec(&venv, false, "").names,
        strings(&["bin", "python"])
    );
    assert_eq!(
        python_exec(&venv, true, "exe").names,
        strings(&["Scripts", "python.exe"])
    );
    assert_eq!(python_exec(&venv, true, "exe").base, "/env");
}

#[test]
fn interpreters_are_asked_in_isolation() {
    let cmd = query_python_info(&EnvPath::new("/env/bin/python"));
    assert_eq!(cmd.args[0], "-I");
    assert_eq!(cmd.args[1], "-c");
    assert_eq!(
        cmd.args[2],
        "import sys, json\ninfo = {\n    \"version\": \".\".join(map(str, sys.version_info[:3])),\n    \"base_exec_prefix\": sys.base_exec_prefix,\n}\nprint(json.dumps(info))\n"
    );
    assert_eq!(cmd.args.len(), 3);
    assert_eq!(cmd.check, Some(true));

    let info = python_info(Version::new(3, 10, 0), "/usr", false, "");
    assert_eq!(info.version, Version::new(3, 10, 0));
    assert_eq!(info.python_exec.base, "/usr");
    assert_eq!(info.python_exec.names, strings(&["bin", "python"]));

    assert_eq!(
        PythonInfoError::Parse("x".to_string()).message(),
        "Failed to parse Python info JSON: x"
    );
    assert_eq!(
        PythonInfoError::Query("x".to_string()).message(),
        "Failed to query Python info: x"
    );
    assert_eq!(PythonInfoError::Message("x".to_string()).message(), "x");
}

#[test]
fn environments_are_healthy_while_the_version_stays() {
    let expected = Version::new(3, 10, 0);
    assert_eq!(
        Python::check_health(&expected, &Version::new(3, 10, 0)),
        Ok(())
    );
    let mismatch = Python::check_health(&expected, &Version::new(3, 10, 1)).unwrap_err();
    assert_eq!(
        mismatch.message(),
        "Python version mismatch: expected 3.10.0, found 3.10.1"
    );
}

#[test]
fn hooks_run_in_their_environment() {
    let cmd = Python::hook_command(
        &strings(&["black", "--quiet"]),
        "/work",
        "/env",
        "/env/bin:/usr/bin",
        &vec![
            ("A".to_string(), "1".to_string()),
            ("PYTHONHOME".to_string(), "/home".to_string()),
            ("A".to_string(), "2".to_string()),
        ],
        &strings(&["--check"]),
        &strings(&["a.py", "b.py"]),
    );
    assert_eq!(cmd.program, EnvPath::new("black"));
    assert_eq!(
        cmd.args,
        strings(&["--quiet", "--check", "a.py", "b.py"])
    );
    assert_eq!(cmd.current_dir, Some("/work".to_string()));
    assert_eq!(cmd.check, Some(false));
    assert!(cmd.null_stdin);
    assert_eq!(cmd.env_change("VIRTUAL_ENV"), Some(Some("/env".to_string())));
    assert_eq!(
        cmd.env_change("PATH"),
        Some(Some("/env/bin:/usr/bin".to_string()))
    );
    // What the hook sets comes last.
    assert_eq!(
        cmd.env_change("PYTHONHOME"),
        Some(Some("/home".to_string()))
    );
    assert_eq!(cmd.env_change("A"), Some(Some("2".to_string())));
}

#[test]
fn later_environment_changes_replace_earlier_ones() {
    let mut cmd = Cmd::new(&EnvPath::new("p"), "s");
    assert_eq!(cmd.env_change("K"), None);
    cmd.env("K", "1");
    cmd.env("L", "2");
    assert_eq!(cmd.env_change("K"), Some(Some("1".to_string())));
    cmd.env_remove("K");
    assert_eq!(cmd.env_change("K"), Some(None));
    assert_eq!(cmd.env_change("L"), Some(Some("2".to_string())));
}

#[test]
fn batches_are_combined_in_order() {
    let first = Python::batch_result(Some(1), b"out".to_vec(), &b"err".to_vec());
    assert_eq!(first, (1, b"outerr".to_vec()));
    let killed = Python::batch_result(None, vec![], &b"!".to_vec());
    assert_eq!(killed, (1, b"!".to_vec()));

    let combined = Python::run(&vec![
        (0, b"a".to_vec()),
        (1, b"b".to_vec()),
        (4, b"c".to_vec()),
    ]);
    assert_eq!(combined, (5, b"abc".to_vec()));
    assert_eq!(Python::run(&vec![(0, vec![]), (0, vec![])]), (0, vec![]));
    assert_eq!(Python::run(&vec![]), (0, vec![]));
    assert_eq!(Python::run(&vec![(-1, vec![]), (2, vec![])]).0, -1);
}
