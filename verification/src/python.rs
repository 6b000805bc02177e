//! Python hook environments: the commands that build them and run hooks in them.

use vstd::prelude::*;

use crate::env_vars::{
    PATH, PYTHONHOME, UV_MANAGED_PYTHON, UV_NO_MANAGED_PYTHON, UV_PYTHON, UV_PYTHON_INSTALL_DIR,
    UV_SYSTEM_PYTHON, VIRTUAL_ENV,
};
use crate::paths::{program_file, EnvPath};
use crate::process::{Cmd, Error};
use crate::request::{LanguageRequest, PythonRequest};
use crate::store::Store;
use crate::text::{contains, decimal_text, joined};
use crate::uv::Uv;
use crate::version::{format_release, Release, Version};

verus! {

/// The Python language.
#[derive(Debug, Copy, Clone, PartialEq, Eq, Structural)]
pub struct Python;

/// The text of an optional string slice.
pub open spec fn optional_str(text: Option<&str>) -> Option<Seq<char>> {
    match text {
        Some(s) => Some(s@),
        None => None,
    }
}

/// What `uv` is asked for, where a hook asks for an interpreter in particular.
pub open spec fn uv_request(request: LanguageRequest) -> Option<Seq<char>> {
    match request {
        LanguageRequest::Python(PythonRequest::Major(major)) => Some(
            crate::text::decimal(major as nat),
        ),
        LanguageRequest::Python(PythonRequest::MajorMinor(major, minor)) => Some(
            crate::text::decimal(major as nat).push('.') + crate::text::decimal(minor as nat),
        ),
        LanguageRequest::Python(PythonRequest::MajorMinorPatch(major, minor, patch)) => Some(
            crate::version::release_text(Release { major, minor, patch }),
        ),
        LanguageRequest::Python(PythonRequest::Range(_, raw)) => Some(raw@),
        _ => None,
    }
}

/// What `uv` is asked for. The request is not one for another language.
pub fn to_uv_python_request(request: &LanguageRequest) -> (r: Option<String>)
    requires
        !(request is Other),
    ensures
        crate::text::optional_text(r) == uv_request(*request),
{
    match request {
        LanguageRequest::Python(request) => match request {
            PythonRequest::Any => None,
            PythonRequest::Major(major) => Some(decimal_text(*major)),
            PythonRequest::MajorMinor(major, minor) => {
                proof {
                    reveal_strlit(".");
                }
                let dotted: String = joined(decimal_text(*major).as_str(), ".");
                let whole: String = joined(dotted.as_str(), decimal_text(*minor).as_str());
                assert(dotted@ == crate::text::decimal(*major as nat).push('.'));
                Some(whole)
            },
            PythonRequest::MajorMinorPatch(major, minor, patch) => Some(
                format_release(&Release { major: *major, minor: *minor, patch: *patch }),
            ),
            PythonRequest::Range(_, raw) => Some(raw.clone()),
        },
        _ => None,
    }
}

/// The directory of programs in a virtual environment, which has another name on
/// Windows.
pub open spec fn program_dir(venv: crate::paths::EnvPathView, windows: bool) -> (
    crate::paths::EnvPathView) {
    venv.join(
        if windows {
            "Scripts"@
        } else {
            "bin"@
        },
    )
}

/// The interpreter in a virtual environment.
pub open spec fn interpreter(
    venv: crate::paths::EnvPathView,
    windows: bool,
    exe_extension: Seq<char>,
) -> crate::paths::EnvPathView {
    program_dir(venv, windows).join(crate::paths::program_name("python"@, exe_extension))
}

/// The directory of programs in a virtual environment.
pub fn bin_dir(venv: &EnvPath, windows: bool) -> (r: EnvPath)
    ensures
        r@ == program_dir(venv@, windows),
{
    if windows {
        venv.join("Scripts")
    } else {
        venv.join("bin")
    }
}

/// The interpreter in a virtual environment. `exe_extension` is that of programs
/// on the platform.
pub fn python_exec(venv: &EnvPath, windows: bool, exe_extension: &str) -> (r: EnvPath)
    ensures
        r@ == interpreter(venv@, windows, exe_extension@),
{
    let name: String = program_file("python", exe_extension);
    bin_dir(venv, windows).join(name.as_str())
}

/// Environment changes that keep `uv` from taking another interpreter than that of
/// the hook's environment.
pub open spec fn without_overrides(envs: Map<Seq<char>, Option<Seq<char>>>) -> Map<
    Seq<char>,
    Option<Seq<char>>,
> {
    envs.insert(UV_PYTHON@, None).insert(UV_SYSTEM_PYTHON@, None).insert(
        UV_MANAGED_PYTHON@,
        None,
    ).insert(UV_NO_MANAGED_PYTHON@, None)
}

/// The command that installs packages in an environment, before they are named.
pub open spec fn pip_install(uv: Uv, store: Store, env_path: Seq<char>) -> (
    crate::process::CmdView) {
    let base = crate::uv::uv_command(uv.path@, "uv pip"@, store);
    crate::process::CmdView {
        args: seq!["pip"@, "install"@, "--project"@, "/"@],
        envs: without_overrides(base.envs.insert(VIRTUAL_ENV@, Some(env_path))),
        without_git_envs: true,
        check: Some(true),
        ..base
    }
}

/// The arguments that create an environment.
pub open spec fn venv_args(
    env_path: Seq<char>,
    python_request: Option<Seq<char>>,
    allow_downloads: bool,
    clear: bool,
) -> Seq<Seq<char>> {
    seq![
        "venv"@,
        env_path,
        "--python-preference"@,
        "managed"@,
        "--no-project"@,
        "--project"@,
        "/"@,
    ] + (if clear {
        seq!["--clear"@]
    } else {
        Seq::empty()
    }) + (if allow_downloads {
        seq!["--allow-python-downloads"@]
    } else {
        seq!["--no-python-downloads"@]
    }) + (match python_request {
        Some(python) => seq!["--python"@, python],
        None => Seq::empty(),
    })
}

/// The command that creates an environment.
pub open spec fn create_venv(
    uv: Uv,
    store: Store,
    env_path: Seq<char>,
    python_request: Option<Seq<char>>,
    set_install_dir: bool,
    allow_downloads: bool,
    clear: bool,
) -> crate::process::CmdView {
    let base = crate::uv::uv_command(uv.path@, "create venv"@, store);
    crate::process::CmdView {
        args: venv_args(env_path, python_request, allow_downloads, clear),
        envs: if set_install_dir {
            without_overrides(base.envs).insert(
                UV_PYTHON_INSTALL_DIR@,
                Some(store.python_tools@),
            )
        } else {
            without_overrides(base.envs)
        },
        ..base
    }
}

/// The words by which `uv` says that it could download an interpreter.
pub const DOWNLOAD_AVAILABLE: &'static str = "A managed Python download is available";

/// Whether a failed command said that an interpreter could be downloaded.
pub open spec fn offers_download(error: Error) -> bool {
    match crate::process::captured_text(error) {
        Some(stderr) => crate::text::occurs(DOWNLOAD_AVAILABLE@, stderr),
        None => false,
    }
}

impl Python {
    /// Keeps `uv` from taking another interpreter than that of the hook's
    /// environment.
    pub fn remove_uv_python_override_envs(cmd: &mut Cmd)
        ensures
            final(cmd)@ == (crate::process::CmdView {
                envs: without_overrides(old(cmd)@.envs),
                ..old(cmd)@
            }),
    {
        cmd.env_remove(UV_PYTHON);
        cmd.env_remove(UV_SYSTEM_PYTHON);
        // `--managed-python` and `--no-managed-python` conflict with the explicit preference.
        cmd.env_remove(UV_MANAGED_PYTHON);
        cmd.env_remove(UV_NO_MANAGED_PYTHON);
    }

    /// The command that installs packages in an environment, before they are named.
    pub fn pip_install_command(uv: &Uv, store: &Store, env_path: &str) -> (r: Cmd)
        ensures
            r@ == pip_install(*uv, *store, env_path@),
    {
        let mut cmd: Cmd = uv.cmd("uv pip", store);
        cmd.arg("pip");
        cmd.arg("install");
        // The root is named as the project, so that no configuration of a project is
        // found. This has no other effect on `uv pip`.
        cmd.arg("--project");
        cmd.arg("/");
        cmd.env(VIRTUAL_ENV, env_path);
        Self::remove_uv_python_override_envs(&mut cmd);
        // Variables that leak from git hooks can break the file discovery of packages.
        cmd.remove_git_envs();
        cmd.check(true);
        assert(cmd@.args == seq!["pip"@, "install"@, "--project"@, "/"@]);
        cmd
    }

    /// The command that creates an environment.
    pub fn create_venv_command(
        uv: &Uv,
        store: &Store,
        env_path: &str,
        python_request: Option<&str>,
        set_install_dir: bool,
        allow_downloads: bool,
        clear: bool,
    ) -> (r: Cmd)
        ensures
            r@ == create_venv(
                *uv,
                *store,
                env_path@,
                optional_str(python_request),
                set_install_dir,
                allow_downloads,
                clear,
            ),
    {
        let mut cmd: Cmd = uv.cmd("create venv", store);
        cmd.arg("venv");
        cmd.arg(env_path);
        cmd.arg("--python-preference");
        cmd.arg("managed");
        // No project or workspace is discovered.
        cmd.arg("--no-project");
        cmd.arg("--project");
        cmd.arg("/");
        if clear {
            cmd.arg("--clear");
        }
        Self::remove_uv_python_override_envs(&mut cmd);
        if set_install_dir {
            cmd.env(UV_PYTHON_INSTALL_DIR, store.python_tools.as_str());
        }
        if allow_downloads {
            cmd.arg("--allow-python-downloads");
        } else {
            cmd.arg("--no-python-downloads");
        }
        match python_request {
            Some(python) => {
                cmd.arg("--python");
                cmd.arg(python);
            },
            None => {},
        }
        assert(cmd@.args == venv_args(
            env_path@,
            optional_str(python_request),
            allow_downloads,
            clear,
        ));
        cmd
    }

    /// Whether a failed command said that an interpreter could be downloaded.
    pub fn can_retry_with_downloads(error: &Error) -> (r: bool)
        ensures
            r == offers_download(*error),
    {
        match error.stderr_text() {
            Some(stderr) => contains(stderr.as_str(), DOWNLOAD_AVAILABLE),
            None => false,
        }
    }
}

/// The command that installs what a hook depends on, where it depends on
/// anything: the repository it comes from, and the packages it names.
pub open spec fn dependencies_command(
    uv: Uv,
    store: Store,
    env_path: Seq<char>,
    repo_path: Option<Seq<char>>,
    additional_dependencies: Seq<Seq<char>>,
) -> Option<crate::process::CmdView> {
    let base = pip_install(uv, store, env_path);
    match repo_path {
        Some(repo) => Some(
            crate::process::CmdView {
                args: base.args + seq!["--directory"@, repo, "."@] + additional_dependencies,
                ..base
            },
        ),
        None => if additional_dependencies.len() > 0 {
            Some(crate::process::CmdView { args: base.args + additional_dependencies, ..base })
        } else {
            None
        },
    }
}

/// The contents of a command, where there is one.
pub open spec fn optional_command(cmd: Option<Cmd>) -> Option<crate::process::CmdView> {
    match cmd {
        Some(cmd) => Some(cmd@),
        None => None,
    }
}

/// How the creation of an environment failed.
#[derive(Debug, PartialEq, Eq)]
pub enum VenvFailure {
    /// There is no interpreter, and none may be downloaded.
    DownloadsDisabled,
    /// The command failed.
    Command(Error),
}

/// What follows an attempt to create an environment.
#[derive(Debug, PartialEq, Eq)]
pub enum VenvStep {
    /// The environment is there.
    Created,
    /// Another attempt, with downloads.
    Retry(Cmd),
    /// It failed.
    Failed(VenvFailure),
}

/// The contents of a [`VenvStep`].
pub enum VenvStepView {
    Created,
    Retry(crate::process::CmdView),
    Failed(VenvFailure),
}

impl View for VenvStep {
    type V = VenvStepView;

    open spec fn view(&self) -> VenvStepView {
        match self {
            VenvStep::Created => VenvStepView::Created,
            VenvStep::Retry(cmd) => VenvStepView::Retry(cmd@),
            VenvStep::Failed(failure) => VenvStepView::Failed(*failure),
        }
    }
}

/// An attempt to create an environment, without or with downloads.
pub open spec fn venv_attempt(
    uv: Uv,
    store: Store,
    env_path: Seq<char>,
    python_request: Option<Seq<char>>,
    downloads: bool,
    clear: bool,
) -> crate::process::CmdView {
    crate::process::CmdView {
        check: Some(true),
        ..create_venv(uv, store, env_path, python_request, downloads, downloads, clear)
    }
}

/// What follows the first attempt, which is made without downloads.
pub open spec fn after_first_attempt(
    uv: Uv,
    store: Store,
    env_path: Seq<char>,
    python_request: Option<Seq<char>>,
    allows_download: bool,
    clear: bool,
    result: Result<(), Error>,
) -> VenvStepView {
    match result {
        Ok(_) => VenvStepView::Created,
        Err(error) => if !offers_download(error) {
            VenvStepView::Failed(VenvFailure::Command(error))
        } else if !allows_download {
            VenvStepView::Failed(VenvFailure::DownloadsDisabled)
        } else {
            VenvStepView::Retry(venv_attempt(uv, store, env_path, python_request, true, clear))
        },
    }
}

impl Python {
    /// The command that installs what a hook depends on, where it depends on
    /// anything.
    pub fn install_dependencies(
        uv: &Uv,
        store: &Store,
        env_path: &str,
        repo_path: Option<&str>,
        additional_dependencies: &Vec<String>,
    ) -> (r: Option<Cmd>)
        ensures
            optional_command(r) == dependencies_command(
                *uv,
                *store,
                env_path@,
                optional_str(repo_path),
                crate::text::texts(additional_dependencies@),
            ),
    {
        let mut cmd: Cmd = Self::pip_install_command(uv, store, env_path);
        let ghost base = cmd@;
        match repo_path {
            Some(repo_path) => {
                cmd.arg("--directory");
                cmd.arg(repo_path);
                cmd.arg(".");
                assert(cmd@.args == base.args + seq!["--directory"@, repo_path@, "."@]);
                cmd.args(additional_dependencies);
                Some(cmd)
            },
            None => {
                if additional_dependencies.len() > 0 {
                    cmd.args(additional_dependencies);
                    Some(cmd)
                } else {
                    None
                }
            },
        }
    }

    /// An attempt to create an environment, without or with downloads.
    pub fn create_venv_attempt(
        uv: &Uv,
        store: &Store,
        env_path: &str,
        python_request: Option<&str>,
        downloads: bool,
        clear: bool,
    ) -> (r: Cmd)
        ensures
            r@ == venv_attempt(
                *uv,
                *store,
                env_path@,
                optional_str(python_request),
                downloads,
                clear,
            ),
    {
        let mut cmd: Cmd = Self::create_venv_command(
            uv,
            store,
            env_path,
            python_request,
            downloads,
            downloads,
            clear,
        );
        cmd.check(true);
        cmd
    }

    /// What follows the first attempt to create an environment, which is made
    /// without downloads.
    pub fn create_venv_with_python(
        uv: &Uv,
        store: &Store,
        env_path: &str,
        python_request: Option<&str>,
        allows_download: bool,
        clear: bool,
        result: Result<(), Error>,
    ) -> (r: VenvStep)
        ensures
            r@ == after_first_attempt(
                *uv,
                *store,
                env_path@,
                optional_str(python_request),
                allows_download,
                clear,
                result,
            ),
    {
        match result {
            Ok(_) => VenvStep::Created,
            Err(error) => {
                if Self::can_retry_with_downloads(&error) {
                    if !allows_download {
                        return VenvStep::Failed(VenvFailure::DownloadsDisabled);
                    }
                    return VenvStep::Retry(
                        Self::create_venv_attempt(
                            uv,
                            store,
                            env_path,
                            python_request,
                            true,
                            clear,
                        ),
                    );
                }
                VenvStep::Failed(VenvFailure::Command(error))
            },
        }
    }
}

/// What an interpreter says of itself.
#[derive(Debug, PartialEq, Eq)]
pub struct PythonInfo {
    pub version: Version,
    /// The interpreter that an environment was made from.
    pub python_exec: EnvPath,
}

/// Why an interpreter could not be asked.
#[derive(Debug, PartialEq, Eq)]
pub enum PythonInfoError {
    Parse(String),
    Query(String),
    Message(String),
}

impl PythonInfoError {
    /// The error in words.
    pub open spec fn text(self) -> Seq<char> {
        match self {
            PythonInfoError::Parse(cause) => "Failed to parse Python info JSON: "@ + cause@,
            PythonInfoError::Query(cause) => "Failed to query Python info: "@ + cause@,
            PythonInfoError::Message(message) => message@,
        }
    }

    /// The error in words.
    pub fn message(&self) -> (r: String)
        ensures
            r@ == self.text(),
    {
        match self {
            PythonInfoError::Parse(cause) => joined(
                "Failed to parse Python info JSON: ",
                cause.as_str(),
            ),
            PythonInfoError::Query(cause) => joined(
                "Failed to query Python info: ",
                cause.as_str(),
            ),
            PythonInfoError::Message(message) => message.clone(),
        }
    }
}

/// The program that an interpreter runs to say its version and its prefix.
pub const QUERY_PYTHON_INFO: &'static str =
    "import sys, json\ninfo = {\n    \"version\": \".\".join(map(str, sys.version_info[:3])),\n    \"base_exec_prefix\": sys.base_exec_prefix,\n}\nprint(json.dumps(info))\n";

/// The command that asks an interpreter for its version and its prefix.
pub open spec fn query_command(python: crate::paths::EnvPathView) -> crate::process::CmdView {
    crate::process::CmdView {
        args: seq!["-I"@, "-c"@, QUERY_PYTHON_INFO@],
        check: Some(true),
        ..crate::process::bare_command(python, "python -c"@)
    }
}

/// The command that asks an interpreter for its version and its prefix.
pub fn query_python_info(python: &EnvPath) -> (r: Cmd)
    ensures
        r@ == query_command(python@),
{
    let mut cmd: Cmd = Cmd::new(python, "python -c");
    cmd.arg("-I");
    cmd.arg("-c");
    cmd.arg(QUERY_PYTHON_INFO);
    cmd.check(true);
    assert(cmd@.args == seq!["-I"@, "-c"@, QUERY_PYTHON_INFO@]);
    cmd
}

/// What an interpreter said of itself: its version, and the interpreter below its
/// prefix.
pub fn python_info(
    version: Version,
    base_exec_prefix: &str,
    windows: bool,
    exe_extension: &str,
) -> (r: PythonInfo)
    ensures
        r.version == version,
        r.python_exec@ == interpreter(
            crate::paths::directory(base_exec_prefix@),
            windows,
            exe_extension@,
        ),
{
    let prefix: EnvPath = EnvPath::new(base_exec_prefix);
    PythonInfo { version, python_exec: python_exec(&prefix, windows, exe_extension) }
}

/// An environment holds another version than it was made with.
#[derive(Debug, PartialEq, Eq)]
pub struct VersionMismatch {
    pub expected: String,
    pub found: String,
}

impl VersionMismatch {
    /// The error in words.
    pub fn message(&self) -> (r: String)
        ensures
            r@ == "Python version mismatch: expected "@ + self.expected@ + ", found "@
                + self.found@,
    {
        let mut message: String = joined(
            "Python version mismatch: expected ",
            self.expected.as_str(),
        );
        message.append(", found ");
        message.append(self.found.as_str());
        message
    }
}

impl Python {
    /// Whether an environment still holds the version that it was made with.
    pub fn check_health(expected: &Version, found: &Version) -> (r: Result<(), VersionMismatch>)
        ensures
            r is Ok <==> found@ == expected@,
            r matches Err(mismatch) ==> mismatch.expected@ == crate::version::version_text(expected@)
                && mismatch.found@ == crate::version::version_text(found@),
    {
        if found.equals(expected) {
            Ok(())
        } else {
            Err(VersionMismatch { expected: expected.text(), found: found.text() })
        }
    }
}

/// The command that runs a hook on some files. It gets no input, and its status
/// is for the caller to read.
pub open spec fn hook_run(
    entry: Seq<Seq<char>>,
    work_dir: Seq<char>,
    env_dir: Seq<char>,
    path: Seq<char>,
    hook_env: Seq<(String, String)>,
    hook_args: Seq<Seq<char>>,
    filenames: Seq<Seq<char>>,
) -> crate::process::CmdView {
    crate::process::CmdView {
        program: crate::paths::directory(entry[0]),
        summary: "python hook"@,
        args: entry.drop_first() + hook_args + filenames,
        envs: crate::process::with_variables(
            Map::empty().insert(VIRTUAL_ENV@, Some(env_dir)).insert(PATH@, Some(path)).insert(
                PYTHONHOME@,
                None,
            ),
            hook_env,
        ),
        without_git_envs: false,
        current_dir: Some(work_dir),
        check: Some(false),
        null_stdin: true,
    }
}

/// A list without its first string.
fn tail_of(strings: &Vec<String>) -> (r: Vec<String>)
    requires
        strings@.len() > 0,
    ensures
        crate::text::texts(r@) == crate::text::texts(strings@).drop_first(),
{
    let mut tail: Vec<String> = Vec::new();
    for i in 1..strings.len()
        invariant
            tail@.len() == i - 1,
            forall|j: int| 0 <= j < i - 1 ==> (#[trigger] tail@[j])@ == strings@[j + 1]@,
    {
        tail.push(strings[i].clone());
    }
    assert(crate::text::texts(tail@) == crate::text::texts(strings@).drop_first());
    tail
}

/// The status of a batch and everything it wrote, the standard error last. A
/// batch that was killed counts as failed.
pub open spec fn batch_outcome(code: Option<i32>, stdout: Seq<u8>, stderr: Seq<u8>) -> (
    i32,
    Seq<u8>,
) {
    (
        match code {
            Some(code) => code,
            None => 1,
        },
        stdout + stderr,
    )
}

/// The statuses of all batches, combined bit by bit.
pub open spec fn combined_status(results: Seq<(i32, Vec<u8>)>) -> i32
    decreases results.len(),
{
    if results.len() == 0 {
        0
    } else {
        combined_status(results.drop_last()) | results.last().0
    }
}

/// The outputs of all batches, in order.
pub open spec fn combined_output(results: Seq<(i32, Vec<u8>)>) -> Seq<u8>
    decreases results.len(),
{
    if results.len() == 0 {
        Seq::empty()
    } else {
        combined_output(results.drop_last()) + results.last().1@
    }
}

/// One list of bytes after another.
fn extend_bytes(bytes: &mut Vec<u8>, more: &Vec<u8>)
    ensures
        final(bytes)@ == old(bytes)@ + more@,
{
    let ghost start = bytes@;
    assert(start + more@.take(0) == start);
    for i in 0..more.len()
        invariant
            bytes@ == start + more@.take(i as int),
    {
        bytes.push(more[i]);
        assert(start + more@.take(i + 1) == (start + more@.take(i as int)).push(more@[i as int]));
    }
    assert(more@.take(more@.len() as int) == more@);
}

impl Python {
    /// The command that runs a hook on some files. The entry names a program.
    pub fn hook_command(
        entry: &Vec<String>,
        work_dir: &str,
        env_dir: &str,
        path: &str,
        hook_env: &Vec<(String, String)>,
        hook_args: &Vec<String>,
        filenames: &Vec<String>,
    ) -> (r: Cmd)
        requires
            entry@.len() > 0,
        ensures
            r@ == hook_run(
                crate::text::texts(entry@),
                work_dir@,
                env_dir@,
                path@,
                hook_env@,
                crate::text::texts(hook_args@),
                crate::text::texts(filenames@),
            ),
    {
        let program: EnvPath = EnvPath::new(entry[0].as_str());
        let mut cmd: Cmd = Cmd::new(&program, "python hook");
        let rest: Vec<String> = tail_of(entry);
        cmd.current_dir(work_dir);
        cmd.args(&rest);
        cmd.env(VIRTUAL_ENV, env_dir);
        cmd.env(PATH, path);
        cmd.env_remove(PYTHONHOME);
        cmd.envs(hook_env);
        cmd.args(hook_args);
        cmd.args(filenames);
        cmd.check(false);
        cmd.stdin_null();
        assert(Seq::<Seq<char>>::empty() + crate::text::texts(rest@) == crate::text::texts(rest@));
        cmd
    }

    /// The status of a batch and everything it wrote.
    pub fn batch_result(code: Option<i32>, stdout: Vec<u8>, stderr: &Vec<u8>) -> (r: (
        i32,
        Vec<u8>,
    ))
        ensures
            (r.0, r.1@) == batch_outcome(code, stdout@, stderr@),
    {
        let mut output: Vec<u8> = stdout;
        extend_bytes(&mut output, stderr);
        (code.unwrap_or(1), output)
    }

    /// The statuses and outputs of all batches of a hook.
    pub fn run(results: &Vec<(i32, Vec<u8>)>) -> (r: (i32, Vec<u8>))
        ensures
            r.0 == combined_status(results@),
            r.1@ == combined_output(results@),
    {
        let mut status: i32 = 0;
        let mut output: Vec<u8> = Vec::new();
        assert(results@.take(0).len() == 0);
        for i in 0..results.len()
            invariant
                status == combined_status(results@.take(i as int)),
                output@ == combined_output(results@.take(i as int)),
        {
            assert(results@.take(i + 1).drop_last() == results@.take(i as int));
            status = status | results[i].0;
            extend_bytes(&mut output, &results[i].1);
        }
        assert(results@.take(results@.len() as int) == results@);
        (status, output)
    }
}

} // verus!
