//! How a Python hook is installed, step by step: which command follows which
//! outcome, and what is tried once more.

use vstd::prelude::*;

use crate::inferred_retry::{
    infer_retry_constraint_from_error, retry_request_for_language_request, InferredRetryConstraint,
};
use crate::paths::EnvPath;
use crate::process::{Cmd, Error};
use crate::python::{
    python_exec, to_uv_python_request, Python, PythonInfo, PythonInfoError, VenvFailure, VenvStep,
};
use crate::request::LanguageRequest;
use crate::store::Store;
use crate::text::joined;
use crate::uv::Uv;

verus! {

/// What is to be installed, and with what.
#[derive(Debug, PartialEq, Eq)]
pub struct HookInstall {
    pub uv: Uv,
    pub store: Store,
    /// Where the environment goes.
    pub env_path: String,
    pub language_request: LanguageRequest,
    /// Whether an interpreter may be downloaded for the request.
    pub allows_download: bool,
    /// The repository that the hook comes from.
    pub repo_path: Option<String>,
    pub additional_dependencies: Vec<String>,
    pub windows: bool,
    /// The extension of programs on the platform, which may be empty.
    pub exe_extension: String,
}

/// The command that is running. `retry` is the constraint that the environment
/// is made again with, in the second round.
#[derive(Debug, PartialEq, Eq)]
pub enum RunState {
    /// The environment is created, without or with downloads.
    Venv { retry: Option<String>, downloads: bool },
    /// Dependencies are installed.
    Dependencies { retry: Option<String> },
}

/// The contents of a [`RunState`].
pub enum RunStateView {
    Venv { retry: Option<Seq<char>>, downloads: bool },
    Dependencies { retry: Option<Seq<char>> },
}

impl View for RunState {
    type V = RunStateView;

    open spec fn view(&self) -> RunStateView {
        match self {
            RunState::Venv { retry, downloads } => RunStateView::Venv {
                retry: crate::text::optional_text(*retry),
                downloads: *downloads,
            },
            RunState::Dependencies { retry } => RunStateView::Dependencies {
                retry: crate::text::optional_text(*retry),
            },
        }
    }
}

/// How an installation failed.
#[derive(Debug, PartialEq, Eq)]
pub enum InstallFailure {
    /// The environment could not be created.
    Venv { retry: Option<String>, cause: VenvFailure },
    /// Dependencies could not be installed.
    Dependencies { retry: Option<String>, error: Error },
    /// The interpreter could not be asked.
    Info(PythonInfoError),
}

/// The contents of an [`InstallFailure`].
pub enum InstallFailureView {
    Venv { retry: Option<Seq<char>>, cause: VenvFailure },
    Dependencies { retry: Option<Seq<char>>, error: Error },
    Info(PythonInfoError),
}

impl View for InstallFailure {
    type V = InstallFailureView;

    open spec fn view(&self) -> InstallFailureView {
        match self {
            InstallFailure::Venv { retry, cause } => InstallFailureView::Venv {
                retry: crate::text::optional_text(*retry),
                cause: *cause,
            },
            InstallFailure::Dependencies { retry, error } => InstallFailureView::Dependencies {
                retry: crate::text::optional_text(*retry),
                error: *error,
            },
            InstallFailure::Info(error) => InstallFailureView::Info(*error),
        }
    }
}

impl InstallFailureView {
    /// What was being done when it failed. Where dependencies fail in the first
    /// round, their own error says enough.
    pub open spec fn context(self) -> Option<Seq<char>> {
        match self {
            InstallFailureView::Venv { retry: None, .. } => Some(
                "Failed to create Python virtual environment"@,
            ),
            InstallFailureView::Venv { retry: Some(request), .. } => Some(
                "Failed to recreate Python virtual environment with inferred Python constraint `"@
                    + request + "`"@,
            ),
            InstallFailureView::Dependencies { retry: None, .. } => None,
            InstallFailureView::Dependencies { retry: Some(request), .. } => Some(
                "Retry with inferred Python constraint `"@ + request + "` failed"@,
            ),
            InstallFailureView::Info(_) => Some("Failed to query Python info"@),
        }
    }
}

/// What to do next.
#[derive(Debug, PartialEq, Eq)]
pub enum InstallStep {
    /// Run a command, and come back with how it went.
    Run { state: RunState, cmd: Cmd },
    /// Ask an interpreter for its version, and come back with the answer.
    Query { python: EnvPath },
    /// Give up.
    Fail(InstallFailure),
}

/// The contents of an [`InstallStep`].
pub enum InstallStepView {
    Run { state: RunStateView, cmd: crate::process::CmdView },
    Query { python: crate::paths::EnvPathView },
    Fail(InstallFailureView),
}

impl View for InstallStep {
    type V = InstallStepView;

    open spec fn view(&self) -> InstallStepView {
        match self {
            InstallStep::Run { state, cmd } => InstallStepView::Run { state: state@, cmd: cmd@ },
            InstallStep::Query { python } => InstallStepView::Query { python: python@ },
            InstallStep::Fail(failure) => InstallStepView::Fail(failure@),
        }
    }
}

/// What the environment is made with: the constraint of the second round, or what
/// the hook asks for.
pub open spec fn round_request(plan: HookInstall, retry: Option<Seq<char>>) -> Option<Seq<char>> {
    match retry {
        Some(request) => Some(request),
        None => crate::python::uv_request(plan.language_request),
    }
}

/// The creation of the environment, from scratch in the second round.
pub open spec fn venv_run(
    plan: HookInstall,
    retry: Option<Seq<char>>,
    downloads: bool,
) -> InstallStepView {
    InstallStepView::Run {
        state: RunStateView::Venv { retry, downloads },
        cmd: crate::python::venv_attempt(
            plan.uv,
            plan.store,
            plan.env_path@,
            round_request(plan, retry),
            downloads,
            retry is Some,
        ),
    }
}

/// The question to the interpreter of the environment.
pub open spec fn query_step(plan: HookInstall) -> InstallStepView {
    InstallStepView::Query {
        python: crate::python::interpreter(
            crate::paths::directory(plan.env_path@),
            plan.windows,
            plan.exe_extension@,
        ),
    }
}

/// The installation of dependencies, where there are any.
pub open spec fn dependencies_step(plan: HookInstall, retry: Option<Seq<char>>) -> InstallStepView {
    match crate::python::dependencies_command(
        plan.uv,
        plan.store,
        plan.env_path@,
        crate::text::optional_text(plan.repo_path),
        crate::text::texts(plan.additional_dependencies@),
    ) {
        Some(cmd) => InstallStepView::Run { state: RunStateView::Dependencies { retry }, cmd },
        None => query_step(plan),
    }
}

/// The constraint to retry with after dependencies failed, where one can be
/// inferred and the hook's request leaves room for it.
pub open spec fn retry_after(plan: HookInstall, error: Error) -> Option<Seq<char>> {
    match crate::process::captured_text(error) {
        Some(stderr) => crate::inferred_retry::request_from(
            plan.language_request,
            crate::inferred_retry::inferred_constraint(crate::inferred_retry::mentions_in(stderr)),
        ),
        None => None,
    }
}

/// What follows when dependencies could not be installed: the second round, with
/// the constraint to retry with, where this is the first round and there is one.
pub open spec fn failed_dependencies_step(
    plan: HookInstall,
    retry: Option<Seq<char>>,
    error: Error,
    request: Option<Seq<char>>,
) -> InstallStepView {
    match (retry, request) {
        (None, Some(request)) => venv_run(plan, Some(request), false),
        _ => InstallStepView::Fail(InstallFailureView::Dependencies { retry, error }),
    }
}

/// What follows when a command has ended.
pub open spec fn next_step(
    plan: HookInstall,
    state: RunStateView,
    result: Result<(), Error>,
) -> InstallStepView {
    match (state, result) {
        (RunStateView::Venv { retry, .. }, Ok(_)) => dependencies_step(plan, retry),
        (RunStateView::Venv { retry, downloads }, Err(error)) => if downloads
            || !crate::python::offers_download(error) {
            InstallStepView::Fail(
                InstallFailureView::Venv { retry, cause: VenvFailure::Command(error) },
            )
        } else if !plan.allows_download {
            InstallStepView::Fail(
                InstallFailureView::Venv { retry, cause: VenvFailure::DownloadsDisabled },
            )
        } else {
            venv_run(plan, retry, true)
        },
        (RunStateView::Dependencies { .. }, Ok(_)) => query_step(plan),
        (RunStateView::Dependencies { retry }, Err(error)) => failed_dependencies_step(
            plan,
            retry,
            error,
            retry_after(plan, error),
        ),
    }
}

/// A slice of an optional string.
fn optional_slice(text: &Option<String>) -> (r: Option<&str>)
    ensures
        crate::python::optional_str(r) == crate::text::optional_text(*text),
{
    match text {
        Some(s) => Some(s.as_str()),
        None => None,
    }
}

impl VenvFailure {
    /// The failure in words, where it is not that of a command.
    pub fn message(&self) -> (r: Option<String>)
        ensures
            (match self {
                VenvFailure::DownloadsDisabled => r matches Some(message) && message@
                    == "No suitable system Python version found and downloads are disabled"@,
                VenvFailure::Command(_) => r is None,
            }),
    {
        match self {
            VenvFailure::DownloadsDisabled => Some(
                "No suitable system Python version found and downloads are disabled".to_owned(),
            ),
            VenvFailure::Command(_) => None,
        }
    }
}

impl InstallFailure {
    /// What was being done when it failed.
    pub fn context(&self) -> (r: Option<String>)
        ensures
            crate::text::optional_text(r) == self@.context(),
    {
        match self {
            InstallFailure::Venv { retry, .. } => match retry {
                Some(request) => {
                    let mut text: String = joined(
                        "Failed to recreate Python virtual environment with inferred Python constraint `",
                        request.as_str(),
                    );
                    text.append("`");
                    Some(text)
                },
                None => Some("Failed to create Python virtual environment".to_owned()),
            },
            InstallFailure::Dependencies { retry, .. } => match retry {
                Some(request) => {
                    let mut text: String = joined(
                        "Retry with inferred Python constraint `",
                        request.as_str(),
                    );
                    text.append("` failed");
                    Some(text)
                },
                None => None,
            },
            InstallFailure::Info(_) => Some("Failed to query Python info".to_owned()),
        }
    }
}

impl HookInstall {
    /// The creation of the environment.
    fn run_venv(&self, retry: Option<String>, downloads: bool) -> (r: InstallStep)
        requires
            !(self.language_request is Other),
        ensures
            r@ == venv_run(*self, crate::text::optional_text(retry), downloads),
    {
        let asked: Option<String> = to_uv_python_request(&self.language_request);
        let python: Option<&str> = match &retry {
            Some(request) => Some(request.as_str()),
            None => optional_slice(&asked),
        };
        let cmd: Cmd = Python::create_venv_attempt(
            &self.uv,
            &self.store,
            self.env_path.as_str(),
            python,
            downloads,
            retry.is_some(),
        );
        InstallStep::Run { state: RunState::Venv { retry, downloads }, cmd }
    }

    /// The question to the interpreter of the environment.
    fn query(&self) -> (r: InstallStep)
        ensures
            r@ == query_step(*self),
    {
        let env: EnvPath = EnvPath::new(self.env_path.as_str());
        InstallStep::Query { python: python_exec(&env, self.windows, self.exe_extension.as_str()) }
    }

    /// The installation of dependencies, where there are any.
    fn run_dependencies(&self, retry: Option<String>) -> (r: InstallStep)
        ensures
            r@ == dependencies_step(*self, crate::text::optional_text(retry)),
    {
        match Python::install_dependencies(
            &self.uv,
            &self.store,
            self.env_path.as_str(),
            optional_slice(&self.repo_path),
            &self.additional_dependencies,
        ) {
            Some(cmd) => InstallStep::Run { state: RunState::Dependencies { retry }, cmd },
            None => self.query(),
        }
    }

    /// The first step. The request is not one for another language.
    pub fn start(&self) -> (r: InstallStep)
        requires
            !(self.language_request is Other),
        ensures
            r@ == venv_run(*self, None, false),
    {
        self.run_venv(None, false)
    }

    /// The constraint to retry with after dependencies failed.
    pub fn retry_request(&self, error: &Error) -> (r: Option<String>)
        ensures
            crate::text::optional_text(r) == retry_after(*self, *error),
    {
        let inferred: InferredRetryConstraint = match infer_retry_constraint_from_error(error) {
            Some(inferred) => inferred,
            None => {
                return None;
            },
        };
        retry_request_for_language_request(&self.language_request, &inferred)
    }

    /// What follows when dependencies could not be installed. `request` is the
    /// constraint to retry with. The hook's own request is not one for another
    /// language.
    pub fn after_failed_dependencies(
        &self,
        retry: Option<String>,
        error: Error,
        request: Option<String>,
    ) -> (r: InstallStep)
        requires
            !(self.language_request is Other),
        ensures
            r@ == failed_dependencies_step(
                *self,
                crate::text::optional_text(retry),
                error,
                crate::text::optional_text(request),
            ),
    {
        if retry.is_none() {
            match request {
                Some(request) => {
                    return self.run_venv(Some(request), false);
                },
                None => {},
            }
        }
        InstallStep::Fail(InstallFailure::Dependencies { retry, error })
    }

    /// What follows when a command has ended. The request is not one for another
    /// language.
    pub fn after_run(&self, state: RunState, result: Result<(), Error>) -> (r: InstallStep)
        requires
            !(self.language_request is Other),
        ensures
            r@ == next_step(*self, state@, result),
    {
        match state {
            RunState::Venv { retry, downloads } => {
                if downloads {
                    return match result {
                        Ok(_) => self.run_dependencies(retry),
                        Err(error) => InstallStep::Fail(
                            InstallFailure::Venv { retry, cause: VenvFailure::Command(error) },
                        ),
                    };
                }
                let asked: Option<String> = to_uv_python_request(&self.language_request);
                let python: Option<&str> = match &retry {
                    Some(request) => Some(request.as_str()),
                    None => optional_slice(&asked),
                };
                match Python::create_venv_with_python(
                    &self.uv,
                    &self.store,
                    self.env_path.as_str(),
                    python,
                    self.allows_download,
                    retry.is_some(),
                    result,
                ) {
                    VenvStep::Created => self.run_dependencies(retry),
                    VenvStep::Retry(cmd) => InstallStep::Run {
                        state: RunState::Venv { retry, downloads: true },
                        cmd,
                    },
                    VenvStep::Failed(cause) => InstallStep::Fail(
                        InstallFailure::Venv { retry, cause },
                    ),
                }
            },
            RunState::Dependencies { retry } => match result {
                Ok(_) => self.query(),
                Err(error) => {
                    let request: Option<String> = if retry.is_none() {
                        self.retry_request(&error)
                    } else {
                        None
                    };
                    self.after_failed_dependencies(retry, error, request)
                },
            },
        }
    }

    /// What the interpreter of the environment said.
    pub fn after_query(result: Result<PythonInfo, PythonInfoError>) -> (r: Result<
        PythonInfo,
        InstallFailure,
    >)
        ensures
            r is Ok <==> result is Ok,
            r matches Ok(info) ==> info == result->Ok_0,
            r matches Err(failure) ==> failure == InstallFailure::Info(result->Err_0),
    {
        match result {
            Ok(info) => Ok(info),
            Err(error) => Err(InstallFailure::Info(error)),
        }
    }
}

} // verus!
