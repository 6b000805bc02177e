//! What holds of the commands that build an environment, of the order they run in
//! and of what hooks leave.

use vstd::prelude::*;

use crate::install::{
    HookInstall, InstallFailure, InstallFailureView, InstallStep, InstallStepView, RunState,
    RunStateView,
};
use crate::paths::EnvPath;
use crate::process::{Cmd, CmdView, Error};
use crate::python::{PythonInfoError, VenvFailure};
use crate::request::LanguageRequest;
use crate::store::Store;
use crate::uv::Uv;

verus! {

/// Whether a command removes a variable from its environment.
pub open spec fn removes(cmd: CmdView, key: Seq<char>) -> bool {
    cmd.envs.contains_key(key) && cmd.envs[key] is None
}

/// Whether a command removes every variable by which `uv` could be made to take
/// another interpreter.
pub open spec fn removes_overrides(cmd: CmdView) -> bool {
    &&& removes(cmd, crate::env_vars::UV_PYTHON@)
    &&& removes(cmd, crate::env_vars::UV_SYSTEM_PYTHON@)
    &&& removes(cmd, crate::env_vars::UV_MANAGED_PYTHON@)
    &&& removes(cmd, crate::env_vars::UV_NO_MANAGED_PYTHON@)
}

/// The names of the variables that are set differ from those that are removed.
proof fn lemma_names_differ()
    ensures
        crate::env_vars::UV_PYTHON_INSTALL_DIR@ != crate::env_vars::UV_PYTHON@,
        crate::env_vars::UV_PYTHON_INSTALL_DIR@ != crate::env_vars::UV_SYSTEM_PYTHON@,
        crate::env_vars::UV_PYTHON_INSTALL_DIR@ != crate::env_vars::UV_MANAGED_PYTHON@,
        crate::env_vars::UV_PYTHON_INSTALL_DIR@ != crate::env_vars::UV_NO_MANAGED_PYTHON@,
{
    reveal_strlit("UV_PYTHON_INSTALL_DIR");
    reveal_strlit("UV_PYTHON");
    reveal_strlit("UV_SYSTEM_PYTHON");
    reveal_strlit("UV_MANAGED_PYTHON");
    reveal_strlit("UV_NO_MANAGED_PYTHON");
    assert("UV_PYTHON_INSTALL_DIR"@.len() == 21);
    assert("UV_PYTHON"@.len() == 9);
    assert("UV_SYSTEM_PYTHON"@.len() == 16);
    assert("UV_MANAGED_PYTHON"@.len() == 17);
    assert("UV_NO_MANAGED_PYTHON"@.len() == 20);
}

/// Every command that creates an environment or installs packages in it removes
/// the variables by which `uv` could be made to take another interpreter.
pub proof fn commands_remove_interpreter_overrides(
    uv: Uv,
    store: Store,
    env_path: Seq<char>,
    python_request: Option<Seq<char>>,
    set_install_dir: bool,
    allow_downloads: bool,
    clear: bool,
    repo_path: Option<Seq<char>>,
    additional_dependencies: Seq<Seq<char>>,
)
    ensures
        removes_overrides(
            crate::python::create_venv(
                uv,
                store,
                env_path,
                python_request,
                set_install_dir,
                allow_downloads,
                clear,
            ),
        ),
        removes_overrides(crate::python::pip_install(uv, store, env_path)),
        crate::python::dependencies_command(
            uv,
            store,
            env_path,
            repo_path,
            additional_dependencies,
        ) matches Some(cmd) ==> removes_overrides(cmd),
{
    lemma_names_differ();
}

/// Every command that an installation runs removes those variables.
pub proof fn installation_removes_interpreter_overrides(
    plan: HookInstall,
    state: RunStateView,
    result: Result<(), Error>,
)
    ensures
        crate::install::venv_run(plan, None, false) matches InstallStepView::Run { cmd, .. }
            && removes_overrides(cmd),
        crate::install::next_step(plan, state, result) matches InstallStepView::Run { cmd, .. }
            ==> removes_overrides(cmd),
{
    lemma_names_differ();
}

/// How many commands may follow at most, this one included.
pub open spec fn commands_left(state: RunStateView) -> nat {
    match state {
        RunStateView::Venv { retry: None, downloads: false } => 6,
        RunStateView::Venv { retry: None, downloads: true } => 5,
        RunStateView::Dependencies { retry: None } => 4,
        RunStateView::Venv { retry: Some(_), downloads: false } => 3,
        RunStateView::Venv { retry: Some(_), downloads: true } => 2,
        RunStateView::Dependencies { retry: Some(_) } => 1,
    }
}

/// An installation ends: with every command, fewer are left, and none after at
/// most six.
pub proof fn installation_ends(plan: HookInstall, state: RunStateView, result: Result<(), Error>)
    ensures
        crate::install::next_step(plan, state, result) matches InstallStepView::Run {
            state: next,
            ..
        } ==> 0 < commands_left(next) < commands_left(state),
{
}

/// The round that a state belongs to.
pub open spec fn round(state: RunStateView) -> Option<Seq<char>> {
    match state {
        RunStateView::Venv { retry, .. } => retry,
        RunStateView::Dependencies { retry } => retry,
    }
}

/// There is one retry at most: the second round is never left for another, and it
/// is entered only when dependencies fail in the first, with the constraint that
/// their failure gives.
pub proof fn dependencies_are_retried_once(
    plan: HookInstall,
    state: RunStateView,
    result: Result<(), Error>,
)
    ensures
        crate::install::next_step(plan, state, result) matches InstallStepView::Run {
            state: next,
            ..
        } ==> {
            ||| round(next) == round(state)
            ||| {
                &&& round(state) is None
                &&& state is Dependencies
                &&& result is Err
                &&& round(next) is Some
                &&& round(next) == crate::install::retry_after(plan, result->Err_0)
                &&& next == (RunStateView::Venv { retry: round(next), downloads: false })
            }
        },
{
}

/// Dependencies that fail in the first round with one mention of the versions that
/// a package asks for are retried with the constraint that this mention makes,
/// where the hook's request leaves room for it.
pub proof fn an_explained_failure_is_retried(
    plan: HookInstall,
    error: Error,
    op: Seq<char>,
    number: Seq<char>,
)
    requires
        crate::process::captured_text(error) is Some,
        crate::retry_laws::mentions_alone(crate::process::captured_text(error)->0, op, number),
    ensures
        crate::install::next_step(plan, RunStateView::Dependencies { retry: None }, Err(error))
            == crate::install::failed_dependencies_step(
            plan,
            None,
            error,
            crate::inferred_retry::request_from(
                plan.language_request,
                crate::inferred_retry::inferred_constraint(seq![(op, number)]),
            ),
        ),
{
    crate::retry_laws::a_lone_mention_is_found(
        crate::process::captured_text(error)->0,
        op,
        number,
    );
}

/// Dependencies that fail without such a mention, or without output that was
/// captured, are not retried: their own error is returned.
pub proof fn an_unexplained_failure_is_returned(plan: HookInstall, error: Error)
    requires
        crate::process::captured_text(error) matches Some(stderr) ==> forall|at: int|
            !#[trigger] crate::inferred_retry::mentioned_at(stderr, at),
    ensures
        crate::install::next_step(plan, RunStateView::Dependencies { retry: None }, Err(error))
            == InstallStepView::Fail(InstallFailureView::Dependencies { retry: None, error }),
{
    if crate::process::captured_text(error) is Some {
        crate::retry_laws::nothing_is_inferred_without_a_mention(
            crate::process::captured_text(error)->0,
        );
    }
}

/// The second round makes the environment from scratch, with the constraint.
pub proof fn the_retry_recreates_the_environment(
    plan: HookInstall,
    request: Seq<char>,
    downloads: bool,
)
    ensures
        crate::install::venv_run(plan, Some(request), downloads) matches InstallStepView::Run {
            cmd,
            ..
        } && cmd.args.contains("--clear"@) && cmd.args.len() >= 2 && cmd.args[cmd.args.len() - 2]
            == "--python"@ && cmd.args.last() == request,
{
    let args = crate::python::venv_args(plan.env_path@, Some(request), downloads, true);
    assert(args[7] == "--clear"@);
    assert(args.len() == 11);
    assert(args[9] == "--python"@);
    assert(args[10] == request);
}

/// A hook that takes only what is installed is never retried.
pub proof fn system_only_hooks_have_one_round(plan: HookInstall, error: Error)
    requires
        plan.language_request == (LanguageRequest::Any { system_only: true }),
    ensures
        crate::install::retry_after(plan, error) is None,
{
}

/// Interpreters are downloaded only where that is allowed and `uv` offers it, and
/// only after an attempt without.
pub proof fn downloads_need_permission(
    plan: HookInstall,
    state: RunStateView,
    result: Result<(), Error>,
)
    ensures
        crate::install::next_step(plan, state, result) matches InstallStepView::Run {
            state: RunStateView::Venv { retry, downloads: true },
            ..
        } ==> {
            &&& plan.allows_download
            &&& state == (RunStateView::Venv { retry, downloads: false })
            &&& result matches Err(error) && crate::python::offers_download(error)
        },
{
}

/// A hook without a repository and without packages needs no installation: its
/// interpreter is asked at once.
pub proof fn hooks_without_dependencies_install_nothing(
    plan: HookInstall,
    retry: Option<Seq<char>>,
    downloads: bool,
)
    requires
        plan.repo_path is None,
        plan.additional_dependencies@.len() == 0,
    ensures
        crate::install::next_step(
            plan,
            RunStateView::Venv { retry, downloads },
            Ok(()),
        ) is Query,
{
}

/// The combined status is zero exactly where that of every batch is.
pub proof fn a_hook_succeeds_where_every_batch_does(results: Seq<(i32, Vec<u8>)>)
    ensures
        crate::python::combined_status(results) == 0 <==> forall|i: int|
            0 <= i < results.len() ==> (#[trigger] results[i]).0 == 0,
    decreases results.len(),
{
    if results.len() > 0 {
        let before = results.drop_last();
        a_hook_succeeds_where_every_batch_does(before);
        let left = crate::python::combined_status(before);
        let right = results.last().0;
        assert((left | right) == 0i32 <==> left == 0i32 && right == 0i32) by (bit_vector);
        assert(results.last() == results[results.len() - 1]);
        assert forall|i: int| 0 <= i < before.len() implies #[trigger] before[i] == results[i] by {}
        if forall|i: int| 0 <= i < results.len() ==> (#[trigger] results[i]).0 == 0 {
            assert forall|i: int| 0 <= i < before.len() implies (#[trigger] before[i]).0 == 0 by {
                assert(results[i].0 == 0);
            }
        }
        if left == 0 && right == 0 {
            assert forall|i: int| 0 <= i < results.len() implies (#[trigger] results[i]).0
                == 0 by {
                if i < before.len() {
                    assert(before[i].0 == 0);
                }
            }
        }
    }
}

/// Batches can be taken together in any grouping: the status and the output of
/// two runs, one after the other, are those of all their batches.
pub proof fn batches_combine_in_order(first: Seq<(i32, Vec<u8>)>, second: Seq<(i32, Vec<u8>)>)
    ensures
        crate::python::combined_status(first + second) == crate::python::combined_status(first)
            | crate::python::combined_status(second),
        crate::python::combined_output(first + second) == crate::python::combined_output(first)
            + crate::python::combined_output(second),
    decreases second.len(),
{
    let a = crate::python::combined_status(first);
    if second.len() == 0 {
        assert(first + second == first);
        assert(a | 0i32 == a) by (bit_vector);
        assert(crate::python::combined_output(first) + Seq::<u8>::empty()
            == crate::python::combined_output(first));
    } else {
        batches_combine_in_order(first, second.drop_last());
        assert((first + second).drop_last() == first + second.drop_last());
        assert((first + second).last() == second.last());
        let b = crate::python::combined_status(second.drop_last());
        let c = second.last().0;
        assert((a | b) | c == a | (b | c)) by (bit_vector);
        assert(crate::python::combined_output(first + second) == crate::python::combined_output(
            first,
        ) + crate::python::combined_output(second));
    }
}

/// A first attempt is made for what the hook asks for, without downloads and
/// without clearing anything.
pub proof fn an_installation_starts_with_what_the_hook_asks_for(plan: HookInstall)
    ensures
        crate::install::venv_run(plan, None, false) == (InstallStepView::Run {
            state: RunStateView::Venv { retry: None, downloads: false },
            cmd: crate::python::venv_attempt(
                plan.uv,
                plan.store,
                plan.env_path@,
                crate::python::uv_request(plan.language_request),
                false,
                false,
            ),
        }),
{
}

/// Wherever the environment is created, without or with downloads and in either
/// round, what the hook depends on is installed next, in the same round: the
/// command names the repository, if there is one, and all the packages. Where
/// there is nothing to install, the interpreter is asked.
pub proof fn created_environments_get_their_dependencies(
    plan: HookInstall,
    retry: Option<Seq<char>>,
    downloads: bool,
)
    ensures
        ({
            let step = crate::install::next_step(
                plan,
                RunStateView::Venv { retry, downloads },
                Ok(()),
            );
            let packages = plan.additional_dependencies@;
            &&& step is Run <==> plan.repo_path is Some || packages.len() > 0
            &&& step is Query <==> plan.repo_path is None && packages.len() == 0
            &&& step matches InstallStepView::Run { state, cmd } ==> {
                let n = cmd.args.len() as int;
                &&& state == (RunStateView::Dependencies { retry })
                &&& cmd.args[0] == "pip"@ && cmd.args[1] == "install"@
                &&& plan.repo_path is None ==> n == 4 + packages.len()
                &&& plan.repo_path matches Some(repo) ==> n == 7 + packages.len() && cmd.args[4]
                    == "--directory"@ && cmd.args[5] == repo@ && cmd.args[6] == "."@
                &&& forall|i: int|
                    0 <= i < packages.len() ==> cmd.args[n - packages.len() + i]
                        == (#[trigger] packages[i])@
                &&& Some(cmd) == crate::python::dependencies_command(
                    plan.uv,
                    plan.store,
                    plan.env_path@,
                    crate::text::optional_text(plan.repo_path),
                    crate::text::texts(packages),
                )
            }
        }),
{
    let packages = plan.additional_dependencies@;
    crate::text_laws::strings_are_shown_as_they_are(packages, plan.env_path);
    crate::command_laws::all_dependencies_are_named(
        plan.uv,
        plan.store,
        plan.env_path@,
        crate::text::optional_text(plan.repo_path),
        crate::text::texts(packages),
    );
    let step = crate::install::next_step(plan, RunStateView::Venv { retry, downloads }, Ok(()));
    if let InstallStepView::Run { cmd, .. } = step {
        assert forall|i: int| 0 <= i < packages.len() implies cmd.args[cmd.args.len()
            - packages.len() + i] == (#[trigger] packages[i])@ by {
            assert(crate::text::texts(packages)[i] == packages[i]@);
        }
    }
}

/// The interpreter is asked only when everything is in place: after dependencies
/// were installed, or after the environment was created where there are none. It
/// is that of the environment.
pub proof fn the_interpreter_is_asked_last(
    plan: HookInstall,
    state: RunStateView,
    result: Result<(), Error>,
)
    ensures
        ({
            let step = crate::install::next_step(plan, state, result);
            &&& step is Query <==> result is Ok && (state is Dependencies || plan.repo_path is None
                && plan.additional_dependencies@.len() == 0)
            &&& step matches InstallStepView::Query { python } ==> {
                &&& python.base == plan.env_path@
                &&& python.names.len() == 2
                &&& python.names[0] == if plan.windows {
                    "Scripts"@
                } else {
                    "bin"@
                }
                &&& plan.exe_extension@.len() == 0 ==> python.names[1] == "python"@
                &&& plan.exe_extension@.len() > 0 ==> python.names[1] == "python"@ + seq!['.']
                    + plan.exe_extension@
            }
        }),
{
    assert(crate::text::texts(plan.additional_dependencies@).len()
        == plan.additional_dependencies@.len());
}

/// Where the creation fails, it is repeated with downloads, in the same round and
/// for the same Python, exactly where that was not tried yet, `uv` offers it and it
/// is allowed. Otherwise the installation fails, with the error of the command
/// unless an offer could not be taken.
pub proof fn failed_creations_are_repeated_or_reported(
    plan: HookInstall,
    retry: Option<Seq<char>>,
    downloads: bool,
    error: Error,
)
    ensures
        ({
            let step = crate::install::next_step(
                plan,
                RunStateView::Venv { retry, downloads },
                Err(error),
            );
            let offered = !downloads && crate::python::offers_download(error);
            &&& offered && plan.allows_download ==> step == (InstallStepView::Run {
                state: RunStateView::Venv { retry, downloads: true },
                cmd: crate::python::venv_attempt(
                    plan.uv,
                    plan.store,
                    plan.env_path@,
                    if retry is Some {
                        retry
                    } else {
                        crate::python::uv_request(plan.language_request)
                    },
                    true,
                    retry is Some,
                ),
            })
            &&& offered && !plan.allows_download ==> step == InstallStepView::Fail(
                InstallFailureView::Venv { retry, cause: VenvFailure::DownloadsDisabled },
            )
            &&& !offered ==> step == InstallStepView::Fail(
                InstallFailureView::Venv { retry, cause: VenvFailure::Command(error) },
            )
        }),
{
}

/// Where dependencies fail in the first round and a constraint follows from that,
/// the environment is made again with it, without downloads at first. Without one,
/// and in the second round, the installation fails with their error.
pub proof fn failed_dependencies_are_retried_or_reported(
    plan: HookInstall,
    retry: Option<Seq<char>>,
    error: Error,
)
    ensures
        ({
            let step = crate::install::next_step(
                plan,
                RunStateView::Dependencies { retry },
                Err(error),
            );
            let request = crate::install::retry_after(plan, error);
            &&& retry is None && request is Some ==> step == (InstallStepView::Run {
                state: RunStateView::Venv { retry: request, downloads: false },
                cmd: crate::python::venv_attempt(
                    plan.uv,
                    plan.store,
                    plan.env_path@,
                    request,
                    false,
                    true,
                ),
            })
            &&& retry is Some || request is None ==> step == InstallStepView::Fail(
                InstallFailureView::Dependencies { retry, error },
            )
        }),
{
}

/// A given constraint is retried with in the first round, and in no other.
pub proof fn a_given_constraint_is_taken_in_the_first_round(
    plan: HookInstall,
    retry: Option<Seq<char>>,
    error: Error,
    request: Option<Seq<char>>,
)
    ensures
        ({
            let step = crate::install::failed_dependencies_step(plan, retry, error, request);
            &&& step is Run <==> retry is None && request is Some
            &&& step is Run ==> step == (InstallStepView::Run {
                state: RunStateView::Venv { retry: request, downloads: false },
                cmd: crate::python::venv_attempt(
                    plan.uv,
                    plan.store,
                    plan.env_path@,
                    request,
                    false,
                    true,
                ),
            })
            &&& !(step is Run) ==> step == InstallStepView::Fail(
                InstallFailureView::Dependencies { retry, error },
            )
        }),
{
}

/// The constraint to retry with is what the hook's request leaves of the one that
/// all mentions in the captured output make; without either there is none.
pub proof fn the_captured_output_decides_the_retry(plan: HookInstall, error: Error)
    ensures
        crate::process::captured_text(error) is None ==> crate::install::retry_after(plan, error)
            is None,
        crate::process::captured_text(error) matches Some(text) ==> ({
            let inferred = crate::inferred_retry::inferred_constraint(
                crate::inferred_retry::mentions_in(text),
            );
            &&& inferred is None ==> crate::install::retry_after(plan, error) is None
            &&& inferred is Some ==> crate::install::retry_after(plan, error)
                == crate::inferred_retry::retry_request(plan.language_request, inferred->0)
        }),
{
}

/// A failure is reported with what was being done: the round by its constraint, and
/// nothing where dependencies fail in the first.
pub proof fn failures_say_what_was_being_done(
    request: Seq<char>,
    cause: VenvFailure,
    error: Error,
    info: PythonInfoError,
)
    ensures
        (InstallFailureView::Venv { retry: None, cause }).context() == Some(
            "Failed to create Python virtual environment"@,
        ),
        (InstallFailureView::Venv { retry: Some(request), cause }).context() == Some(
            "Failed to recreate Python virtual environment with inferred Python constraint `"@
                + request + "`"@,
        ),
        (InstallFailureView::Dependencies { retry: None, error }).context() is None,
        (InstallFailureView::Dependencies { retry: Some(request), error }).context() == Some(
            "Retry with inferred Python constraint `"@ + request + "` failed"@,
        ),
        InstallFailureView::Info(info).context() == Some("Failed to query Python info"@),
{
}

/// States, steps and failures are shown as they are.
pub proof fn steps_are_shown_as_they_are(
    retry: Option<String>,
    downloads: bool,
    state: RunState,
    cmd: Cmd,
    python: EnvPath,
    failure: InstallFailure,
    cause: VenvFailure,
    error: Error,
    info: PythonInfoError,
)
    ensures
        ({
            let shown = match retry {
                Some(request) => Some(request@),
                None => None,
            };
            &&& (RunState::Venv { retry, downloads })@ == (RunStateView::Venv {
                retry: shown,
                downloads,
            })
            &&& (RunState::Dependencies { retry })@ == (RunStateView::Dependencies { retry: shown })
            &&& (InstallFailure::Venv { retry, cause })@ == (InstallFailureView::Venv {
                retry: shown,
                cause,
            })
            &&& (InstallFailure::Dependencies { retry, error })@ == (
            InstallFailureView::Dependencies { retry: shown, error })
            &&& InstallFailure::Info(info)@ == InstallFailureView::Info(info)
        }),
        (InstallStep::Run { state, cmd })@ == (InstallStepView::Run { state: state@, cmd: cmd@ }),
        (InstallStep::Query { python })@ == (InstallStepView::Query { python: python@ }),
        InstallStep::Fail(failure)@ == InstallStepView::Fail(failure@),
{
}

} // verus!
