//! What holds of every command that is built: its program, its arguments in their
//! order, and what it does to the environment.

use vstd::prelude::*;

use crate::paths::EnvPathView;
use crate::process::{Cmd, CmdView, EnvChange, Error, Output, StatusError};
use crate::python::{VenvFailure, VenvStepView};
use crate::request::{LanguageRequest, PythonRequest};
use crate::store::Store;
use crate::uv::Uv;
use crate::version::{Release, VersionReq};

verus! {

/// The names of the variables that commands change, which are all different.
proof fn lemma_variable_names()
    ensures
        crate::env_vars::PATH@ == "PATH"@,
        crate::env_vars::PYTHONHOME@ == "PYTHONHOME"@,
        crate::env_vars::VIRTUAL_ENV@ == "VIRTUAL_ENV"@,
        crate::env_vars::UV_CACHE_DIR@ == "UV_CACHE_DIR"@,
        crate::env_vars::UV_PYTHON@ == "UV_PYTHON"@,
        crate::env_vars::UV_SYSTEM_PYTHON@ == "UV_SYSTEM_PYTHON"@,
        crate::env_vars::UV_MANAGED_PYTHON@ == "UV_MANAGED_PYTHON"@,
        crate::env_vars::UV_NO_MANAGED_PYTHON@ == "UV_NO_MANAGED_PYTHON"@,
        crate::env_vars::UV_PYTHON_INSTALL_DIR@ == "UV_PYTHON_INSTALL_DIR"@,
        "PATH"@.len() == 4,
        "UV_PYTHON"@.len() == 9,
        "PYTHONHOME"@.len() == 10,
        "VIRTUAL_ENV"@.len() == 11,
        "UV_CACHE_DIR"@.len() == 12,
        "UV_SYSTEM_PYTHON"@.len() == 16,
        "UV_MANAGED_PYTHON"@.len() == 17,
        "UV_NO_MANAGED_PYTHON"@.len() == 20,
        "UV_PYTHON_INSTALL_DIR"@.len() == 21,
{
    reveal_strlit("PATH");
    reveal_strlit("PYTHONHOME");
    reveal_strlit("VIRTUAL_ENV");
    reveal_strlit("UV_CACHE_DIR");
    reveal_strlit("UV_PYTHON");
    reveal_strlit("UV_SYSTEM_PYTHON");
    reveal_strlit("UV_MANAGED_PYTHON");
    reveal_strlit("UV_NO_MANAGED_PYTHON");
    reveal_strlit("UV_PYTHON_INSTALL_DIR");
}

/// A command is shown as it is: nothing that it holds is left out.
pub proof fn commands_are_shown_as_they_are(cmd: Cmd)
    ensures
        cmd@.program == cmd.program@,
        cmd@.summary == cmd.summary@,
        cmd@.args.len() == cmd.args@.len(),
        forall|i: int| 0 <= i < cmd.args@.len() ==> #[trigger] cmd@.args[i] == cmd.args@[i]@,
        cmd@.without_git_envs == cmd.without_git_envs,
        cmd@.current_dir == match cmd.current_dir {
            Some(dir) => Some(dir@),
            None => None,
        },
        cmd@.check == cmd.check,
        cmd@.null_stdin == cmd.null_stdin,
{
}

/// A path is shown as it is.
pub proof fn paths_are_shown_as_they_are(path: crate::paths::EnvPath)
    ensures
        path@.base == path.base@,
        path@.names.len() == path.names@.len(),
        forall|i: int| 0 <= i < path.names@.len() ==> #[trigger] path@.names[i] == path.names@[i]@,
{
}

/// Of two changes to a variable the later one counts, and a change to one variable
/// is none to another.
pub proof fn later_changes_replace_earlier_ones(
    changes: Seq<EnvChange>,
    change: EnvChange,
    key: Seq<char>,
)
    ensures
        crate::process::env_changes(Seq::empty()).dom() == Set::<Seq<char>>::empty(),
        ({
            let before = crate::process::env_changes(changes);
            let after = crate::process::env_changes(changes.push(change));
            &&& after.contains_key(change.key@)
            &&& after[change.key@] == match change.value {
                Some(value) => Some(value@),
                None => None,
            }
            &&& key != change.key@ ==> (after.contains_key(key) <==> before.contains_key(key))
            &&& key != change.key@ && before.contains_key(key) ==> after[key] == before[key]
        }),
{
    assert(changes.push(change).drop_last() == changes);
}

/// Variables that are set together are all set, the last value of each; no other
/// variable is touched.
pub proof fn the_last_value_of_a_variable_counts(
    envs: Map<Seq<char>, Option<Seq<char>>>,
    vars: Seq<(String, String)>,
    key: Seq<char>,
)
    ensures
        ({
            let after = crate::process::with_variables(envs, vars);
            &&& forall|i: int|
                0 <= i < vars.len() && (#[trigger] vars[i]).0@ == key && (forall|j: int|
                    i < j < vars.len() ==> (#[trigger] vars[j]).0@ != key) ==> after.contains_key(
                    key,
                ) && after[key] == Some(vars[i].1@)
            &&& (forall|i: int| 0 <= i < vars.len() ==> (#[trigger] vars[i]).0@ != key) ==> (
            after.contains_key(key) <==> envs.contains_key(key)) && (envs.contains_key(key)
                ==> after[key] == envs[key])
        }),
    decreases vars.len(),
{
    if vars.len() > 0 {
        let before = vars.drop_last();
        the_last_value_of_a_variable_counts(envs, before, key);
        let after = crate::process::with_variables(envs, vars);
        assert forall|i: int|
            0 <= i < vars.len() && (#[trigger] vars[i]).0@ == key && (forall|j: int|
                i < j < vars.len() ==> (#[trigger] vars[j]).0@ != key) implies after.contains_key(
            key,
        ) && after[key] == Some(vars[i].1@) by {
            if i < before.len() {
                assert(before[i] == vars[i]);
                assert(vars[vars.len() - 1].0@ != key);
                assert forall|j: int| i < j < before.len() implies (#[trigger] before[j]).0@
                    != key by {
                    assert(before[j] == vars[j]);
                }
            }
        }
        if forall|i: int| 0 <= i < vars.len() ==> (#[trigger] vars[i]).0@ != key {
            assert(vars[vars.len() - 1].0@ != key);
            assert forall|i: int| 0 <= i < before.len() implies (#[trigger] before[i]).0@
                != key by {
                assert(before[i] == vars[i]);
            }
        }
    }
}

/// What a failed command wrote to its standard error is read as it was written,
/// whatever it wrote elsewhere; nothing is read of a command that was not captured
/// or did not run.
pub proof fn captured_text_is_that_of_the_standard_error(
    stdout: Vec<u8>,
    stderr: Vec<u8>,
    message: String,
)
    ensures
        vstd::utf8::valid_utf8(stderr@) ==> crate::process::captured_text(
            Error::Status { error: StatusError { output: Some(Output { stdout, stderr }) } },
        ) == Some(vstd::utf8::decode_utf8(stderr@)),
        !vstd::utf8::valid_utf8(stderr@) ==> crate::process::captured_text(
            Error::Status { error: StatusError { output: Some(Output { stdout, stderr }) } },
        ) == Some(crate::process::repaired_text(stderr@)),
        crate::process::captured_text(Error::Status { error: StatusError { output: None } })
            is None,
        crate::process::captured_text(Error::Other { message }) is None,
{
}

/// `uv` is said to offer a download exactly where those words stand in what it
/// wrote.
pub proof fn downloads_are_offered_in_these_words(error: Error)
    ensures
        crate::python::offers_download(error) <==> exists|before: Seq<char>, after: Seq<char>|
            crate::process::captured_text(error) == Some(
                #[trigger] (before + "A managed Python download is available"@ + after),
            ),
{
    let words = "A managed Python download is available"@;
    if crate::process::captured_text(error) is Some {
        let text = crate::process::captured_text(error)->0;
        crate::text_laws::a_text_occurs_where_others_surround_it(words, text);
        if crate::python::offers_download(error) {
            let (before, after) = choose|before: Seq<char>, after: Seq<char>|
                text == #[trigger] (before + words + after);
            assert(crate::process::captured_text(error) == Some(before + words + after));
        }
        if exists|before: Seq<char>, after: Seq<char>|
            crate::process::captured_text(error) == Some(#[trigger] (before + words + after)) {
            let (before, after) = choose|before: Seq<char>, after: Seq<char>|
                crate::process::captured_text(error) == Some(#[trigger] (before + words + after));
            assert(text == before + words + after);
        }
    }
}

/// A new command runs its program without arguments, in the environment and the
/// directory as they are, with the standard input that is there.
pub proof fn new_commands_change_nothing(
    program: EnvPathView,
    summary: Seq<char>,
    key: Seq<char>,
)
    ensures
        ({
            let cmd = crate::process::bare_command(program, summary);
            &&& cmd.program == program
            &&& cmd.summary == summary
            &&& cmd.args.len() == 0
            &&& !cmd.envs.contains_key(key)
            &&& !cmd.without_git_envs
            &&& cmd.current_dir is None
            &&& cmd.check is None
            &&& !cmd.null_stdin
        }),
{
}

/// A command that runs `uv` runs that binary, without arguments at first, and
/// with the cache of the store as its only change.
pub proof fn commands_of_uv_run_it_with_its_cache(
    path: EnvPathView,
    summary: Seq<char>,
    store: Store,
    key: Seq<char>,
)
    ensures
        ({
            let cmd = crate::uv::uv_command(path, summary, store);
            &&& cmd.program == path
            &&& cmd.summary == summary
            &&& cmd.args.len() == 0
            &&& cmd.envs.contains_key(key) <==> key == "UV_CACHE_DIR"@
            &&& cmd.envs["UV_CACHE_DIR"@] == Some(store.uv_cache@)
            &&& !cmd.without_git_envs
            &&& cmd.current_dir is None
            &&& cmd.check is None
            &&& !cmd.null_stdin
        }),
{
    lemma_variable_names();
}

/// The command that creates an environment names `uv`, the environment, whether it
/// is made from scratch, whether interpreters may be downloaded, and last the
/// Python that is asked for, in every combination of these.
pub proof fn environments_are_created_as_asked(
    uv: Uv,
    store: Store,
    env_path: Seq<char>,
    python_request: Option<Seq<char>>,
    set_install_dir: bool,
    allow_downloads: bool,
    clear: bool,
)
    ensures
        ({
            let cmd = crate::python::create_venv(
                uv,
                store,
                env_path,
                python_request,
                set_install_dir,
                allow_downloads,
                clear,
            );
            let n = cmd.args.len() as int;
            let flag = if clear {
                8int
            } else {
                7
            };
            &&& cmd.program == uv.path@
            &&& cmd.summary == "create venv"@
            &&& cmd.args[0] == "venv"@
            &&& cmd.args[1] == env_path
            &&& cmd.args[2] == "--python-preference"@
            &&& cmd.args[3] == "managed"@
            &&& cmd.args[4] == "--no-project"@
            &&& cmd.args[5] == "--project"@
            &&& cmd.args[6] == "/"@
            &&& clear ==> cmd.args[7] == "--clear"@
            &&& allow_downloads ==> cmd.args[flag] == "--allow-python-downloads"@
            &&& !allow_downloads ==> cmd.args[flag] == "--no-python-downloads"@
            &&& python_request is None ==> n == flag + 1
            &&& python_request matches Some(python) ==> {
                &&& n == flag + 3
                &&& cmd.args[n - 2] == "--python"@
                &&& cmd.args[n - 1] == python
            }
        }),
{
}

/// `--python` is among the arguments that create an environment only where a
/// Python is asked for, and `--clear` only where it is made from scratch.
pub proof fn nothing_else_is_asked_of_an_environment(
    uv: Uv,
    store: Store,
    env_path: Seq<char>,
    python_request: Option<Seq<char>>,
    set_install_dir: bool,
    allow_downloads: bool,
    clear: bool,
    i: int,
)
    requires
        env_path != "--python"@,
        env_path != "--clear"@,
        python_request != Some("--python"@),
        python_request != Some("--clear"@),
    ensures
        ({
            let args = crate::python::create_venv(
                uv,
                store,
                env_path,
                python_request,
                set_install_dir,
                allow_downloads,
                clear,
            ).args;
            &&& 0 <= i < args.len() && args[i] == "--python"@ ==> python_request is Some && i
                == args.len() - 2
            &&& 0 <= i < args.len() && args[i] == "--clear"@ ==> clear && i == 7
        }),
{
    reveal_strlit("--python");
    reveal_strlit("--clear");
    reveal_strlit("venv");
    reveal_strlit("--python-preference");
    reveal_strlit("managed");
    reveal_strlit("--no-project");
    reveal_strlit("--project");
    reveal_strlit("/");
    reveal_strlit("--allow-python-downloads");
    reveal_strlit("--no-python-downloads");
    assert("--project"@.len() == 9);
    assert("--python"@.len() == 8);
    assert("--clear"@.len() == 7);
    assert("managed"@[0] == 'm' && "--clear"@[0] == '-');
}

/// The command that creates an environment sets the cache, and where it is told to
/// the directory of interpreters, removes the interpreter overrides, and changes
/// nothing else.
pub proof fn environments_are_created_without_overrides(
    uv: Uv,
    store: Store,
    env_path: Seq<char>,
    python_request: Option<Seq<char>>,
    set_install_dir: bool,
    allow_downloads: bool,
    clear: bool,
    key: Seq<char>,
)
    ensures
        ({
            let cmd = crate::python::create_venv(
                uv,
                store,
                env_path,
                python_request,
                set_install_dir,
                allow_downloads,
                clear,
            );
            &&& cmd.envs.contains_key(key) <==> {
                ||| key == "UV_CACHE_DIR"@
                ||| key == "UV_PYTHON"@
                ||| key == "UV_SYSTEM_PYTHON"@
                ||| key == "UV_MANAGED_PYTHON"@
                ||| key == "UV_NO_MANAGED_PYTHON"@
                ||| set_install_dir && key == "UV_PYTHON_INSTALL_DIR"@
            }
            &&& cmd.envs["UV_CACHE_DIR"@] == Some(store.uv_cache@)
            &&& cmd.envs["UV_PYTHON"@] is None
            &&& cmd.envs["UV_SYSTEM_PYTHON"@] is None
            &&& cmd.envs["UV_MANAGED_PYTHON"@] is None
            &&& cmd.envs["UV_NO_MANAGED_PYTHON"@] is None
            &&& set_install_dir ==> cmd.envs["UV_PYTHON_INSTALL_DIR"@] == Some(store.python_tools@)
            &&& !cmd.without_git_envs
            &&& cmd.current_dir is None
            &&& cmd.check is None
            &&& !cmd.null_stdin
        }),
{
    lemma_variable_names();
}

/// An attempt to create an environment is that command, with a failing status as an
/// error. With downloads, interpreters go to the directory of the store; without,
/// none is downloaded.
pub proof fn attempts_differ_in_downloads_alone(
    uv: Uv,
    store: Store,
    env_path: Seq<char>,
    python_request: Option<Seq<char>>,
    downloads: bool,
    clear: bool,
)
    ensures
        ({
            let attempt = crate::python::venv_attempt(
                uv,
                store,
                env_path,
                python_request,
                downloads,
                clear,
            );
            let cmd = crate::python::create_venv(
                uv,
                store,
                env_path,
                python_request,
                downloads,
                downloads,
                clear,
            );
            &&& attempt.check == Some(true)
            &&& attempt.program == cmd.program
            &&& attempt.summary == cmd.summary
            &&& attempt.args == cmd.args
            &&& attempt.envs == cmd.envs
            &&& attempt.without_git_envs == cmd.without_git_envs
            &&& attempt.current_dir == cmd.current_dir
            &&& attempt.null_stdin == cmd.null_stdin
        }),
{
}

/// After the first attempt the environment is there where it succeeded; where it
/// failed there is a second attempt, for the same environment and the same Python,
/// exactly where `uv` offers a download and downloads are allowed; and the failure
/// is that of the command, unless a download was offered in vain.
pub proof fn a_failed_attempt_is_repeated_where_a_download_is_offered(
    uv: Uv,
    store: Store,
    env_path: Seq<char>,
    python_request: Option<Seq<char>>,
    allows_download: bool,
    clear: bool,
    error: Error,
)
    ensures
        crate::python::after_first_attempt(
            uv,
            store,
            env_path,
            python_request,
            allows_download,
            clear,
            Ok(()),
        ) is Created,
        ({
            let step = crate::python::after_first_attempt(
                uv,
                store,
                env_path,
                python_request,
                allows_download,
                clear,
                Err(error),
            );
            &&& step is Retry <==> crate::python::offers_download(error) && allows_download
            &&& step matches VenvStepView::Retry(cmd) ==> cmd == crate::python::venv_attempt(
                uv,
                store,
                env_path,
                python_request,
                true,
                clear,
            )
            &&& !crate::python::offers_download(error) ==> step == VenvStepView::Failed(
                VenvFailure::Command(error),
            )
            &&& crate::python::offers_download(error) && !allows_download ==> step
                == VenvStepView::Failed(VenvFailure::DownloadsDisabled)
        }),
{
}

/// Packages are installed by `uv pip install`, into the environment, and there is
/// a command for it exactly where there is something to install. It names the
/// repository, if there is one, then all packages in their order, and nothing
/// else.
pub proof fn all_dependencies_are_named(
    uv: Uv,
    store: Store,
    env_path: Seq<char>,
    repo_path: Option<Seq<char>>,
    packages: Seq<Seq<char>>,
)
    ensures
        ({
            let found = crate::python::dependencies_command(
                uv,
                store,
                env_path,
                repo_path,
                packages,
            );
            &&& found is Some <==> repo_path is Some || packages.len() > 0
            &&& found matches Some(cmd) ==> {
                let n = cmd.args.len() as int;
                &&& cmd.program == uv.path@
                &&& cmd.summary == "uv pip"@
                &&& cmd.args[0] == "pip"@
                &&& cmd.args[1] == "install"@
                &&& cmd.args[2] == "--project"@
                &&& cmd.args[3] == "/"@
                &&& repo_path is None ==> n == 4 + packages.len()
                &&& repo_path matches Some(repo) ==> n == 7 + packages.len() && cmd.args[4]
                    == "--directory"@ && cmd.args[5] == repo && cmd.args[6] == "."@
                &&& forall|i: int|
                    0 <= i < packages.len() ==> cmd.args[n - packages.len() + i]
                        == #[trigger] packages[i]
            }
        }),
{
}

/// Packages go into the environment: it is the active one, the interpreter
/// overrides and the variables of `git` are removed, nothing else is changed, and a
/// failing status is an error.
pub proof fn packages_go_into_the_environment(
    uv: Uv,
    store: Store,
    env_path: Seq<char>,
    repo_path: Option<Seq<char>>,
    packages: Seq<Seq<char>>,
    key: Seq<char>,
)
    ensures
        ({
            let base = crate::python::pip_install(uv, store, env_path);
            &&& base.program == uv.path@
            &&& base.summary == "uv pip"@
            &&& base.args.len() == 4
            &&& base.args[0] == "pip"@ && base.args[1] == "install"@ && base.args[2]
                == "--project"@ && base.args[3] == "/"@
            &&& base.envs.contains_key(key) <==> {
                ||| key == "UV_CACHE_DIR"@
                ||| key == "VIRTUAL_ENV"@
                ||| key == "UV_PYTHON"@
                ||| key == "UV_SYSTEM_PYTHON"@
                ||| key == "UV_MANAGED_PYTHON"@
                ||| key == "UV_NO_MANAGED_PYTHON"@
            }
            &&& base.envs["UV_CACHE_DIR"@] == Some(store.uv_cache@)
            &&& base.envs["VIRTUAL_ENV"@] == Some(env_path)
            &&& base.envs["UV_PYTHON"@] is None
            &&& base.envs["UV_SYSTEM_PYTHON"@] is None
            &&& base.envs["UV_MANAGED_PYTHON"@] is None
            &&& base.envs["UV_NO_MANAGED_PYTHON"@] is None
            &&& base.without_git_envs
            &&& base.current_dir is None
            &&& base.check == Some(true)
            &&& !base.null_stdin
            &&& crate::python::dependencies_command(uv, store, env_path, repo_path, packages)
                matches Some(cmd) ==> {
                &&& cmd.envs == base.envs
                &&& cmd.without_git_envs
                &&& cmd.current_dir is None
                &&& cmd.check == Some(true)
                &&& !cmd.null_stdin
            }
        }),
{
    lemma_variable_names();
}

/// The command that runs a hook runs the program of its entry. Its arguments are
/// the rest of the entry, then the arguments of the hook, then the files, each in
/// their order, and nothing else.
pub proof fn hooks_get_all_their_files(
    entry: Seq<Seq<char>>,
    work_dir: Seq<char>,
    env_dir: Seq<char>,
    path: Seq<char>,
    hook_env: Seq<(String, String)>,
    hook_args: Seq<Seq<char>>,
    filenames: Seq<Seq<char>>,
)
    requires
        entry.len() > 0,
    ensures
        ({
            let cmd = crate::python::hook_run(
                entry,
                work_dir,
                env_dir,
                path,
                hook_env,
                hook_args,
                filenames,
            );
            let n = cmd.args.len() as int;
            &&& cmd.program.base == entry[0]
            &&& cmd.program.names.len() == 0
            &&& cmd.summary == "python hook"@
            &&& n == entry.len() - 1 + hook_args.len() + filenames.len()
            &&& forall|i: int|
                0 <= i < filenames.len() ==> cmd.args[n - filenames.len() + i]
                    == #[trigger] filenames[i]
            &&& forall|i: int|
                0 <= i < hook_args.len() ==> cmd.args[entry.len() - 1 + i]
                    == #[trigger] hook_args[i]
            &&& forall|i: int|
                1 <= i < entry.len() ==> cmd.args[i - 1] == #[trigger] entry[i]
            &&& cmd.current_dir == Some(work_dir)
            &&& cmd.check == Some(false)
            &&& cmd.null_stdin
            &&& !cmd.without_git_envs
        }),
{
}

/// A hook runs inside its environment: that is the active one, its programs come
/// first, and `PYTHONHOME` is removed, unless the hook itself sets one of these.
/// What the hook sets is set, and nothing else is changed.
pub proof fn hooks_run_inside_their_environment(
    entry: Seq<Seq<char>>,
    work_dir: Seq<char>,
    env_dir: Seq<char>,
    path: Seq<char>,
    hook_env: Seq<(String, String)>,
    hook_args: Seq<Seq<char>>,
    filenames: Seq<Seq<char>>,
    key: Seq<char>,
)
    ensures
        ({
            let envs = crate::python::hook_run(
                entry,
                work_dir,
                env_dir,
                path,
                hook_env,
                hook_args,
                filenames,
            ).envs;
            &&& forall|i: int|
                0 <= i < hook_env.len() && (#[trigger] hook_env[i]).0@ == key && (forall|j: int|
                    i < j < hook_env.len() ==> (#[trigger] hook_env[j]).0@ != key)
                    ==> envs.contains_key(key) && envs[key] == Some(hook_env[i].1@)
            &&& (forall|i: int| 0 <= i < hook_env.len() ==> (#[trigger] hook_env[i]).0@ != key)
                ==> {
                &&& envs.contains_key(key) <==> key == "VIRTUAL_ENV"@ || key == "PATH"@ || key
                    == "PYTHONHOME"@
                &&& key == "VIRTUAL_ENV"@ ==> envs[key] == Some(env_dir)
                &&& key == "PATH"@ ==> envs[key] == Some(path)
                &&& key == "PYTHONHOME"@ ==> envs[key] is None
            }
        }),
{
    lemma_variable_names();
    the_last_value_of_a_variable_counts(
        Map::empty().insert("VIRTUAL_ENV"@, Some(env_dir)).insert("PATH"@, Some(path)).insert(
            "PYTHONHOME"@,
            None,
        ),
        hook_env,
        key,
    );
}

/// An interpreter is asked by running it, in isolation, with the program that
/// prints its version and its prefix, and with a failing status as an error.
pub proof fn interpreters_are_asked_in_isolation(python: EnvPathView, key: Seq<char>)
    ensures
        ({
            let cmd = crate::python::query_command(python);
            &&& cmd.program == python
            &&& cmd.summary == "python -c"@
            &&& cmd.args.len() == 3
            &&& cmd.args[0] == "-I"@
            &&& cmd.args[1] == "-c"@
            &&& cmd.args[2] == crate::python::QUERY_PYTHON_INFO@
            &&& !cmd.envs.contains_key(key)
            &&& !cmd.without_git_envs
            &&& cmd.current_dir is None
            &&& cmd.check == Some(true)
            &&& !cmd.null_stdin
        }),
{
}

/// The interpreter of an environment is `python`, with the extension of programs if
/// there is one, in the directory of programs, which is `bin`, or `Scripts` on
/// Windows.
pub proof fn interpreters_lie_in_the_directory_of_programs(
    venv: EnvPathView,
    windows: bool,
    exe_extension: Seq<char>,
)
    ensures
        ({
            let dir = crate::python::program_dir(venv, windows);
            let python = crate::python::interpreter(venv, windows, exe_extension);
            &&& dir.base == venv.base
            &&& dir.names.len() == venv.names.len() + 1
            &&& forall|i: int| 0 <= i < venv.names.len() ==> dir.names[i] == #[trigger] venv.names[i]
            &&& windows ==> dir.names.last() == "Scripts"@
            &&& !windows ==> dir.names.last() == "bin"@
            &&& python.base == venv.base
            &&& python.names.len() == venv.names.len() + 2
            &&& forall|i: int| 0 <= i < dir.names.len() ==> python.names[i] == #[trigger] dir.names[i]
            &&& exe_extension.len() == 0 ==> python.names.last() == "python"@
            &&& exe_extension.len() > 0 ==> python.names.last() == "python"@ + seq!['.']
                + exe_extension
        }),
{
}

/// A name that is joined to a path goes below it; a directory has nothing below
/// its base. A program has its extension behind a dot, if it has one.
pub proof fn names_go_below_a_path(
    path: EnvPathView,
    name: Seq<char>,
    base: Seq<char>,
    extension: Seq<char>,
)
    ensures
        path.join(name).base == path.base,
        path.join(name).names.len() == path.names.len() + 1,
        path.join(name).names.last() == name,
        forall|i: int|
            0 <= i < path.names.len() ==> path.join(name).names[i] == #[trigger] path.names[i],
        crate::paths::directory(base).base == base,
        crate::paths::directory(base).names.len() == 0,
        extension.len() == 0 ==> crate::paths::program_name(name, extension) == name,
        extension.len() > 0 ==> crate::paths::program_name(name, extension) == name + seq!['.']
            + extension,
{
}

/// `uv` is asked for what the hook asks for: as many numbers as it names, with dots
/// between them, or the range as it was written; and for nothing where any
/// interpreter will do.
pub proof fn uv_is_asked_for_what_the_hook_asks_for(
    major: u64,
    minor: u64,
    patch: u64,
    requirement: VersionReq,
    raw: String,
    system_only: bool,
)
    ensures
        crate::python::uv_request(LanguageRequest::Any { system_only }) is None,
        crate::python::uv_request(LanguageRequest::Python(PythonRequest::Any)) is None,
        crate::python::uv_request(LanguageRequest::Python(PythonRequest::Major(major))) == Some(
            crate::text::decimal(major as nat),
        ),
        crate::python::uv_request(LanguageRequest::Python(PythonRequest::MajorMinor(major, minor)))
            == Some(
            crate::text::decimal(major as nat) + seq!['.'] + crate::text::decimal(minor as nat),
        ),
        crate::python::uv_request(
            LanguageRequest::Python(PythonRequest::MajorMinorPatch(major, minor, patch)),
        ) == Some(
            crate::text::decimal(major as nat) + seq!['.'] + crate::text::decimal(minor as nat)
                + seq!['.'] + crate::text::decimal(patch as nat),
        ),
        crate::python::uv_request(LanguageRequest::Python(PythonRequest::Range(requirement, raw)))
            == Some(raw@),
{
    let first = crate::text::decimal(major as nat);
    let second = crate::text::decimal(minor as nat);
    let third = crate::text::decimal(patch as nat);
    assert(first.push('.') + second == first + seq!['.'] + second);
    assert(crate::version::release_text(Release { major, minor, patch }) == first + seq!['.']
        + second + seq!['.'] + third);
}

/// One batch alone has its own status and output, and no batch leaves nothing. A
/// batch that was killed counts as failed; its output is what it wrote, the
/// standard error last.
pub proof fn a_single_batch_is_the_whole(
    status: i32,
    output: Vec<u8>,
    code: Option<i32>,
    stdout: Seq<u8>,
    stderr: Seq<u8>,
)
    ensures
        crate::python::combined_status(seq![(status, output)]) == status,
        crate::python::combined_output(seq![(status, output)]) == output@,
        crate::python::combined_status(Seq::empty()) == 0,
        crate::python::combined_output(Seq::empty()) == Seq::<u8>::empty(),
        code matches Some(code) ==> crate::python::batch_outcome(Some(code), stdout, stderr).0
            == code,
        crate::python::batch_outcome(None, stdout, stderr).0 == 1,
        ({
            let all = crate::python::batch_outcome(code, stdout, stderr).1;
            &&& all.len() == stdout.len() + stderr.len()
            &&& all.take(stdout.len() as int) == stdout
            &&& all.skip(stdout.len() as int) == stderr
        }),
{
    reveal_with_fuel(crate::python::combined_status, 2);
    reveal_with_fuel(crate::python::combined_output, 2);
    let one = seq![(status, output)];
    assert(one.drop_last() == Seq::<(i32, Vec<u8>)>::empty());
    assert(0i32 | status == status) by (bit_vector);
    assert(Seq::<u8>::empty() + output@ == output@);
}

/// A step of the creation, and an optional command, are shown as they are.
pub proof fn attempts_are_shown_as_they_are(cmd: Cmd, failure: VenvFailure)
    ensures
        crate::python::VenvStep::Created@ is Created,
        crate::python::VenvStep::Retry(cmd)@ == VenvStepView::Retry(cmd@),
        crate::python::VenvStep::Failed(failure)@ == VenvStepView::Failed(failure),
        crate::python::optional_command(Some(cmd)) == Some(cmd@),
        crate::python::optional_command(None) is None,
{
}

/// An interpreter that could not be asked is reported with the cause.
pub proof fn failed_questions_name_their_cause(cause: String)
    ensures
        crate::python::PythonInfoError::Parse(cause).text() == "Failed to parse Python info JSON: "@
            + cause@,
        crate::python::PythonInfoError::Query(cause).text() == "Failed to query Python info: "@
            + cause@,
        crate::python::PythonInfoError::Message(cause).text() == cause@,
{
}

/// An optional text is shown as it is.
pub proof fn optional_texts_are_shown_as_they_are(text: &str)
    ensures
        crate::python::optional_str(Some(text)) == Some(text@),
        crate::python::optional_str(None) is None,
{
}

} // verus!
