//! Commands to run, and how a run can fail.

use vstd::prelude::*;

use crate::paths::EnvPath;
use crate::text::same;

verus! {

/// A change to the environment of a command: a variable is set, or removed.
#[derive(Debug, PartialEq, Eq)]
pub struct EnvChange {
    pub key: String,
    pub value: Option<String>,
}

/// A command to run.
#[derive(Debug, PartialEq, Eq)]
pub struct Cmd {
    pub program: EnvPath,
    /// What the command is called in messages.
    pub summary: String,
    pub args: Vec<String>,
    /// Changes to the environment. A later one replaces an earlier one.
    pub envs: Vec<EnvChange>,
    /// Whether the variables by which `git` names a repository are removed.
    pub without_git_envs: bool,
    pub current_dir: Option<String>,
    /// Whether a failing status is an error, where that was chosen.
    pub check: Option<bool>,
    /// Whether the standard input is empty. It is inherited otherwise.
    pub null_stdin: bool,
}

/// The contents of a [`Cmd`].
pub struct CmdView {
    pub program: crate::paths::EnvPathView,
    pub summary: Seq<char>,
    pub args: Seq<Seq<char>>,
    pub envs: Map<Seq<char>, Option<Seq<char>>>,
    pub without_git_envs: bool,
    pub current_dir: Option<Seq<char>>,
    pub check: Option<bool>,
    pub null_stdin: bool,
}

/// The variables that a list of changes sets, or removes.
pub open spec fn env_changes(changes: Seq<EnvChange>) -> Map<Seq<char>, Option<Seq<char>>>
    decreases changes.len(),
{
    if changes.len() == 0 {
        Map::empty()
    } else {
        env_changes(changes.drop_last()).insert(
            changes.last().key@,
            crate::text::optional_text(changes.last().value),
        )
    }
}

/// Environment changes, with variables set, one after the other.
pub open spec fn with_variables(
    envs: Map<Seq<char>, Option<Seq<char>>>,
    vars: Seq<(String, String)>,
) -> Map<Seq<char>, Option<Seq<char>>>
    decreases vars.len(),
{
    if vars.len() == 0 {
        envs
    } else {
        with_variables(envs, vars.drop_last()).insert(vars.last().0@, Some(vars.last().1@))
    }
}

impl View for Cmd {
    type V = CmdView;

    open spec fn view(&self) -> CmdView {
        CmdView {
            program: self.program@,
            summary: self.summary@,
            args: crate::text::texts(self.args@),
            envs: env_changes(self.envs@),
            without_git_envs: self.without_git_envs,
            current_dir: crate::text::optional_text(self.current_dir),
            check: self.check,
            null_stdin: self.null_stdin,
        }
    }
}

/// A command without arguments, in the environment as it is.
pub open spec fn bare_command(program: crate::paths::EnvPathView, summary: Seq<char>) -> CmdView {
    CmdView {
        program,
        summary,
        args: Seq::empty(),
        envs: Map::empty(),
        without_git_envs: false,
        current_dir: None,
        check: None,
        null_stdin: false,
    }
}

impl Cmd {
    /// A command without arguments, in the environment as it is.
    pub fn new(program: &EnvPath, summary: &str) -> (r: Cmd)
        ensures
            r@ == bare_command(program@, summary@),
    {
        let cmd: Cmd = Cmd {
            program: program.copy(),
            summary: summary.to_owned(),
            args: Vec::new(),
            envs: Vec::new(),
            without_git_envs: false,
            current_dir: None,
            check: None,
            null_stdin: false,
        };
        assert(crate::text::texts(cmd.args@) == Seq::<Seq<char>>::empty());
        assert(env_changes(cmd.envs@) == Map::<Seq<char>, Option<Seq<char>>>::empty());
        cmd
    }

    /// Adds an argument.
    pub fn arg(&mut self, arg: &str)
        ensures
            final(self)@ == (CmdView { args: old(self)@.args.push(arg@), ..old(self)@ }),
    {
        let ghost before = self.args@;
        self.args.push(arg.to_owned());
        assert(crate::text::texts(self.args@) == crate::text::texts(before).push(arg@));
    }

    /// Adds arguments.
    pub fn args(&mut self, args: &Vec<String>)
        ensures
            final(self)@ == (CmdView {
                args: old(self)@.args + crate::text::texts(args@),
                ..old(self)@
            }),
    {
        let ghost start = self@;
        let ghost all = crate::text::texts(args@);
        assert(start.args + all.take(0) == start.args);
        for i in 0..args.len()
            invariant
                all == crate::text::texts(args@),
                self@ == (CmdView { args: start.args + all.take(i as int), ..start }),
        {
            self.arg(args[i].as_str());
            assert(all.take(i + 1) == all.take(i as int).push(args@[i as int]@));
            assert(start.args + all.take(i + 1) == (start.args + all.take(i as int)).push(
                args@[i as int]@,
            ));
        }
        assert(all.take(all.len() as int) == all);
    }

    /// Sets a variable of the environment.
    pub fn env(&mut self, key: &str, value: &str)
        ensures
            final(self)@ == (CmdView {
                envs: old(self)@.envs.insert(key@, Some(value@)),
                ..old(self)@
            }),
    {
        let ghost before = self.envs@;
        self.envs.push(EnvChange { key: key.to_owned(), value: Some(value.to_owned()) });
        assert(self.envs@.drop_last() == before);
    }

    /// Sets variables of the environment, one after the other.
    pub fn envs(&mut self, vars: &Vec<(String, String)>)
        ensures
            final(self)@ == (CmdView {
                envs: with_variables(old(self)@.envs, vars@),
                ..old(self)@
            }),
    {
        let ghost start = self@;
        assert(with_variables(start.envs, vars@.take(0)) == start.envs);
        for i in 0..vars.len()
            invariant
                self@ == (CmdView {
                    envs: with_variables(start.envs, vars@.take(i as int)),
                    ..start
                }),
        {
            self.env(vars[i].0.as_str(), vars[i].1.as_str());
            assert(vars@.take(i + 1).drop_last() == vars@.take(i as int));
        }
        assert(vars@.take(vars@.len() as int) == vars@);
    }

    /// Removes a variable from the environment.
    pub fn env_remove(&mut self, key: &str)
        ensures
            final(self)@ == (CmdView { envs: old(self)@.envs.insert(key@, None), ..old(self)@ }),
    {
        let ghost before = self.envs@;
        self.envs.push(EnvChange { key: key.to_owned(), value: None });
        assert(self.envs@.drop_last() == before);
    }

    /// Removes the variables by which `git` names a repository.
    pub fn remove_git_envs(&mut self)
        ensures
            final(self)@ == (CmdView { without_git_envs: true, ..old(self)@ }),
    {
        self.without_git_envs = true;
    }

    /// Chooses the directory to run in.
    pub fn current_dir(&mut self, dir: &str)
        ensures
            final(self)@ == (CmdView { current_dir: Some(dir@), ..old(self)@ }),
    {
        self.current_dir = Some(dir.to_owned());
    }

    /// Chooses whether a failing status is an error.
    pub fn check(&mut self, check: bool)
        ensures
            final(self)@ == (CmdView { check: Some(check), ..old(self)@ }),
    {
        self.check = Some(check);
    }

    /// Leaves the standard input empty.
    pub fn stdin_null(&mut self)
        ensures
            final(self)@ == (CmdView { null_stdin: true, ..old(self)@ }),
    {
        self.null_stdin = true;
    }

    /// What happens to a variable of the environment: nothing, or it is set or
    /// removed.
    pub fn env_change(&self, key: &str) -> (r: Option<Option<String>>)
        ensures
            r is Some <==> self@.envs.contains_key(key@),
            r matches Some(value) ==> crate::text::optional_text(value) == self@.envs[key@],
    {
        let mut found: Option<Option<String>> = None;
        assert(self.envs@.take(0).len() == 0);
        for i in 0..self.envs.len()
            invariant
                found is Some <==> env_changes(self.envs@.take(i as int)).contains_key(key@),
                found matches Some(value) ==> crate::text::optional_text(value) == env_changes(
                    self.envs@.take(i as int),
                )[key@],
        {
            assert(self.envs@.take(i + 1).drop_last() == self.envs@.take(i as int));
            let change: &EnvChange = &self.envs[i];
            if same(change.key.as_str(), key) {
                found = Some(
                    match &change.value {
                        Some(value) => Some(value.clone()),
                        None => None,
                    },
                );
            }
        }
        assert(self.envs@.take(self.envs@.len() as int) == self.envs@);
        found
    }
}

/// What a command that ran to its end has left.
#[derive(Debug, PartialEq, Eq)]
pub struct Output {
    pub stdout: Vec<u8>,
    pub stderr: Vec<u8>,
}

/// A command ended with a failing status. Its output is there if it was captured.
#[derive(Debug, PartialEq, Eq)]
pub struct StatusError {
    pub output: Option<Output>,
}

/// Why a command failed.
#[derive(Debug, PartialEq, Eq)]
pub enum Error {
    /// It ended with a failing status.
    Status { error: StatusError },
    /// It could not be run or waited for.
    Other { message: String },
}

/// What a failed command wrote to its standard error, where that was captured.
pub open spec fn captured_stderr(error: Error) -> Option<Seq<u8>> {
    match error {
        Error::Status { error } => match error.output {
            Some(output) => Some(output.stderr@),
            None => None,
        },
        Error::Other { .. } => None,
    }
}

/// Bytes that are not UTF-8, read with replacement characters.
pub uninterp spec fn repaired_text(bytes: Seq<u8>) -> Seq<char>;

/// Bytes read as UTF-8. Each part that is none is replaced.
pub open spec fn lossy_text(bytes: Seq<u8>) -> Seq<char> {
    if vstd::utf8::valid_utf8(bytes) {
        vstd::utf8::decode_utf8(bytes)
    } else {
        repaired_text(bytes)
    }
}

/// The text of what a failed command wrote to its standard error, where that was
/// captured.
pub open spec fn captured_text(error: Error) -> Option<Seq<char>> {
    match captured_stderr(error) {
        Some(stderr) => Some(lossy_text(stderr)),
        None => None,
    }
}

/// Bytes read as UTF-8, by `String::from_utf8_lossy`. Bytes that encode a text
/// give that text; of others only the name of the result is stated, not which
/// parts are replaced.
#[verifier::external_body]
pub(crate) fn from_utf8_lossy(bytes: &[u8]) -> (r: String)
    ensures
        vstd::utf8::valid_utf8(bytes@) ==> r@ == vstd::utf8::decode_utf8(bytes@),
        !vstd::utf8::valid_utf8(bytes@) ==> r@ == repaired_text(bytes@),
{
    String::from_utf8_lossy(bytes).into_owned()
}

impl Error {
    /// The text of what a failed command wrote to its standard error.
    pub fn stderr_text(&self) -> (r: Option<String>)
        ensures
            crate::text::optional_text(r) == captured_text(*self),
    {
        match self {
            Error::Status { error } => match &error.output {
                Some(output) => Some(from_utf8_lossy(output.stderr.as_slice())),
                None => None,
            },
            Error::Other { .. } => None,
        }
    }
}

} // verus!
