//! From a resolution to what is to be done: the process to launch for
//! `run`, the report to print for `find`, and the exit code to end with.
//!
//! Nothing is launched here. The launch plan names the program, its
//! arguments and the directory to start it in; the caller starts it, waits
//! for it, and ends with `exit_code` of what it got back.

use vstd::prelude::*;
use crate::error::{Error, ErrorView};
use crate::paths::{
    ancestors_of, config_path_of, join, join_of, lemma_config_file_lies_in_its_directory, parent,
    parent_of, tidy,
};
use crate::record::{text_of, texts_of, CommandView};
use crate::resolver::{
    lemma_nearest_definition_wins, lemma_walk_directories, passes, probe_of, resolution_view, walk_of,
    Located, LocatedView,
};
use crate::store::ProbeView;

verus! {

/// A process to launch.
#[derive(Debug, PartialEq, Eq)]
pub struct Launch {
    /// Executable name or path, handed over as it stands: no shell reads it.
    pub program: String,
    /// The whole argument vector.
    pub args: Vec<String>,
    /// The directory to start the process in. Where there is none, the
    /// process starts where the caller is.
    pub working_dir: Option<String>,
}

/// A launch as plain text.
pub struct LaunchView {
    pub program: Seq<char>,
    pub args: Seq<Seq<char>>,
    pub working_dir: Option<Seq<char>>,
}

impl View for Launch {
    type V = LaunchView;

    open spec fn view(&self) -> LaunchView {
        LaunchView {
            program: self.program@,
            args: texts_of(self.args@),
            working_dir: text_of(self.working_dir),
        }
    }
}

/// The directory a command runs in: its record's `working_dir` read from
/// the directory of the configuration file that defines it, or none where
/// the record names none.
pub open spec fn working_dir_of(defining_dir: Seq<char>, command: CommandView) -> Option<Seq<char>> {
    match command.working_dir {
        Some(rel) => Some(join_of(defining_dir, rel)),
        None => None,
    }
}

/// The launch of a located command with `extra` arguments: the record's
/// own arguments first, then the extra ones, each list in its order. It
/// fails where the configuration file's path names no directory.
pub open spec fn launch_of(found: LocatedView, extra: Seq<Seq<char>>) -> Result<LaunchView, ErrorView> {
    match parent_of(found.config_path) {
        Some(dir) => Ok(
            LaunchView {
                program: found.command.command,
                args: found.command.args + extra,
                working_dir: working_dir_of(dir, found.command),
            },
        ),
        None => Err(ErrorView::NoDirectory(found.config_path)),
    }
}

/// What `run` does at the end of a resolution: launch what was found, or
/// fail as the resolution did, or fail because the name is not defined.
pub open spec fn run_of(
    name: Seq<char>,
    resolution: Result<Option<LocatedView>, ErrorView>,
    extra: Seq<Seq<char>>,
) -> Result<LaunchView, ErrorView> {
    match resolution {
        Ok(Some(found)) => launch_of(found, extra),
        Ok(None) => Err(ErrorView::NotFound(name)),
        Err(e) => Err(e),
    }
}

/// What `find` reports at the end of a resolution.
pub open spec fn find_of(name: Seq<char>, resolution: Result<Option<LocatedView>, ErrorView>) -> Result<
    LocatedView,
    ErrorView,
> {
    match resolution {
        Ok(Some(found)) => Ok(found),
        Ok(None) => Err(ErrorView::NotFound(name)),
        Err(e) => Err(e),
    }
}

/// A launch plan or a failure, as plain values.
pub open spec fn plan_view(r: Result<Launch, Error>) -> Result<LaunchView, ErrorView> {
    match r {
        Ok(launch) => Ok(launch@),
        Err(e) => Err(e@),
    }
}

/// A report or a failure, as plain values.
pub open spec fn report_view(r: Result<Located, Error>) -> Result<LocatedView, ErrorView> {
    match r {
        Ok(found) => Ok(found@),
        Err(e) => Err(e@),
    }
}

/// Plans the launch of a located command with `extra_args`.
pub fn launch(found: Located, extra_args: Vec<String>) -> (plan: Result<Launch, Error>)
    ensures
        plan_view(plan) == launch_of(found@, texts_of(extra_args@)),
{
    let Located { command, config_path } = found;
    match parent(config_path.as_str()) {
        Some(dir) => {
            let working_dir = match &command.working_dir {
                Some(rel) => Some(join(dir.as_str(), rel.as_str())),
                None => None,
            };
            let mut args = command.args;
            let mut extra = extra_args;
            let ghost fixed = args@;
            args.append(&mut extra);
            assert(texts_of(args@) =~= texts_of(fixed) + texts_of(extra_args@));
            Ok(Launch { program: command.command, args, working_dir })
        },
        None => Err(Error::NoDirectory(config_path)),
    }
}

/// Decides what `run` does with the end of the resolution of `name`.
pub fn run(name: &str, resolution: Result<Option<Located>, Error>, extra_args: Vec<String>) -> (plan:
    Result<Launch, Error>)
    ensures
        plan_view(plan) == run_of(name@, resolution_view(resolution), texts_of(extra_args@)),
{
    match resolution {
        Ok(Some(found)) => launch(found, extra_args),
        Ok(None) => Err(Error::NotFound(name.to_owned())),
        Err(e) => Err(e),
    }
}

/// Decides what `find` reports at the end of the resolution of `name`.
pub fn find(name: &str, resolution: Result<Option<Located>, Error>) -> (report: Result<
    Located,
    Error,
>)
    ensures
        report_view(report) == find_of(name@, resolution_view(resolution)),
{
    match resolution {
        Ok(Some(found)) => Ok(found),
        Ok(None) => Err(Error::NotFound(name.to_owned())),
        Err(e) => Err(e),
    }
}

/// The exit code this process adopts once the launched command has ended:
/// the child's own code, or `0` when it ended without one, as it does when
/// a signal ends it.
pub open spec fn exit_code_of(child: Option<i32>) -> i32 {
    match child {
        Some(code) => code,
        None => 0i32,
    }
}

/// The exit code this process adopts once the launched command has ended.
pub fn exit_code(child: Option<i32>) -> (code: i32)
    ensures
        code == exit_code_of(child),
{
    match child {
        Some(c) => c,
        None => 0,
    }
}

/// An exit status or the reason why there is none, as plain values.
pub open spec fn launched_view(launched: Result<Option<i32>, String>) -> Result<
    Option<i32>,
    Seq<char>,
> {
    match launched {
        Ok(status) => Ok(status),
        Err(cause) => Err(cause@),
    }
}

/// An exit code or a failure, as plain values.
pub open spec fn end_view(end: Result<i32, Error>) -> Result<i32, ErrorView> {
    match end {
        Ok(code) => Ok(code),
        Err(e) => Err(e@),
    }
}

/// How the invocation ends once the launch has been tried: with the exit
/// code of the command that ran, or with a failure where it could not be
/// started.
pub open spec fn conclude_of(launched: Result<Option<i32>, Seq<char>>) -> Result<i32, ErrorView> {
    match launched {
        Ok(status) => Ok(exit_code_of(status)),
        Err(cause) => Err(ErrorView::Launch(cause)),
    }
}

/// Decides how the invocation ends, given the exit status of the command
/// that ran, or the reason why it could not be started.
pub fn conclude(launched: Result<Option<i32>, String>) -> (end: Result<i32, Error>)
    ensures
        end_view(end) == conclude_of(launched_view(launched)),
{
    match launched {
        Ok(status) => Ok(exit_code(status)),
        Err(cause) => Err(Error::Launch(cause)),
    }
}

/// Extra arguments follow the fixed ones: every launch hands over the
/// record's own arguments first and the extra ones after them, each list
/// whole and in its order.
pub proof fn lemma_extra_args_follow(found: LocatedView, extra: Seq<Seq<char>>)
    requires
        launch_of(found, extra) is Ok,
    ensures
        launch_of(found, extra)->Ok_0.args.len() == found.command.args.len() + extra.len(),
        forall|i: int|
            0 <= i < found.command.args.len() ==> launch_of(found, extra)->Ok_0.args[i]
                == found.command.args[i],
        forall|i: int|
            0 <= i < extra.len() ==> launch_of(found, extra)->Ok_0.args[found.command.args.len() + i]
                == extra[i],
{
}

/// A command runs where its definition says, not where it is invoked: a
/// record defined in the configuration file of a tidy directory `dir`
/// launches in its `working_dir` read from `dir`, and in no directory of
/// its own where it names none.
pub proof fn lemma_working_dir_is_rebased(dir: Seq<char>, command: CommandView, extra: Seq<Seq<char>>)
    requires
        tidy(dir),
    ensures
        launch_of(LocatedView { command, config_path: config_path_of(dir) }, extra) is Ok,
        launch_of(LocatedView { command, config_path: config_path_of(dir) }, extra)->Ok_0.working_dir
            == match command.working_dir {
            Some(rel) => Some(join_of(dir, rel)),
            None => None,
        },
{
    lemma_config_file_lies_in_its_directory(dir);
}

/// Where a command is invoked decides which definition is found, and
/// nothing else: a walk from a tidy directory that goes past its first `k`
/// directories and finds the name defined in the next one launches that
/// record with the extra arguments after its own, in the record's
/// `working_dir` read from the directory of the definition.
pub proof fn lemma_runs_where_defined(
    name: Seq<char>,
    start: Seq<char>,
    fallback: Option<Seq<char>>,
    fs: Map<Seq<char>, ProbeView>,
    k: int,
    extra: Seq<Seq<char>>,
)
    requires
        tidy(start),
        0 <= k < ancestors_of(start).len(),
        forall|j: int| 0 <= j < k ==> passes(name, #[trigger] ancestors_of(start)[j], fs),
        probe_of(fs, config_path_of(ancestors_of(start)[k])) is Loaded,
        probe_of(fs, config_path_of(ancestors_of(start)[k]))->Loaded_0.contains_key(name),
    ensures
        run_of(name, walk_of(name, start, fallback, fs), extra) == Ok::<LaunchView, ErrorView>(
            LaunchView {
                program: probe_of(fs, config_path_of(ancestors_of(start)[k]))->Loaded_0[name].command,
                args: probe_of(fs, config_path_of(ancestors_of(start)[k]))->Loaded_0[name].args
                    + extra,
                working_dir: working_dir_of(
                    ancestors_of(start)[k],
                    probe_of(fs, config_path_of(ancestors_of(start)[k]))->Loaded_0[name],
                ),
            },
        ),
{
    lemma_nearest_definition_wins(name, start, fallback, fs, k);
    lemma_walk_directories(start, k);
}

} // verus!
