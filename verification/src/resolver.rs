//! Resolution: which configuration file defines a name.
//!
//! The walk starts at a directory and goes up until a directory has no
//! parent. The first configuration file on the way that defines the name
//! settles the matter, and so does the first that is there but gives no
//! mapping: that one is a failure, and the walk does not look past it. Only
//! when the walk has passed every directory is the fallback file consulted.
//!
//! `Resolver` takes the walk one probe at a time, so that whoever reads the
//! files reads no more of them than the walk asks for. `find_command` runs it
//! against a table of files held in memory.

use vstd::prelude::*;
use crate::error::{Error, ErrorView};
use crate::names::same_text;
use crate::paths::{
    ancestors_of, config_path, config_path_of, lemma_config_file_lies_in_its_directory,
    lemma_parent_is_tidy, lemma_parent_shorter, parent, parent_of, tidy,
};
use crate::record::{copy_text, text_of, Command, CommandView};
use crate::store::{find_command_from_path, lookup_of, Probe, ProbeView};

verus! {

/// A command together with the configuration file that defines it.
#[derive(Debug, PartialEq, Eq)]
pub struct Located {
    pub command: Command,
    pub config_path: String,
}

/// A located command as plain values.
pub struct LocatedView {
    pub command: CommandView,
    pub config_path: Seq<char>,
}

impl View for Located {
    type V = LocatedView;

    open spec fn view(&self) -> LocatedView {
        LocatedView { command: self.command@, config_path: self.config_path@ }
    }
}

/// The end of a resolution as plain values: the command and where it is
/// defined, nothing where no file defines the name, or the failure that
/// stopped the walk.
pub open spec fn resolution_view(r: Result<Option<Located>, Error>) -> Result<
    Option<LocatedView>,
    ErrorView,
> {
    match r {
        Ok(Some(found)) => Ok(Some(found@)),
        Ok(None) => Ok(None),
        Err(e) => Err(e@),
    }
}

/// What reading `path` gives in the file system `fs`, which maps the paths
/// of the files that are there to what reading them gives.
pub open spec fn probe_of(fs: Map<Seq<char>, ProbeView>, path: Seq<char>) -> ProbeView {
    if fs.contains_key(path) {
        fs[path]
    } else {
        ProbeView::Missing
    }
}

/// What the file at `path` settles: the end of the resolution where it
/// defines the name or gives no mapping, and nothing where the search has
/// to go on.
pub open spec fn settle_of(name: Seq<char>, path: Seq<char>, probe: ProbeView) -> Option<
    Result<Option<LocatedView>, ErrorView>,
> {
    match lookup_of(name, path, probe) {
        Ok(Some(command)) => Some(Ok(Some(LocatedView { command, config_path: path }))),
        Ok(None) => None,
        Err(e) => Some(Err(e)),
    }
}

/// The end of a resolution that is left with the fallback file alone.
pub open spec fn last_resort_of(
    name: Seq<char>,
    fallback: Option<Seq<char>>,
    fs: Map<Seq<char>, ProbeView>,
) -> Result<Option<LocatedView>, ErrorView> {
    match fallback {
        Some(path) => match settle_of(name, path, probe_of(fs, path)) {
            Some(end) => end,
            None => Ok(None),
        },
        None => Ok(None),
    }
}

/// The end of the resolution of `name` that starts in the directory `dir`.
pub open spec fn walk_of(
    name: Seq<char>,
    dir: Seq<char>,
    fallback: Option<Seq<char>>,
    fs: Map<Seq<char>, ProbeView>,
) -> Result<Option<LocatedView>, ErrorView>
    decreases dir.len(),
{
    match settle_of(name, config_path_of(dir), probe_of(fs, config_path_of(dir))) {
        Some(end) => end,
        None => match parent_of(dir) {
            Some(up) => {
                proof {
                    lemma_parent_shorter(dir);
                }
                walk_of(name, up, fallback, fs)
            },
            None => last_resort_of(name, fallback, fs),
        },
    }
}

/// Where a resolution under way stands.
#[derive(Debug, PartialEq, Eq)]
pub enum Stage {
    /// The configuration file of this directory is to be probed.
    Ancestor(String),
    /// The walk is over, and the fallback file at this path is to be probed.
    Fallback(String),
}

/// A stage as plain values.
pub enum StageView {
    Ancestor(Seq<char>),
    Fallback(Seq<char>),
}

impl View for Stage {
    type V = StageView;

    open spec fn view(&self) -> StageView {
        match self {
            Stage::Ancestor(dir) => StageView::Ancestor(dir@),
            Stage::Fallback(path) => StageView::Fallback(path@),
        }
    }
}

/// A resolution under way: it waits for one file to be probed.
#[derive(Debug, PartialEq, Eq)]
pub struct Resolver {
    name: String,
    fallback: Option<String>,
    stage: Stage,
}

/// A resolution under way, as plain values.
pub struct ResolverView {
    pub name: Seq<char>,
    pub fallback: Option<Seq<char>>,
    pub stage: StageView,
}

impl View for Resolver {
    type V = ResolverView;

    closed spec fn view(&self) -> ResolverView {
        ResolverView { name: self.name@, fallback: text_of(self.fallback), stage: self.stage@ }
    }
}

/// What a resolution does next.
#[derive(Debug, PartialEq, Eq)]
pub enum Step {
    /// It waits for its pending path to be probed.
    Probe(Resolver),
    /// It has ended.
    Done(Result<Option<Located>, Error>),
}

/// A step as plain values.
pub enum StepView {
    Probe(ResolverView),
    Done(Result<Option<LocatedView>, ErrorView>),
}

impl View for Step {
    type V = StepView;

    open spec fn view(&self) -> StepView {
        match self {
            Step::Probe(r) => StepView::Probe(r@),
            Step::Done(end) => StepView::Done(resolution_view(*end)),
        }
    }
}

/// The path that a resolution waits for.
pub open spec fn pending_of(r: ResolverView) -> Seq<char> {
    match r.stage {
        StageView::Ancestor(dir) => config_path_of(dir),
        StageView::Fallback(path) => path,
    }
}

/// The step that follows once the pending path has been probed.
pub open spec fn advance_of(r: ResolverView, probe: ProbeView) -> StepView {
    match settle_of(r.name, pending_of(r), probe) {
        Some(end) => StepView::Done(end),
        None => match r.stage {
            StageView::Ancestor(dir) => match parent_of(dir) {
                Some(up) => StepView::Probe(
                    ResolverView { name: r.name, fallback: r.fallback, stage: StageView::Ancestor(up) },
                ),
                None => match r.fallback {
                    Some(path) => StepView::Probe(
                        ResolverView {
                            name: r.name,
                            fallback: r.fallback,
                            stage: StageView::Fallback(path),
                        },
                    ),
                    None => StepView::Done(Ok(None)),
                },
            },
            StageView::Fallback(_) => StepView::Done(Ok(None)),
        },
    }
}

/// The end that a resolution under way comes to in the file system `fs`.
pub open spec fn outcome_of(r: ResolverView, fs: Map<Seq<char>, ProbeView>) -> Result<
    Option<LocatedView>,
    ErrorView,
> {
    match r.stage {
        StageView::Ancestor(dir) => walk_of(r.name, dir, r.fallback, fs),
        StageView::Fallback(path) => last_resort_of(r.name, Some(path), fs),
    }
}

/// The end that a step leads to in the file system `fs`.
pub open spec fn end_of(step: StepView, fs: Map<Seq<char>, ProbeView>) -> Result<
    Option<LocatedView>,
    ErrorView,
> {
    match step {
        StepView::Probe(r) => outcome_of(r, fs),
        StepView::Done(end) => end,
    }
}

/// A bound on the probes that a step can still lead to.
pub open spec fn probes_left(step: StepView) -> nat {
    match step {
        StepView::Probe(r) => match r.stage {
            StageView::Ancestor(dir) => dir.len() + 2,
            StageView::Fallback(_) => 1,
        },
        StepView::Done(_) => 0,
    }
}

/// Feeding a resolution what its pending path holds in `fs` brings it
/// nearer to its end and does not change that end.
pub proof fn lemma_advance(r: ResolverView, fs: Map<Seq<char>, ProbeView>)
    ensures
        end_of(advance_of(r, probe_of(fs, pending_of(r))), fs) == outcome_of(r, fs),
        probes_left(advance_of(r, probe_of(fs, pending_of(r)))) < probes_left(StepView::Probe(r)),
{
    match r.stage {
        StageView::Ancestor(dir) => {
            lemma_parent_shorter(dir);
        },
        StageView::Fallback(_) => {},
    }
}

impl Resolver {
    /// The resolution of `name` that starts in the directory `start` and
    /// has `fallback`, if any, for its last resort.
    pub fn new(name: &str, start: &str, fallback: Option<String>) -> (r: Self)
        ensures
            r@ == (ResolverView {
                name: name@,
                fallback: text_of(fallback),
                stage: StageView::Ancestor(start@),
            }),
    {
        Resolver { name: name.to_owned(), fallback, stage: Stage::Ancestor(start.to_owned()) }
    }

    /// The path of the file that is to be probed.
    pub fn pending(&self) -> (path: String)
        ensures
            path@ == pending_of(self@),
    {
        match &self.stage {
            Stage::Ancestor(dir) => config_path(dir.as_str()),
            Stage::Fallback(path) => path.clone(),
        }
    }

    /// Takes in what probing the pending path gave, and says what follows.
    pub fn advance(self, probe: &Probe) -> (next: Step)
        ensures
            next@ == advance_of(self@, probe@),
    {
        let path = self.pending();
        let Resolver { name, fallback, stage } = self;
        match find_command_from_path(name.as_str(), path.as_str(), probe) {
            Ok(Some(command)) => Step::Done(Ok(Some(Located { command, config_path: path }))),
            Err(e) => Step::Done(Err(e)),
            Ok(None) => match stage {
                Stage::Ancestor(dir) => match parent(dir.as_str()) {
                    Some(up) => Step::Probe(Resolver { name, fallback, stage: Stage::Ancestor(up) }),
                    None => match copy_text(&fallback) {
                        Some(last) => Step::Probe(
                            Resolver { name, fallback, stage: Stage::Fallback(last) },
                        ),
                        None => Step::Done(Ok(None)),
                    },
                },
                Stage::Fallback(_) => Step::Done(Ok(None)),
            },
        }
    }
}

/// One file of a table of files: its path and what reading it gives.
#[derive(Debug, PartialEq, Eq)]
pub struct ConfigFile {
    pub path: String,
    pub content: Probe,
}

/// The file system that a table of files stands for. Where two entries
/// share a path, the earlier one counts.
pub open spec fn files_of(table: Seq<ConfigFile>) -> Map<Seq<char>, ProbeView>
    decreases table.len(),
{
    if table.len() == 0 {
        Map::empty()
    } else {
        files_of(table.drop_first()).insert(table[0].path@, table[0].content@)
    }
}

/// What reading `path` gives in a table of files.
pub fn read<'a>(table: &'a Vec<ConfigFile>, path: &str) -> (probe: Option<&'a Probe>)
    ensures
        match probe {
            Some(p) => p@ == probe_of(files_of(table@), path@),
            None => probe_of(files_of(table@), path@) == ProbeView::Missing,
        },
{
    let mut i: usize = 0;
    assert(table@.skip(0) =~= table@);
    while i < table.len()
        invariant
            i <= table.len(),
            probe_of(files_of(table@), path@) == probe_of(files_of(table@.skip(i as int)), path@),
        decreases table.len() - i,
    {
        assert(table@.skip(i as int).drop_first() =~= table@.skip(i + 1));
        if same_text(table[i].path.as_str(), path) {
            return Some(&table[i].content);
        }
        i += 1;
    }
    None
}

/// Resolves `name` from the directory `start` in a table of files: finds
/// the command and the configuration file that defines it.
pub fn find_command(
    name: &str,
    start: &str,
    fallback: Option<String>,
    table: &Vec<ConfigFile>,
) -> (end: Result<Option<Located>, Error>)
    ensures
        resolution_view(end) == walk_of(name@, start@, text_of(fallback), files_of(table@)),
{
    let ghost fs = files_of(table@);
    let ghost goal = walk_of(name@, start@, text_of(fallback), fs);
    let missing = Probe::Missing;
    let mut step = Step::Probe(Resolver::new(name, start, fallback));
    loop
        invariant
            fs == files_of(table@),
            missing@ == ProbeView::Missing,
            goal == walk_of(name@, start@, text_of(fallback), fs),
            end_of(step@, fs) == goal,
        decreases probes_left(step@),
    {
        match step {
            Step::Done(end) => {
                return end;
            },
            Step::Probe(resolver) => {
                proof {
                    lemma_advance(resolver@, fs);
                }
                let path = resolver.pending();
                let probe = match read(table, path.as_str()) {
                    Some(p) => p,
                    None => &missing,
                };
                step = resolver.advance(probe);
            },
        }
    }
}

/// The walk goes past `dir`: its configuration file is missing or holds a
/// mapping that does not define `name`.
pub open spec fn passes(name: Seq<char>, dir: Seq<char>, fs: Map<Seq<char>, ProbeView>) -> bool {
    settle_of(name, config_path_of(dir), probe_of(fs, config_path_of(dir))) is None
}

/// The walk from `start` goes past every directory on its way.
pub open spec fn passes_all(name: Seq<char>, start: Seq<char>, fs: Map<Seq<char>, ProbeView>) -> bool {
    forall|j: int|
        0 <= j < ancestors_of(start).len() ==> passes(name, #[trigger] ancestors_of(start)[j], fs)
}

/// The directories of a walk: the start, then those of the walk from its
/// parent.
pub proof fn lemma_ancestors(dir: Seq<char>)
    ensures
        ancestors_of(dir).len() >= 1,
        ancestors_of(dir)[0] == dir,
        match parent_of(dir) {
            Some(up) => ancestors_of(dir) == seq![dir] + ancestors_of(up),
            None => ancestors_of(dir) == seq![dir],
        },
{
    lemma_parent_shorter(dir);
}

/// Every directory of a walk above its start is tidy, and so is the start
/// where the walk begins at a tidy one: each is the parent of its own
/// configuration file.
pub proof fn lemma_walk_directories(start: Seq<char>, k: int)
    requires
        0 <= k < ancestors_of(start).len(),
        k == 0 ==> tidy(start),
    ensures
        tidy(ancestors_of(start)[k]),
        parent_of(config_path_of(ancestors_of(start)[k])) == Some(ancestors_of(start)[k]),
    decreases k,
{
    lemma_ancestors(start);
    if k > 0 {
        let up = parent_of(start)->0;
        lemma_parent_is_tidy(start);
        lemma_walk_directories(up, k - 1);
        assert(ancestors_of(up)[k - 1] == ancestors_of(start)[k]);
    } else {
        lemma_config_file_lies_in_its_directory(start);
    }
}

/// A walk that goes past its first `k` directories ends as the walk from
/// the next one does.
pub proof fn lemma_walk_goes_on(
    name: Seq<char>,
    start: Seq<char>,
    fallback: Option<Seq<char>>,
    fs: Map<Seq<char>, ProbeView>,
    k: int,
)
    requires
        0 <= k < ancestors_of(start).len(),
        forall|j: int| 0 <= j < k ==> passes(name, #[trigger] ancestors_of(start)[j], fs),
    ensures
        walk_of(name, start, fallback, fs) == walk_of(name, ancestors_of(start)[k], fallback, fs),
    decreases k,
{
    lemma_ancestors(start);
    if k > 0 {
        assert(passes(name, ancestors_of(start)[0], fs));
        let up = parent_of(start)->0;
        assert forall|j: int| 0 <= j < k - 1 implies passes(
            name,
            #[trigger] ancestors_of(up)[j],
            fs,
        ) by {
            assert(ancestors_of(up)[j] == ancestors_of(start)[j + 1]);
        }
        lemma_walk_goes_on(name, up, fallback, fs, k - 1);
        assert(ancestors_of(up)[k - 1] == ancestors_of(start)[k]);
    }
}

/// The nearest definition wins: where the walk goes past the first `k`
/// directories and the next one defines the name, the resolution ends with
/// that definition, whatever the directories above it and the fallback
/// file hold.
pub proof fn lemma_nearest_definition_wins(
    name: Seq<char>,
    start: Seq<char>,
    fallback: Option<Seq<char>>,
    fs: Map<Seq<char>, ProbeView>,
    k: int,
)
    requires
        0 <= k < ancestors_of(start).len(),
        forall|j: int| 0 <= j < k ==> passes(name, #[trigger] ancestors_of(start)[j], fs),
        probe_of(fs, config_path_of(ancestors_of(start)[k])) is Loaded,
        probe_of(fs, config_path_of(ancestors_of(start)[k]))->Loaded_0.contains_key(name),
    ensures
        walk_of(name, start, fallback, fs) == Ok::<Option<LocatedView>, ErrorView>(
            Some(
                LocatedView {
                    command: probe_of(fs, config_path_of(ancestors_of(start)[k]))->Loaded_0[name],
                    config_path: config_path_of(ancestors_of(start)[k]),
                },
            ),
        ),
{
    lemma_walk_goes_on(name, start, fallback, fs, k);
}

/// A file that gives no mapping stops the walk: where the walk goes past
/// the first `k` directories and the file of the next one is malformed, the
/// resolution fails on that file, whatever the directories above it and the
/// fallback file hold.
pub proof fn lemma_malformed_file_stops_walk(
    name: Seq<char>,
    start: Seq<char>,
    fallback: Option<Seq<char>>,
    fs: Map<Seq<char>, ProbeView>,
    k: int,
)
    requires
        0 <= k < ancestors_of(start).len(),
        forall|j: int| 0 <= j < k ==> passes(name, #[trigger] ancestors_of(start)[j], fs),
        probe_of(fs, config_path_of(ancestors_of(start)[k])) is Malformed,
    ensures
        walk_of(name, start, fallback, fs) == Err::<Option<LocatedView>, ErrorView>(
            ErrorView::Parse {
                path: config_path_of(ancestors_of(start)[k]),
                cause: probe_of(fs, config_path_of(ancestors_of(start)[k]))->Malformed_0,
            },
        ),
{
    lemma_walk_goes_on(name, start, fallback, fs, k);
}

/// The fallback file is the last resort: where the walk goes past every
/// directory, the resolution ends with what the fallback file gives, and
/// where it does not, the resolution ends as it would without any fallback.
pub proof fn lemma_fallback_is_last_resort(
    name: Seq<char>,
    start: Seq<char>,
    fallback: Option<Seq<char>>,
    fs: Map<Seq<char>, ProbeView>,
)
    ensures
        passes_all(name, start, fs) ==> walk_of(name, start, fallback, fs) == last_resort_of(
            name,
            fallback,
            fs,
        ),
        !passes_all(name, start, fs) ==> walk_of(name, start, fallback, fs) == walk_of(
            name,
            start,
            None,
            fs,
        ),
    decreases start.len(),
{
    lemma_ancestors(start);
    lemma_parent_shorter(start);
    if passes(name, start, fs) {
        match parent_of(start) {
            Some(up) => {
                lemma_fallback_is_last_resort(name, up, fallback, fs);
                if passes_all(name, start, fs) {
                    assert forall|j: int| 0 <= j < ancestors_of(up).len() implies passes(
                        name,
                        #[trigger] ancestors_of(up)[j],
                        fs,
                    ) by {
                        assert(ancestors_of(up)[j] == ancestors_of(start)[j + 1]);
                    }
                } else {
                    if passes_all(name, up, fs) {
                        assert forall|j: int| 0 <= j < ancestors_of(start).len() implies passes(
                            name,
                            #[trigger] ancestors_of(start)[j],
                            fs,
                        ) by {
                            if j > 0 {
                                assert(ancestors_of(start)[j] == ancestors_of(up)[j - 1]);
                            }
                        }
                    }
                }
            },
            None => {
                if !passes_all(name, start, fs) {
                    assert forall|j: int| 0 <= j < ancestors_of(start).len() implies passes(
                        name,
                        #[trigger] ancestors_of(start)[j],
                        fs,
                    ) by {}
                }
            },
        }
    } else {
        assert(!passes(name, ancestors_of(start)[0], fs));
    }
}

} // verus!
