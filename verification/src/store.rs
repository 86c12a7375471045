//! One configuration file: what reading it gave, what a name stands for in
//! it, and what `put` and `delete` make of it.
//!
//! Reading and writing the file is the caller's part. A mutation either
//! yields the whole mapping to write back or a failure, and then nothing is
//! to be written.

use vstd::prelude::*;
use vstd::string::*;
use crate::error::{Error, ErrorView};
use crate::mapping::CommandMap;
use crate::record::{Command, CommandView};

verus! {

/// What reading the configuration file at some path gave.
#[derive(Debug, PartialEq, Eq)]
pub enum Probe {
    /// No file is there.
    Missing,
    /// The file holds this mapping.
    Loaded(CommandMap),
    /// The file is there but does not decode into a mapping; the text says
    /// why.
    Malformed(String),
    /// The file is there but could not be read; the text says why.
    Unreadable(String),
}

/// A probe as plain values.
pub enum ProbeView {
    Missing,
    Loaded(Map<Seq<char>, CommandView>),
    Malformed(Seq<char>),
    Unreadable(Seq<char>),
}

impl View for Probe {
    type V = ProbeView;

    open spec fn view(&self) -> ProbeView {
        match self {
            Probe::Missing => ProbeView::Missing,
            Probe::Loaded(m) => ProbeView::Loaded(m@),
            Probe::Malformed(cause) => ProbeView::Malformed(cause@),
            Probe::Unreadable(cause) => ProbeView::Unreadable(cause@),
        }
    }
}

/// What `name` stands for in the file at `path`, given what reading it
/// gave: nothing where the file is missing or does not define the name, and
/// a failure where the file is there but gave no mapping.
pub open spec fn lookup_of(name: Seq<char>, path: Seq<char>, probe: ProbeView) -> Result<
    Option<CommandView>,
    ErrorView,
> {
    match probe {
        ProbeView::Missing => Ok(None),
        ProbeView::Loaded(m) => if m.contains_key(name) {
            Ok(Some(m[name]))
        } else {
            Ok(None)
        },
        ProbeView::Malformed(cause) => Err(ErrorView::Parse { path, cause }),
        ProbeView::Unreadable(cause) => Err(ErrorView::Io { path, cause }),
    }
}

/// The answer of a lookup as plain values.
pub open spec fn lookup_view(r: Result<Option<Command>, Error>) -> Result<
    Option<CommandView>,
    ErrorView,
> {
    match r {
        Ok(Some(c)) => Ok(Some(c@)),
        Ok(None) => Ok(None),
        Err(e) => Err(e@),
    }
}

/// The mapping to write back, or the failure, as plain values.
pub open spec fn saved_view(r: Result<CommandMap, Error>) -> Result<
    Map<Seq<char>, CommandView>,
    ErrorView,
> {
    match r {
        Ok(m) => Ok(m@),
        Err(e) => Err(e@),
    }
}

/// The mapping that `put` writes back: the one that was there, or the empty
/// one where no file was, with `name` bound to `command`.
pub open spec fn put_of(
    existing: ProbeView,
    path: Seq<char>,
    name: Seq<char>,
    command: CommandView,
) -> Result<Map<Seq<char>, CommandView>, ErrorView> {
    match existing {
        ProbeView::Missing => Ok(Map::<Seq<char>, CommandView>::empty().insert(name, command)),
        ProbeView::Loaded(m) => Ok(m.insert(name, command)),
        ProbeView::Malformed(cause) => Err(ErrorView::Parse { path, cause }),
        ProbeView::Unreadable(cause) => Err(ErrorView::Io { path, cause }),
    }
}

/// The mapping that `delete` writes back: the one that was there without
/// `name`. It fails where no file is there, and where the name is not
/// defined.
pub open spec fn delete_of(existing: ProbeView, path: Seq<char>, name: Seq<char>) -> Result<
    Map<Seq<char>, CommandView>,
    ErrorView,
> {
    match existing {
        ProbeView::Missing => Err(ErrorView::NoConfigFile),
        ProbeView::Loaded(m) => if m.contains_key(name) {
            Ok(m.remove(name))
        } else {
            Err(ErrorView::NameNotDefined(name))
        },
        ProbeView::Malformed(cause) => Err(ErrorView::Parse { path, cause }),
        ProbeView::Unreadable(cause) => Err(ErrorView::Io { path, cause }),
    }
}

/// Looks `command_name` up in the configuration file at `path`, of which
/// `probe` tells what reading it gave.
pub fn find_command_from_path(command_name: &str, path: &str, probe: &Probe) -> (found: Result<
    Option<Command>,
    Error,
>)
    ensures
        lookup_view(found) == lookup_of(command_name@, path@, probe@),
{
    match probe {
        Probe::Missing => Ok(None),
        Probe::Loaded(m) => match m.get(command_name) {
            Some(c) => Ok(Some(c.clone())),
            None => Ok(None),
        },
        Probe::Malformed(cause) => Err(Error::Parse { path: path.to_owned(), cause: cause.clone() }),
        Probe::Unreadable(cause) => Err(Error::Io { path: path.to_owned(), cause: cause.clone() }),
    }
}

/// Defines `name` as `command` in the configuration file at `path`, of which
/// `existing` tells what reading it gave, and hands back the mapping to
/// write there.
pub fn put(existing: Probe, path: &str, name: &str, command: Command) -> (saved: Result<
    CommandMap,
    Error,
>)
    ensures
        saved_view(saved) == put_of(existing@, path@, name@, command@),
{
    match existing {
        Probe::Missing => {
            let mut m = CommandMap::new();
            m.insert(name.to_owned(), command);
            Ok(m)
        },
        Probe::Loaded(loaded) => {
            let mut m = loaded;
            m.insert(name.to_owned(), command);
            Ok(m)
        },
        Probe::Malformed(cause) => Err(Error::Parse { path: path.to_owned(), cause }),
        Probe::Unreadable(cause) => Err(Error::Io { path: path.to_owned(), cause }),
    }
}

/// Drops the definition of `name` from the configuration file at `path`, of
/// which `existing` tells what reading it gave, and hands back the mapping
/// to write there.
pub fn delete(existing: Probe, path: &str, name: &str) -> (saved: Result<CommandMap, Error>)
    ensures
        saved_view(saved) == delete_of(existing@, path@, name@),
{
    match existing {
        Probe::Missing => Err(Error::NoConfigFile),
        Probe::Loaded(loaded) => {
            let mut m = loaded;
            match m.remove(name) {
                Some(_) => Ok(m),
                None => Err(Error::NameNotDefined(name.to_owned())),
            }
        },
        Probe::Malformed(cause) => Err(Error::Parse { path: path.to_owned(), cause }),
        Probe::Unreadable(cause) => Err(Error::Io { path: path.to_owned(), cause }),
    }
}

/// The text of a configuration file: the encoded mapping and one line feed
/// to end it.
pub fn document(encoded: String) -> (text: String)
    ensures
        text@ == encoded@ + "\n"@,
{
    let mut text = encoded;
    text.append("\n");
    text
}

/// The mapping that a file holds for `put` and `delete`: the one read from
/// it, and the empty one where no file is there.
pub open spec fn mapping_in(existing: ProbeView) -> Map<Seq<char>, CommandView> {
    match existing {
        ProbeView::Loaded(m) => m,
        _ => Map::empty(),
    }
}

/// In the mapping that `put` hands back, `name` stands for exactly
/// `command`, its absent fields still absent, and every other name stands
/// for what it stood for before.
pub proof fn lemma_put_then_lookup(
    existing: ProbeView,
    path: Seq<char>,
    name: Seq<char>,
    command: CommandView,
    other: Seq<char>,
)
    requires
        existing is Missing || existing is Loaded,
    ensures
        put_of(existing, path, name, command) is Ok,
        lookup_of(name, path, ProbeView::Loaded(put_of(existing, path, name, command)->Ok_0)) == Ok::<
            Option<CommandView>,
            ErrorView,
        >(Some(command)),
        other != name ==> lookup_of(
            other,
            path,
            ProbeView::Loaded(put_of(existing, path, name, command)->Ok_0),
        ) == lookup_of(other, path, existing),
{
}

/// Putting the same definition twice writes the same mapping as putting it
/// once.
pub proof fn lemma_put_twice(
    existing: ProbeView,
    path: Seq<char>,
    name: Seq<char>,
    command: CommandView,
)
    requires
        existing is Missing || existing is Loaded,
    ensures
        put_of(
            ProbeView::Loaded(put_of(existing, path, name, command)->Ok_0),
            path,
            name,
            command,
        ) == put_of(existing, path, name, command),
{
    let once = put_of(existing, path, name, command)->Ok_0;
    assert(once.insert(name, command) =~= once);
}

/// `delete` undoes `put`: where the file did not define `name`, putting it
/// and then deleting it writes back the mapping that was there before.
pub proof fn lemma_delete_undoes_put(
    existing: ProbeView,
    path: Seq<char>,
    name: Seq<char>,
    command: CommandView,
)
    requires
        existing is Missing || existing is Loaded,
        !mapping_in(existing).contains_key(name),
    ensures
        delete_of(ProbeView::Loaded(put_of(existing, path, name, command)->Ok_0), path, name) == Ok::<
            Map<Seq<char>, CommandView>,
            ErrorView,
        >(mapping_in(existing)),
{
    let before = mapping_in(existing);
    assert(before.insert(name, command).remove(name) =~= before);
}

/// A failed mutation writes nothing, and a mutation fails on every file
/// that is there but gave no mapping.
pub proof fn lemma_mutation_is_all_or_nothing(
    existing: ProbeView,
    path: Seq<char>,
    name: Seq<char>,
    command: CommandView,
)
    ensures
        put_of(existing, path, name, command) is Ok <==> (existing is Missing || existing is Loaded),
        delete_of(existing, path, name) is Ok <==> (existing is Loaded && mapping_in(
            existing,
        ).contains_key(name)),
{
}

} // verus!
