//! The command record: what a name stands for.

use vstd::prelude::*;

verus! {

/// One command definition.
///
/// `working_dir`, when present, is read relative to the directory of the
/// configuration file that holds the record, never relative to the directory
/// from which the command is invoked.
#[derive(Debug, PartialEq, Eq)]
pub struct Command {
    /// Executable name or path.
    pub command: String,
    /// Fixed arguments, passed before any given at run time.
    pub args: Vec<String>,
    /// Directory to run in.
    pub working_dir: Option<String>,
}

/// A command record as plain text.
pub struct CommandView {
    pub command: Seq<char>,
    pub args: Seq<Seq<char>>,
    pub working_dir: Option<Seq<char>>,
}

/// The text of an optional string.
pub open spec fn text_of(s: Option<String>) -> Option<Seq<char>> {
    match s {
        Some(t) => Some(t@),
        None => None,
    }
}

/// The texts of a list of strings.
pub open spec fn texts_of(v: Seq<String>) -> Seq<Seq<char>> {
    Seq::new(v.len(), |i: int| v[i]@)
}

impl View for Command {
    type V = CommandView;

    open spec fn view(&self) -> CommandView {
        CommandView {
            command: self.command@,
            args: texts_of(self.args@),
            working_dir: text_of(self.working_dir),
        }
    }
}

/// A copy of a list of strings.
pub fn copy_texts(v: &Vec<String>) -> (r: Vec<String>)
    ensures
        texts_of(r@) == texts_of(v@),
{
    let mut r: Vec<String> = Vec::new();
    let mut i: usize = 0;
    while i < v.len()
        invariant
            i <= v.len(),
            r.len() == i,
            forall|j: int| 0 <= j < i ==> r[j]@ == v[j]@,
        decreases v.len() - i,
    {
        r.push(v[i].clone());
        i += 1;
    }
    assert(texts_of(r@) =~= texts_of(v@));
    r
}

/// A copy of an optional string.
pub fn copy_text(s: &Option<String>) -> (r: Option<String>)
    ensures
        text_of(r) == text_of(*s),
{
    match s {
        Some(t) => Some(t.clone()),
        None => None,
    }
}

impl Clone for Command {
    fn clone(&self) -> (r: Self)
        ensures
            r@ == self@,
    {
        Command {
            command: self.command.clone(),
            args: copy_texts(&self.args),
            working_dir: copy_text(&self.working_dir),
        }
    }
}

} // verus!
