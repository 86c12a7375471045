//! What a command line asks for, once its words are told apart.

use vstd::prelude::*;
use crate::error::{Error, ErrorView};
use crate::record::texts_of;

verus! {

/// A name to run and the extra arguments for it.
#[derive(Debug, PartialEq, Eq)]
pub struct RunRequest {
    pub name: String,
    pub extra_args: Vec<String>,
}

/// A run request as plain text.
pub struct RunRequestView {
    pub name: Seq<char>,
    pub extra_args: Seq<Seq<char>>,
}

impl View for RunRequest {
    type V = RunRequestView;

    open spec fn view(&self) -> RunRequestView {
        RunRequestView { name: self.name@, extra_args: texts_of(self.extra_args@) }
    }
}

/// Words that begin with no known subcommand are a run request: the first
/// word is the name and the rest are its extra arguments. No word at all
/// is a failure.
pub open spec fn external_of(words: Seq<Seq<char>>) -> Result<RunRequestView, ErrorView> {
    if words.len() == 0 {
        Err(ErrorView::NoSubcommand)
    } else {
        Ok(RunRequestView { name: words[0], extra_args: words.drop_first() })
    }
}

/// A run request or a failure, as plain values.
pub open spec fn request_view(r: Result<RunRequest, Error>) -> Result<RunRequestView, ErrorView> {
    match r {
        Ok(request) => Ok(request@),
        Err(e) => Err(e@),
    }
}

/// Reads words that begin with no known subcommand as a run request.
pub fn external(words: Vec<String>) -> (request: Result<RunRequest, Error>)
    ensures
        request_view(request) == external_of(texts_of(words@)),
{
    let mut words = words;
    let ghost all = words@;
    if words.len() == 0 {
        return Err(Error::NoSubcommand);
    }
    let name = words.remove(0);
    assert(texts_of(words@) =~= texts_of(all).drop_first());
    Ok(RunRequest { name, extra_args: words })
}

} // verus!
