//! Directory paths as text.
//!
//! Paths are taken apart and put together by their text alone, with `/`
//! between components; nothing here looks at a file system. Slashes at the
//! end of a path and components that are a lone `.` name nothing, so they
//! are passed over; `..` is a component like any other.

use vstd::prelude::*;
use vstd::string::*;
use crate::record::text_of;

verus! {

/// The name of the configuration file of a directory.
pub const CONFIG_FILE_NAME: &'static str = ".uribo";

/// The name of the environment variable that holds the path of the fallback
/// configuration file.
pub const ENV_DEFAULT_CONFIG_PATH: &'static str = "URIBO_DEFAULT_CONFIG_PATH";

/// `p` without what names nothing at its end: slashes, and dots that are a
/// component of their own. The first character always stays, so the root
/// stays the root.
pub open spec fn trim_end(p: Seq<char>) -> Seq<char>
    decreases p.len(),
{
    if p.len() >= 2 && (p.last() == '/' || (p.last() == '.' && p[p.len() - 2] == '/')) {
        trim_end(p.drop_last())
    } else {
        p
    }
}

/// `p` without the component name at its end: what is left is empty or ends
/// in a slash.
pub open spec fn strip_name(p: Seq<char>) -> Seq<char>
    decreases p.len(),
{
    if p.len() > 0 && p.last() != '/' {
        strip_name(p.drop_last())
    } else {
        p
    }
}

/// The directory that holds `p`: `p` without its last component.
///
/// The root and the empty path have none. A single relative component has
/// the empty path for its parent.
pub open spec fn parent_of(p: Seq<char>) -> Option<Seq<char>> {
    let t = trim_end(p);
    if t.len() == 0 || t == seq!['/'] {
        None
    } else {
        Some(trim_end(strip_name(t)))
    }
}

/// `rel` read from the directory `base`: `rel` itself where it starts at the
/// root, else `base` followed by `rel`, with one slash between them unless
/// `base` is empty or brings its own.
pub open spec fn join_of(base: Seq<char>, rel: Seq<char>) -> Seq<char> {
    if rel.len() > 0 && rel[0] == '/' {
        rel
    } else if base.len() > 0 && base.last() != '/' {
        base + seq!['/'] + rel
    } else {
        base + rel
    }
}

/// The path of the configuration file of `dir`.
pub open spec fn config_path_of(dir: Seq<char>) -> Seq<char> {
    join_of(dir, CONFIG_FILE_NAME@)
}

/// Trimming yields a prefix that cannot be trimmed further: it is empty, or
/// the root, or ends in a name.
pub proof fn lemma_trim_end(p: Seq<char>)
    ensures
        trim_end(p).len() <= p.len(),
        trim_end(p) == p.take(trim_end(p).len() as int),
        trim_end(trim_end(p)) == trim_end(p),
        trim_end(p).len() > 0 && trim_end(p) != seq!['/'] ==> trim_end(p).last() != '/',
    decreases p.len(),
{
    if p.len() >= 2 && (p.last() == '/' || (p.last() == '.' && p[p.len() - 2] == '/')) {
        lemma_trim_end(p.drop_last());
        let q = trim_end(p);
        assert(q =~= p.take(q.len() as int));
    } else {
        assert(p =~= p.take(p.len() as int));
        if p.len() == 1 && p[0] == '/' {
            assert(p =~= seq!['/']);
        }
    }
}

/// Stripping the last name yields a prefix that is empty or ends in a
/// slash, and a shorter one where the path ended in a name.
pub proof fn lemma_strip_name(p: Seq<char>)
    ensures
        strip_name(p).len() <= p.len(),
        strip_name(p) == p.take(strip_name(p).len() as int),
        strip_name(p).len() > 0 ==> strip_name(p).last() == '/',
        p.len() > 0 && p.last() != '/' ==> strip_name(p).len() < p.len(),
    decreases p.len(),
{
    if p.len() > 0 && p.last() != '/' {
        lemma_strip_name(p.drop_last());
        let q = strip_name(p);
        assert(q =~= p.take(q.len() as int));
    } else {
        assert(p =~= p.take(p.len() as int));
    }
}

/// A parent is shorter than its child, so a walk towards the root ends.
pub proof fn lemma_parent_shorter(p: Seq<char>)
    ensures
        match parent_of(p) {
            Some(q) => q.len() < p.len(),
            None => true,
        },
{
    let t = trim_end(p);
    lemma_trim_end(p);
    if t.len() > 0 && t != seq!['/'] {
        lemma_strip_name(t);
        lemma_trim_end(strip_name(t));
    }
}

/// A path with nothing to trim at its end: the form in which a directory
/// is its configuration file's parent.
pub open spec fn tidy(dir: Seq<char>) -> bool {
    trim_end(dir) == dir
}

/// A name without a slash in it is stripped off whole.
pub proof fn lemma_strip_whole_name(front: Seq<char>, name: Seq<char>)
    requires
        forall|i: int| 0 <= i < name.len() ==> name[i] != '/',
    ensures
        strip_name(front + name) == strip_name(front),
    decreases name.len(),
{
    if name.len() == 0 {
        assert(front + name =~= front);
    } else {
        assert((front + name).drop_last() =~= front + name.drop_last());
        lemma_strip_whole_name(front, name.drop_last());
    }
}

/// Every parent is tidy, so every directory of a walk above its start is.
pub proof fn lemma_parent_is_tidy(p: Seq<char>)
    ensures
        match parent_of(p) {
            Some(up) => tidy(up),
            None => true,
        },
{
    lemma_trim_end(strip_name(trim_end(p)));
}

/// The configuration file of a tidy directory lies in that directory.
pub proof fn lemma_config_file_lies_in_its_directory(dir: Seq<char>)
    requires
        tidy(dir),
    ensures
        parent_of(config_path_of(dir)) == Some(dir),
{
    reveal_strlit(".uribo");
    let name = CONFIG_FILE_NAME@;
    let path = config_path_of(dir);
    lemma_trim_end(dir);
    assert(path.last() == 'o');
    assert(trim_end(path) == path);
    if dir.len() > 0 && dir.last() != '/' {
        let front = dir + seq!['/'];
        assert(path =~= front + name);
        lemma_strip_whole_name(front, name);
        assert(strip_name(front) == front);
        assert(front.drop_last() =~= dir);
        assert(trim_end(front) == trim_end(dir));
    } else {
        assert(path =~= dir + name);
        lemma_strip_whole_name(dir, name);
        assert(strip_name(dir) == dir);
    }
}

/// The directories from `dir` up to the last one that has no parent,
/// nearest first.
pub open spec fn ancestors_of(dir: Seq<char>) -> Seq<Seq<char>>
    decreases dir.len(),
{
    match parent_of(dir) {
        Some(up) => {
            proof {
                lemma_parent_shorter(dir);
            }
            seq![dir] + ancestors_of(up)
        },
        None => seq![dir],
    }
}

/// The characters of a piece of text.
fn chars_of(s: &str) -> (v: Vec<char>)
    ensures
        v@ == s@,
{
    let mut v: Vec<char> = Vec::new();
    for c in it: s.chars()
        invariant
            v@ == it.seq().take(it.index()),
            it.seq() == s@,
    {
        v.push(c);
    }
    v
}

/// The end of `chars[..end]` once what names nothing at its end is left
/// out.
fn trimmed_end(chars: &Vec<char>, end: usize) -> (e: usize)
    requires
        end <= chars.len(),
    ensures
        e <= end,
        chars@.take(e as int) == trim_end(chars@.take(end as int)),
{
    let mut e: usize = end;
    while e >= 2 && (chars[e - 1] == '/' || (chars[e - 1] == '.' && chars[e - 2] == '/'))
        invariant
            e <= end <= chars.len(),
            trim_end(chars@.take(e as int)) == trim_end(chars@.take(end as int)),
        decreases e,
    {
        assert(chars@.take(e as int).drop_last() =~= chars@.take(e - 1));
        e -= 1;
    }
    e
}

/// The end of `chars[..end]` once the name at its end is left out.
fn stripped_end(chars: &Vec<char>, end: usize) -> (e: usize)
    requires
        end <= chars.len(),
    ensures
        e <= end,
        chars@.take(e as int) == strip_name(chars@.take(end as int)),
{
    let mut e: usize = end;
    while e > 0 && chars[e - 1] != '/'
        invariant
            e <= end <= chars.len(),
            strip_name(chars@.take(e as int)) == strip_name(chars@.take(end as int)),
        decreases e,
    {
        assert(chars@.take(e as int).drop_last() =~= chars@.take(e - 1));
        e -= 1;
    }
    e
}

/// The directory that holds `path`, if it has one.
pub fn parent(path: &str) -> (up: Option<String>)
    ensures
        text_of(up) == parent_of(path@),
{
    let chars = chars_of(path);
    let n = chars.len();
    assert(chars@.take(n as int) =~= path@);
    let t = trimmed_end(&chars, n);
    if t == 0 || (t == 1 && chars[0] == '/') {
        assert(t == 1 ==> chars@.take(1) =~= seq!['/']);
        return None;
    }
    assert(chars@.take(t as int) != seq!['/']) by {
        if t == 1 {
            assert(chars@.take(1)[0] != '/');
        }
    }
    let d = stripped_end(&chars, t);
    let m = trimmed_end(&chars, d);
    let up = path.substring_char(0, m).to_owned();
    assert(up@ =~= chars@.take(m as int));
    Some(up)
}

/// `rel` read from the directory `base`.
pub fn join(base: &str, rel: &str) -> (path: String)
    ensures
        path@ == join_of(base@, rel@),
{
    let r = rel.unicode_len();
    if r > 0 && rel.get_char(0) == '/' {
        return rel.to_owned();
    }
    let b = base.unicode_len();
    let mut path = base.to_owned();
    if b > 0 && base.get_char(b - 1) != '/' {
        proof {
            reveal_strlit("/");
        }
        path.append("/");
        assert(path@ =~= base@ + seq!['/']);
    }
    path.append(rel);
    path
}

/// The path of the configuration file of `dir`.
pub fn config_path(dir: &str) -> (path: String)
    ensures
        path@ == config_path_of(dir@),
{
    join(dir, CONFIG_FILE_NAME)
}

} // verus!
