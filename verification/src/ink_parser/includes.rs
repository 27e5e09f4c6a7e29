//! `INCLUDE` statements and the file handlers that resolve and read included
//! files.

use vstd::prelude::*;
use crate::ink_parser::parser::{opt_chars, Parser, ParserView};
use crate::text::{trim_str, trimmed};

verus! {

/// Trait for file resolution and reading (used by INCLUDE)
pub trait FileHandler {
    fn resolve(&self, filename: &str, current_file: &str) -> String;

    fn read(&self, resolved_path: &str) -> Result<String, String>;
}

/// The position just after the last `/` in `s` (0 when there is none).
pub open spec fn dir_prefix_len(s: Seq<char>) -> nat
    decreases s.len(),
{
    if s.len() == 0 {
        0
    } else if s.last() == '/' {
        s.len()
    } else {
        dir_prefix_len(s.drop_last())
    }
}

/// The path of an included file named from `current_file`: the directory
/// part of `current_file` (everything up to and including its last `/`)
/// followed by `filename`; `filename` alone when `current_file` has no `/`.
pub open spec fn resolved_path(filename: Seq<char>, current_file: Seq<char>) -> Seq<char> {
    current_file.take(dir_prefix_len(current_file) as int) + filename
}

pub proof fn lemma_dir_prefix_len(s: Seq<char>)
    ensures
        dir_prefix_len(s) <= s.len(),
        dir_prefix_len(s) == 0 || s[dir_prefix_len(s) - 1] == '/',
        forall|i: int| dir_prefix_len(s) <= i < s.len() ==> s[i] != '/',
    decreases s.len(),
{
    if s.len() > 0 && s.last() != '/' {
        lemma_dir_prefix_len(s.drop_last());
        assert forall|i: int| dir_prefix_len(s) <= i < s.len() implies s[i] != '/' by {
            if i < s.len() - 1 {
                assert(s.drop_last()[i] == s[i]);
            }
        }
    }
}

/// Resolve `filename` relative to the directory of `current_file`.
pub fn resolve_include_path(filename: &str, current_file: &str) -> (r: String)
    ensures
        r@ == resolved_path(filename@, current_file@),
{
    let chars = crate::text::chars_of(current_file);
    let mut i = chars.len();
    assert(chars@.take(i as int) =~= chars@);
    while i > 0 && chars[i - 1] != '/'
        invariant
            i <= chars.len(),
            chars@ == current_file@,
            dir_prefix_len(chars@.take(i as int)) == dir_prefix_len(chars@),
        decreases i,
    {
        proof {
            assert(chars@.take(i as int).drop_last() =~= chars@.take(i - 1));
        }
        i = i - 1;
    }
    proof {
        if i > 0 {
            assert(chars@.take(i as int).last() == '/');
        }
        assert(dir_prefix_len(chars@.take(i as int)) == i);
    }
    let mut r = crate::text::string_of_range(&chars, 0, i);
    r.append(filename);
    proof {
        assert(chars@.subrange(0, i as int) =~= chars@.take(i as int));
    }
    r
}

/// Filesystem file handler: resolves an included file against the
/// directory of the including file. Reading files is done where the
/// filesystem is at hand, outside this library.
pub struct DefaultFileHandler {
    base_dir: String,
}

impl View for DefaultFileHandler {
    type V = Seq<char>;

    /// The directory the handler was made for.
    closed spec fn view(&self) -> Seq<char> {
        self.base_dir@
    }
}

impl DefaultFileHandler {
    pub fn new(base_dir: &str) -> (r: Self)
        ensures
            r@ == base_dir@,
    {
        Self { base_dir: String::from_str(base_dir) }
    }

    /// The path of `filename` included from `current_file`.
    pub fn resolve(&self, filename: &str, current_file: &str) -> (r: String)
        ensures
            r@ == resolved_path(filename@, current_file@),
    {
        resolve_include_path(filename, current_file)
    }
}

/// Memory file handler for testing
pub struct MemoryFileHandler {
    files: Vec<(String, String)>,
}

/// The contents stored for `path`: the last entry with that name.
pub open spec fn lookup_file(files: Seq<(Seq<char>, Seq<char>)>, path: Seq<char>) -> Option<Seq<char>>
    decreases files.len(),
{
    if files.len() == 0 {
        None
    } else if files.last().0 == path {
        Some(files.last().1)
    } else {
        lookup_file(files.drop_last(), path)
    }
}

impl View for MemoryFileHandler {
    type V = Seq<(Seq<char>, Seq<char>)>;

    closed spec fn view(&self) -> Seq<(Seq<char>, Seq<char>)> {
        self.files@.map_values(|f: (String, String)| (f.0@, f.1@))
    }
}

impl MemoryFileHandler {
    /// A handler serving the given files (name, contents); where a name
    /// occurs twice the later entry wins.
    pub fn new(files: Vec<(String, String)>) -> (r: Self)
        ensures
            r@ == files@.map_values(|f: (String, String)| (f.0@, f.1@)),
    {
        Self { files }
    }
}

impl FileHandler for MemoryFileHandler {
    fn resolve(&self, filename: &str, _current_file: &str) -> (r: String)
        ensures
            r@ == filename@,
    {
        String::from_str(filename)
    }

    fn read(&self, resolved_path: &str) -> (r: Result<String, String>)
        ensures
            match lookup_file(self@, resolved_path@) {
                Some(contents) => r is Ok && r->Ok_0@ == contents,
                None => r is Err && r->Err_0@ == "File not found: "@ + resolved_path@,
            },
    {
        let mut i = self.files.len();
        assert(self@.take(i as int) =~= self@);
        while i > 0
            invariant
                i <= self.files.len(),
                lookup_file(self@.take(i as int), resolved_path@) == lookup_file(self@, resolved_path@),
            decreases i,
        {
            proof {
                assert(self@.take(i as int).drop_last() =~= self@.take(i - 1));
                assert(self@.take(i as int).last() == self@[i - 1]);
                assert(self@[i - 1] == (self.files@[i - 1].0@, self.files@[i - 1].1@));
            }
            if crate::text::str_equal(self.files[i - 1].0.as_str(), resolved_path) {
                return Ok(String::from_str(self.files[i - 1].1.as_str()));
            }
            i = i - 1;
        }
        Err(crate::text::concat_strs("File not found: ", resolved_path))
    }
}

/// Whitespace, `INCLUDE`, whitespace, and the rest of the line, trimmed, as
/// the file name (`INCLUDE other.ink` names `other.ink`), then the newline.
/// Nothing when the name is empty.
#[verifier::opaque]
pub open spec fn parse_include_spec(pv: ParserView) -> (ParserView, Option<Seq<char>>) {
    let (p1, _) = pv.parse_whitespace();
    let (p2, ok) = p1.parse_string("INCLUDE"@);
    if !ok {
        (p2, None)
    } else {
        let (p3, _) = p2.parse_whitespace();
        let (p4, rest) = p3.parse_until_newline();
        let name = trimmed(rest);
        if name.len() == 0 {
            (p4, None)
        } else {
            (p4.parse_newline().0, Some(name))
        }
    }
}

/// Parse an INCLUDE statement: INCLUDE filename.ink
pub fn parse_include(p: &mut Parser) -> (r: Option<String>)
    requires
        old(p).wf(),
    ensures
        final(p).wf(),
        final(p)@.same_source(old(p)@),
        (final(p)@, opt_chars(r)) == parse_include_spec(old(p)@),
        r is Some ==> old(p)@.pos < final(p)@.pos,
{
    proof {
        reveal(parse_include_spec);
    }
    p.parse_whitespace();
    if p.parse_string("INCLUDE").is_none() {
        return None;
    }
    p.parse_whitespace();

    let rest = p.parse_until_newline();
    let filename = trim_str(rest.as_str());
    if filename.unicode_len() == 0 {
        return None;
    }
    p.parse_newline();

    Some(filename)
}

} // verus!
