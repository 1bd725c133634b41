//! Finding tests: test files under a directory, test entrypoints in a
//! compiled program.
use vstd::prelude::*;

use crate::hint::strings_view;
use crate::pattern::{capture, is_match, regex_capture, regex_match};
use crate::text::str_eq;

verus! {

/// File names of test files: `test_` first, `.cairo` last.
pub const TEST_FILE_PATTERN: &'static str = r"^test_.*\.cairo$";

/// Qualified names of test entrypoints; group 1 is the entrypoint's name.
pub const TEST_ENTRYPOINT_PATTERN: &'static str = r"__main__.(test_\w+)$";

/// Arguments of the listing command: the directory to search.
pub struct ListArgs {
    pub root: String,
}

/// The test files found, one path per line.
pub struct ListOutput {
    pub files: Vec<String>,
}

/// A listing of the test files under `root`, from a walk of it.
pub struct List {
    pub root: String,
}

/// The test files a `List` found, sorted.
pub struct Output {
    pub files: Vec<String>,
}

/// `lines` joined with a newline between each two.
pub open spec fn joined_lines(lines: Seq<Seq<char>>) -> Seq<char>
    decreases lines.len(),
{
    if lines.len() == 0 {
        Seq::empty()
    } else if lines.len() == 1 {
        lines[0]
    } else {
        joined_lines(lines.drop_last()) + "\n"@ + lines.last()
    }
}

fn join_lines(lines: &Vec<String>) -> (r: String)
    ensures
        r@ == joined_lines(strings_view(lines@)),
{
    let mut out = String::new();
    let mut i: usize = 0;
    while i < lines.len()
        invariant
            i <= lines@.len(),
            out@ == joined_lines(strings_view(lines@.subrange(0, i as int))),
        decreases lines@.len() - i,
    {
        proof {
            let p = strings_view(lines@.subrange(0, i + 1));
            assert(p.drop_last() =~= strings_view(lines@.subrange(0, i as int)));
            assert(p.last() == lines@[i as int]@);
        }
        if i > 0 {
            out.append("\n");
        } else {
            proof {
                assert(Seq::<char>::empty() + lines@[0]@ =~= lines@[0]@);
            }
        }
        out.append(lines[i].as_str());
        i = i + 1;
    }
    proof {
        assert(lines@.subrange(0, lines@.len() as int) =~= lines@);
    }
    out
}

impl ListOutput {
    /// The paths, one per line, with no newline after the last.
    pub fn to_text(&self) -> (r: String)
        ensures
            r@ == joined_lines(strings_view(self.files@)),
    {
        join_lines(&self.files)
    }
}

impl Output {
    /// The paths, one per line, with no newline after the last.
    pub fn to_text(&self) -> (r: String)
        ensures
            r@ == joined_lines(strings_view(self.files@)),
    {
        join_lines(&self.files)
    }
}

/// Accepts `path` as the root to search when it names a directory, which
/// the caller has looked up on disk.
pub fn path_is_valid_directory(path: &str, is_directory: bool) -> (r: Result<String, String>)
    ensures
        is_directory ==> (r matches Ok(p) && p@ == path@),
        !is_directory ==> (r matches Err(m) && m@ == "\""@ + path@ + "\" is not a valid directory"@),
{
    if is_directory {
        Ok(path.to_string())
    } else {
        let mut m = String::from_str("\"");
        m.append(path);
        m.append("\" is not a valid directory");
        Err(m)
    }
}

/// One entry met while walking a directory.
pub struct WalkedEntry {
    pub path: String,
    pub file_name: String,
    pub is_file: bool,
}

/// The entry is a test file.
pub open spec fn is_test_file(e: WalkedEntry) -> bool {
    e.is_file && regex_match(TEST_FILE_PATTERN@, e.file_name@)
}

/// The paths of the test files among `entries`, in walking order.
pub open spec fn test_file_paths(entries: Seq<WalkedEntry>) -> Seq<Seq<char>>
    decreases entries.len(),
{
    if entries.len() == 0 {
        Seq::empty()
    } else {
        let head = test_file_paths(entries.drop_last());
        if is_test_file(entries.last()) {
            head.push(entries.last().path@)
        } else {
            head
        }
    }
}

/// The paths in the order `slice::sort` gives `PathBuf`s.
pub uninterp spec fn sorted_paths(paths: Seq<Seq<char>>) -> Seq<Seq<char>>;

/// Relies on `slice::sort` on `PathBuf`, which compares paths component by
/// component and only reorders its items.
#[verifier::external_body]
fn sort_paths(paths: Vec<String>) -> (r: Vec<String>)
    ensures
        strings_view(r@) == sorted_paths(strings_view(paths@)),
        strings_view(r@).to_multiset() == strings_view(paths@).to_multiset(),
{
    let mut v: Vec<std::path::PathBuf> = paths.into_iter().map(std::path::PathBuf::from).collect();
    v.sort();
    v.into_iter().map(|p| p.to_string_lossy().into_owned()).collect()
}

/// The test files among the entries of a directory walk, sorted as paths.
pub fn select_test_files(entries: &Vec<WalkedEntry>) -> (r: Vec<String>)
    ensures
        strings_view(r@) == sorted_paths(test_file_paths(entries@)),
        strings_view(r@).to_multiset() == test_file_paths(entries@).to_multiset(),
{
    let mut found: Vec<String> = Vec::new();
    let mut i: usize = 0;
    while i < entries.len()
        invariant
            i <= entries@.len(),
            strings_view(found@) == test_file_paths(entries@.subrange(0, i as int)),
        decreases entries@.len() - i,
    {
        proof {
            assert(entries@.subrange(0, i + 1).drop_last() =~= entries@.subrange(0, i as int));
        }
        let e = &entries[i];
        if e.is_file && is_match(TEST_FILE_PATTERN, e.file_name.as_str()) {
            found.push(e.path.clone());
            proof {
                assert(strings_view(found@) =~= test_file_paths(entries@.subrange(0, i as int)).push(
                    e.path@,
                ));
            }
        }
        i = i + 1;
    }
    proof {
        assert(entries@.subrange(0, entries@.len() as int) =~= entries@);
    }
    sort_paths(found)
}

/// An identifier of a compiled program, with its kind (`function`,
/// `type_definition`, ...).
pub struct Identifier {
    pub name: String,
    pub type_: Option<String>,
    /// The type it defines, for a type definition.
    pub cairo_type: Option<String>,
}

/// The entrypoint that `id` declares, if it is a test function.
pub open spec fn entrypoint_of(id: Identifier) -> Option<Seq<char>> {
    if id.type_ matches Some(t) && t@ == "function"@ {
        regex_capture(TEST_ENTRYPOINT_PATTERN@, id.name@, 1)
    } else {
        None
    }
}

/// The test entrypoints among `ids`, in order.
pub open spec fn entrypoints(ids: Seq<Identifier>) -> Seq<Seq<char>>
    decreases ids.len(),
{
    if ids.len() == 0 {
        Seq::empty()
    } else {
        match entrypoint_of(ids.last()) {
            Some(e) => entrypoints(ids.drop_last()).push(e),
            None => entrypoints(ids.drop_last()),
        }
    }
}

/// The names of the test entrypoints of a program: its functions whose
/// qualified name is `__main__.test_...`.
pub fn list_test_entrypoints(identifiers: &Vec<Identifier>) -> (r: Vec<String>)
    ensures
        strings_view(r@) == entrypoints(identifiers@),
{
    let mut found: Vec<String> = Vec::new();
    let mut i: usize = 0;
    while i < identifiers.len()
        invariant
            i <= identifiers@.len(),
            strings_view(found@) == entrypoints(identifiers@.subrange(0, i as int)),
        decreases identifiers@.len() - i,
    {
        proof {
            assert(identifiers@.subrange(0, i + 1).drop_last() =~= identifiers@.subrange(0, i as int));
        }
        let id = &identifiers[i];
        let is_function = match &id.type_ {
            Some(t) => str_eq(t.as_str(), "function"),
            None => false,
        };
        if is_function {
            let c = capture(TEST_ENTRYPOINT_PATTERN, id.name.as_str(), 1);
            match c {
                Some(name) => {
                    found.push(name);
                    proof {
                        assert(strings_view(found@) =~= entrypoints(
                            identifiers@.subrange(0, i as int),
                        ).push(entrypoint_of(identifiers@[i as int]).unwrap()));
                    }
                },
                None => {},
            }
        }
        i = i + 1;
    }
    proof {
        assert(identifiers@.subrange(0, identifiers@.len() as int) =~= identifiers@);
    }
    found
}

/// The first failure among the results of a directory walk, if any.
pub open spec fn first_walk_error(walked: Seq<Result<WalkedEntry, String>>) -> Option<Seq<char>>
    decreases walked.len(),
{
    if walked.len() == 0 {
        None
    } else {
        match first_walk_error(walked.drop_last()) {
            Some(m) => Some(m),
            None => match walked.last() {
                Err(m) => Some(m@),
                Ok(_) => None,
            },
        }
    }
}

/// The entries of a walk whose results are all entries.
pub open spec fn walked_entries(walked: Seq<Result<WalkedEntry, String>>) -> Seq<WalkedEntry>
    decreases walked.len(),
{
    if walked.len() == 0 {
        Seq::empty()
    } else {
        match walked.last() {
            Ok(e) => walked_entries(walked.drop_last()).push(e),
            Err(_) => walked_entries(walked.drop_last()),
        }
    }
}

impl List {
    /// Lists the test files of a walk of `root`, given what the walk met in
    /// order: the first failure of the walk, or the test files found, sorted.
    pub fn exec(&self, walked: &Vec<Result<WalkedEntry, String>>) -> (r: Result<Output, String>)
        ensures
            match first_walk_error(walked@) {
                Some(m) => r matches Err(e) && e@ == m,
                None => r matches Ok(o) && strings_view(o.files@) == sorted_paths(
                    test_file_paths(walked_entries(walked@)),
                ),
            },
    {
        let mut entries: Vec<WalkedEntry> = Vec::new();
        let mut i: usize = 0;
        while i < walked.len()
            invariant
                i <= walked@.len(),
                first_walk_error(walked@.subrange(0, i as int)) is None,
                entries@ == walked_entries(walked@.subrange(0, i as int)),
            decreases walked@.len() - i,
        {
            proof {
                assert(walked@.subrange(0, i + 1).drop_last() =~= walked@.subrange(0, i as int));
            }
            match &walked[i] {
                Ok(e) => {
                    entries.push(e.copy());
                },
                Err(m) => {
                    proof {
                        lemma_first_error_kept(walked@, i as int + 1);
                    }
                    return Err(m.clone());
                },
            }
            i = i + 1;
        }
        proof {
            assert(walked@.subrange(0, walked@.len() as int) =~= walked@);
        }
        Ok(Output { files: select_test_files(&entries) })
    }
}

impl WalkedEntry {
    /// A copy of the entry.
    pub fn copy(&self) -> (r: WalkedEntry)
        ensures
            r == *self,
    {
        WalkedEntry { path: self.path.clone(), file_name: self.file_name.clone(), is_file: self.is_file }
    }
}

proof fn lemma_first_error_kept(walked: Seq<Result<WalkedEntry, String>>, i: int)
    requires
        0 <= i <= walked.len(),
        first_walk_error(walked.subrange(0, i)) is Some,
    ensures
        first_walk_error(walked) == first_walk_error(walked.subrange(0, i)),
    decreases walked.len() - i,
{
    if i < walked.len() {
        assert(walked.subrange(0, i + 1).drop_last() =~= walked.subrange(0, i));
        lemma_first_error_kept(walked, i + 1);
    } else {
        assert(walked.subrange(0, i) =~= walked);
    }
}

} // verus!
