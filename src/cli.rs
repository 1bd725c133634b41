//! The commands, their arguments, and the text of their outputs.
use vstd::prelude::*;

use crate::cache::{
    extension, path_extension, CacheDirNotSupported, CAIRO_FOUNDRY_CACHE_DIR,
    CAIRO_FOUNDRY_COMPILED_CONTRACT_DIR,
};
use crate::hint::strings_view;
use crate::list::{joined_lines, ListArgs, ListOutput};
use crate::text::str_eq;

verus! {

/// Steps a test entrypoint may execute unless told otherwise.
pub const DEFAULT_MAX_STEPS: u64 = 1000000;

/// Arguments of the test command: where to look for test files, and the step
/// budget of each entrypoint.
pub struct TestArgs {
    pub root: String,
    pub max_steps: u64,
}

impl TestArgs {
    /// Tests under `root` with the default step budget.
    pub fn new(root: String) -> (r: TestArgs)
        ensures
            r.root@ == root@,
            r.max_steps == DEFAULT_MAX_STEPS,
    {
        TestArgs { root, max_steps: DEFAULT_MAX_STEPS }
    }
}

/// Arguments of the clean command (none).
pub struct CleanArgs {}

/// The cache directories the clean command visited, each with whether it
/// existed and was removed.
pub struct CleanOutput {
    pub dirs: Vec<(String, bool)>,
}

/// Why the clean command failed.
pub enum CleanCommandError {
    CacheDirNotSupported(CacheDirNotSupported),
    DirDeletion { dir: String, err: String },
}

/// The report line of one visited directory.
pub open spec fn clean_line(dir: Seq<char>, deleted: bool) -> Seq<char> {
    if deleted {
        "cleaned: "@ + dir + "\n"@
    } else {
        "not found: "@ + dir + "\n"@
    }
}

/// The report lines of `dirs`, in order.
pub open spec fn clean_lines(dirs: Seq<(String, bool)>) -> Seq<char>
    decreases dirs.len(),
{
    if dirs.len() == 0 {
        Seq::empty()
    } else {
        clean_lines(dirs.drop_last()) + clean_line(dirs.last().0@, dirs.last().1)
    }
}

impl CleanOutput {
    /// One line per directory, then a closing line.
    pub fn to_text(&self) -> (r: String)
        ensures
            r@ == clean_lines(self.dirs@) + "Cache cleaned successfully.\n"@,
    {
        let mut out = String::new();
        let mut i: usize = 0;
        while i < self.dirs.len()
            invariant
                i <= self.dirs@.len(),
                out@ == clean_lines(self.dirs@.subrange(0, i as int)),
            decreases self.dirs@.len() - i,
        {
            proof {
                assert(self.dirs@.subrange(0, i + 1).drop_last() =~= self.dirs@.subrange(0, i as int));
            }
            let (dir, deleted) = &self.dirs[i];
            if *deleted {
                out.append("cleaned: ");
            } else {
                out.append("not found: ");
            }
            out.append(dir.as_str());
            out.append("\n");
            proof {
                assert(out@ =~= clean_lines(self.dirs@.subrange(0, i as int)) + clean_line(
                    dir@,
                    *deleted,
                ));
            }
            i = i + 1;
        }
        proof {
            assert(self.dirs@.subrange(0, self.dirs@.len() as int) =~= self.dirs@);
        }
        out.append("Cache cleaned successfully.\n");
        out
    }
}

/// The directories the clean command removes, under the cache directory.
pub fn paths_to_clean(cache_dir: &str) -> (r: Vec<String>)
    ensures
        strings_view(r@) == seq![
            cache_dir@ + "/"@ + CAIRO_FOUNDRY_CACHE_DIR@,
            cache_dir@ + "/"@ + CAIRO_FOUNDRY_COMPILED_CONTRACT_DIR@,
        ],
{
    let mut compiled = String::from_str(cache_dir);
    compiled.append("/");
    compiled.append(CAIRO_FOUNDRY_CACHE_DIR);
    let mut contracts = String::from_str(cache_dir);
    contracts.append("/");
    contracts.append(CAIRO_FOUNDRY_COMPILED_CONTRACT_DIR);
    let mut r: Vec<String> = Vec::new();
    r.push(compiled);
    r.push(contracts);
    proof {
        assert(strings_view(r@) =~= seq![
            cache_dir@ + "/"@ + CAIRO_FOUNDRY_CACHE_DIR@,
            cache_dir@ + "/"@ + CAIRO_FOUNDRY_COMPILED_CONTRACT_DIR@,
        ]);
    }
    r
}

/// What the test command prints.
pub struct TestOutput(pub String);

impl TestOutput {
    pub fn to_text(&self) -> (r: String)
        ensures
            r@ == self.0@,
    {
        self.0.clone()
    }
}

/// Arguments of the execute command: the program to run.
pub struct ExecuteArgs {
    pub program: String,
}

/// The bytes a program printed.
pub struct ExecuteOutput(pub Vec<u8>);

impl ExecuteOutput {
    /// Appends `buf`; all of it is taken.
    pub fn write(&mut self, buf: &[u8]) -> (r: usize)
        ensures
            final(self).0@ == old(self).0@ + buf@,
            r == buf@.len(),
    {
        let mut i: usize = 0;
        while i < buf.len()
            invariant
                i <= buf@.len(),
                self.0@ == old(self).0@ + buf@.subrange(0, i as int),
            decreases buf@.len() - i,
        {
            self.0.push(buf[i]);
            proof {
                assert(buf@.subrange(0, i + 1) =~= buf@.subrange(0, i as int).push(buf@[i as int]));
                assert(self.0@ =~= old(self).0@ + buf@.subrange(0, i + 1));
            }
            i = i + 1;
        }
        proof {
            assert(buf@.subrange(0, buf@.len() as int) =~= buf@);
        }
        buf.len()
    }

    /// Nothing is buffered: there is nothing to flush.
    pub fn flush(&mut self) -> (r: Result<(), ()>)
        ensures
            r is Ok,
            final(self).0@ == old(self).0@,
    {
        Ok(())
    }
}

/// Accepts `path` when it names a file, as the caller found on disk, whose
/// extension is `expected`.
fn check_file_with_extension(path: &str, is_file: bool, expected: &str, kind_error: &str) -> (r:
    Result<String, String>)
    ensures
        !is_file ==> (r matches Err(m) && m@ == "\""@ + path@ + "\" is not a valid file"@),
        is_file && extension(path@) == Some(expected@) ==> (r matches Ok(p) && p@ == path@),
        is_file && extension(path@) != Some(expected@) ==> (r matches Err(m) && m@ == "\""@
            + path@ + kind_error@),
{
    if !is_file {
        let mut m = String::from_str("\"");
        m.append(path);
        m.append("\" is not a valid file");
        return Err(m);
    }
    let matches = match path_extension(path) {
        Some(ext) => str_eq(ext, expected),
        None => false,
    };
    if matches {
        Ok(path.to_string())
    } else {
        let mut m = String::from_str("\"");
        m.append(path);
        m.append(kind_error);
        Err(m)
    }
}

/// Accepts a compiled program: a file, as the caller found on disk, ending
/// in `.json`.
pub fn is_json(path: &str, is_file: bool) -> (r: Result<String, String>)
    ensures
        !is_file ==> (r matches Err(m) && m@ == "\""@ + path@ + "\" is not a valid file"@),
        is_file && extension(path@) == Some("json"@) ==> (r matches Ok(p) && p@ == path@),
        is_file && extension(path@) != Some("json"@) ==> (r matches Err(m) && m@ == "\""@ + path@
            + "\" is not a json file"@),
{
    check_file_with_extension(path, is_file, "json", "\" is not a json file")
}

/// Accepts a source program: a file, as the caller found on disk, ending in
/// `.cairo`.
pub fn is_cairo(path: &str, is_file: bool) -> (r: Result<String, String>)
    ensures
        !is_file ==> (r matches Err(m) && m@ == "\""@ + path@ + "\" is not a valid file"@),
        is_file && extension(path@) == Some("cairo"@) ==> (r matches Ok(p) && p@ == path@),
        is_file && extension(path@) != Some("cairo"@) ==> (r matches Err(m) && m@ == "\""@ + path@
            + "\" is not a cairo file"@),
{
    check_file_with_extension(path, is_file, "cairo", "\" is not a cairo file")
}

/// The supported commands.
pub enum Commands {
    List(ListArgs),
    Test(TestArgs),
    Clean(CleanArgs),
}

/// The command line: a command, and whether to print its output as JSON.
pub struct Args {
    pub command: Commands,
    pub json: bool,
}

/// Why a command failed, with the failing command's message.
pub enum CommandError {
    ListCommandError(String),
    TestCommandError(String),
    CleanCommandError(CleanCommandError),
}

/// The output of whichever command ran.
pub enum CommandOutputs {
    List(ListOutput),
    Test(TestOutput),
    Clean(CleanOutput),
}

/// The executed command's output.
pub struct Output(pub CommandOutputs);

impl Output {
    /// The output as text.
    pub fn to_text(&self) -> (r: String)
        ensures
            r@ == match self.0 {
                CommandOutputs::List(o) => joined_lines(strings_view(o.files@)),
                CommandOutputs::Test(o) => o.0@,
                CommandOutputs::Clean(o) => clean_lines(o.dirs@) + "Cache cleaned successfully.\n"@,
            },
    {
        match &self.0 {
            CommandOutputs::List(o) => o.to_text(),
            CommandOutputs::Test(o) => o.to_text(),
            CommandOutputs::Clean(o) => o.to_text(),
        }
    }
}

/// Prints outputs as JSON.
pub struct JsonFormatter {}

/// Prints outputs as text.
pub struct TextFormatter {}

impl TextFormatter {
    /// Text is printed as it is.
    pub fn format(&self, text: &str) -> (r: String)
        ensures
            r@ == text@,
    {
        text.to_string()
    }
}

/// The available formatters.
pub enum Formatters {
    Text(TextFormatter),
    JSON(JsonFormatter),
}

/// The formatter the command line asks for: JSON with `--json`, else text.
pub fn make(args: &Args) -> (r: Formatters)
    ensures
        args.json <==> r is JSON,
{
    if args.json {
        Formatters::JSON(JsonFormatter {})
    } else {
        Formatters::Text(TextFormatter {})
    }
}

} // verus!
