//! The compile cache: records keyed by the source's content hash, so that an
//! unchanged source is never compiled twice.
use vstd::prelude::*;
use vstd::std_specs::hash::DefaultHasherAdditionalSpecFns;
use vstd::utf8::encode_utf8;
use std::collections::hash_map::DefaultHasher;
use std::hash::Hasher;

use crate::text::{decimal, decimal_text, rfind, rfind_char, str_eq};

verus! {

pub const JSON_FILE_EXTENTION: &'static str = "json";

pub const CAIRO_FOUNDRY_CACHE_DIR: &'static str = "cairo-foundry-cache";

pub const CAIRO_FOUNDRY_COMPILED_CONTRACT_DIR: &'static str = "compiled-cairo-files";

/// Where a contract's cache record and compiled program are kept, and the
/// hash of the source they were made from.
pub struct Cache {
    pub contract_path: String,
    pub compiled_contract_path: String,
    pub hash: String,
}

/// The platform has no cache directory.
pub struct CacheDirNotSupported;

/// Why a cache path could not be derived.
pub enum CacheError {
    CacheDirNotSupported(CacheDirNotSupported),
    /// The source does not end in `.cairo`; holds its extension, or a space
    /// when it has none.
    InvalidContractExtension(String),
    /// The path names no file; holds the path.
    StemlessFile(String),
}

/// The fast, non-cryptographic hash of `bytes`: one write of them into a
/// fresh `DefaultHasher`.
pub open spec fn content_hash(bytes: Seq<u8>) -> u64 {
    DefaultHasher::spec_finish(seq![bytes])
}

/// Hashes `data` for the cache.
pub fn hash(data: &[u8]) -> (r: u64)
    ensures
        r == content_hash(data@),
{
    let mut s = DefaultHasher::new();
    s.write(data);
    s.finish()
}

/// The last component of `path`, unless it is empty, `.` or `..`.
pub open spec fn file_name(path: Seq<char>) -> Option<Seq<char>> {
    let name = match rfind(path, '/') {
        Some(k) => path.subrange(k + 1, path.len() as int),
        None => path,
    };
    if name.len() == 0 || name == seq!['.'] || name == seq!['.', '.'] {
        None
    } else {
        Some(name)
    }
}

/// The file name of `path` without its extension.
pub open spec fn file_stem(path: Seq<char>) -> Option<Seq<char>> {
    match file_name(path) {
        Some(name) => match rfind(name, '.') {
            Some(k) => if k == 0 {
                Some(name)
            } else {
                Some(name.subrange(0, k))
            },
            None => Some(name),
        },
        None => None,
    }
}

/// What follows the last `.` of the file name of `path`, if one stands after
/// its first character.
pub open spec fn extension(path: Seq<char>) -> Option<Seq<char>> {
    match file_name(path) {
        Some(name) => match rfind(name, '.') {
            Some(k) => if k == 0 {
                None
            } else {
                Some(name.subrange(k + 1, name.len() as int))
            },
            None => None,
        },
        None => None,
    }
}

/// The file name of `path`, as `Path::file_name` gives it for a plain
/// slash-separated path.
pub fn path_file_name(path: &str) -> (r: Option<&str>)
    ensures
        match r {
            Some(s) => file_name(path@) == Some(s@),
            None => file_name(path@) is None,
        },
{
    let n = path.unicode_len();
    let name = match rfind_char(path, '/') {
        Some(k) => path.substring_char(k + 1, n),
        None => path,
    };
    let len = name.unicode_len();
    if len == 0 || (len == 1 && name.get_char(0) == '.') || (len == 2 && name.get_char(0) == '.'
        && name.get_char(1) == '.') {
        proof {
            if len == 1 {
                assert(name@ =~= seq!['.']);
            }
            if len == 2 {
                assert(name@ =~= seq!['.', '.']);
            }
        }
        None
    } else {
        proof {
            if len == 1 {
                assert(name@ != seq!['.']) by {
                    assert(name@[0] != seq!['.'][0]);
                }
            }
            if len == 2 {
                assert(name@ != seq!['.', '.']) by {
                    if name@[0] == '.' {
                        assert(name@[1] != seq!['.', '.'][1]);
                    } else {
                        assert(name@[0] != seq!['.', '.'][0]);
                    }
                }
            }
        }
        Some(name)
    }
}

/// The file stem of `path`, as `Path::file_stem` gives it.
pub fn path_file_stem(path: &str) -> (r: Option<&str>)
    ensures
        match r {
            Some(s) => file_stem(path@) == Some(s@),
            None => file_stem(path@) is None,
        },
{
    match path_file_name(path) {
        Some(name) => match rfind_char(name, '.') {
            Some(k) => if k == 0 {
                Some(name)
            } else {
                Some(name.substring_char(0, k))
            },
            None => Some(name),
        },
        None => None,
    }
}

/// The extension of `path`, as `Path::extension` gives it.
pub fn path_extension(path: &str) -> (r: Option<&str>)
    ensures
        match r {
            Some(s) => extension(path@) == Some(s@),
            None => extension(path@) is None,
        },
{
    match path_file_name(path) {
        Some(name) => match rfind_char(name, '.') {
            Some(k) => if k == 0 {
                None
            } else {
                let n = name.unicode_len();
                Some(name.substring_char(k + 1, n))
            },
            None => None,
        },
        None => None,
    }
}

/// Accepts only paths whose extension is `cairo`.
pub fn is_valid_cairo_contract(contract_path: &str) -> (r: Result<(), CacheError>)
    ensures
        match extension(contract_path@) {
            Some(ext) => if ext == "cairo"@ {
                r is Ok
            } else {
                r matches Err(CacheError::InvalidContractExtension(e)) && e@ == ext
            },
            None => r matches Err(CacheError::InvalidContractExtension(e)) && e@ == " "@,
        },
{
    match path_extension(contract_path) {
        Some(ext) => if str_eq(ext, "cairo") {
            Ok(())
        } else {
            Err(CacheError::InvalidContractExtension(ext.to_string()))
        },
        None => Err(CacheError::InvalidContractExtension(String::from_str(" "))),
    }
}

/// The record path of the source at `path`, under `cache_root`: named by the
/// file's stem and the hash of its path, so that same-named files in different
/// directories do not share a record.
pub open spec fn cache_path_of(path: Seq<char>, cache_root: Seq<char>) -> Seq<char> {
    cache_root + "/"@ + CAIRO_FOUNDRY_CACHE_DIR@ + "/"@ + file_stem(path).unwrap() + "_"@
        + decimal_text(content_hash(encode_utf8(path)) as nat) + "."@ + JSON_FILE_EXTENTION@
}

/// Derives the record path of the source at `path`; fails when the path names
/// no file.
pub fn get_compile_cache_path(path: &str, cache_root: &str) -> (r: Result<String, CacheError>)
    ensures
        match file_stem(path@) {
            Some(_) => r matches Ok(p) && p@ == cache_path_of(path@, cache_root@),
            None => r matches Err(CacheError::StemlessFile(p)) && p@ == path@,
        },
{
    let stem = match path_file_stem(path) {
        Some(s) => s,
        None => {
            return Err(CacheError::StemlessFile(path.to_string()));
        },
    };
    let path_hash = hash(path.as_bytes());
    let mut out = String::from_str(cache_root);
    out.append("/");
    out.append(CAIRO_FOUNDRY_CACHE_DIR);
    out.append("/");
    out.append(stem);
    out.append("_");
    out.append(decimal(path_hash).as_str());
    out.append(".");
    out.append(JSON_FILE_EXTENTION);
    Ok(out)
}

/// One cache record: the hash of the source it was compiled from, and the
/// compiled program as JSON text.
pub struct CompileCacheItem {
    pub hash: u64,
    pub program_json: String,
}

impl PartialEq for CompileCacheItem {
    /// Records are equal when they were made from the same source hash.
    fn eq(&self, other: &Self) -> (r: bool)
        ensures
            r == (self.hash == other.hash),
    {
        self.hash == other.hash
    }
}

impl vstd::std_specs::cmp::PartialEqSpecImpl for CompileCacheItem {
    open spec fn obeys_eq_spec() -> bool {
        true
    }

    open spec fn eq_spec(&self, other: &Self) -> bool {
        self.hash == other.hash
    }
}

/// What compiling a source asks for, given the record found for it: its
/// artifact when the record was made from the same content, else nothing
/// (a compilation is due).
pub open spec fn cached_artifact(source: Seq<u8>, record: Option<(u64, Seq<char>)>) -> Option<
    Seq<char>,
> {
    match record {
        Some((h, artifact)) => if h == content_hash(source) {
            Some(artifact)
        } else {
            None
        },
        None => None,
    }
}

pub open spec fn record_view(record: Option<&CompileCacheItem>) -> Option<(u64, Seq<char>)> {
    match record {
        Some(item) => Some((item.hash, item.program_json@)),
        None => None,
    }
}

/// How a source gets its compiled program.
pub enum CompilePlan {
    /// The record is current: its artifact is the program, and the compiler
    /// is not run.
    UseCached(String),
    /// The compiler must run; its output is recorded under this hash.
    Compile(u64),
}

/// Decides, from the source's bytes and the record found at its cache path
/// (none when there is none or it could not be read), whether to compile.
pub fn plan_compile(source: &[u8], record: Option<&CompileCacheItem>) -> (r: CompilePlan)
    ensures
        match cached_artifact(source@, record_view(record)) {
            Some(artifact) => r matches CompilePlan::UseCached(a) && a@ == artifact,
            None => r == CompilePlan::Compile(content_hash(source@)),
        },
{
    let h = hash(source);
    match record {
        Some(item) => if item.hash == h {
            CompilePlan::UseCached(item.program_json.clone())
        } else {
            CompilePlan::Compile(h)
        },
        None => CompilePlan::Compile(h),
    }
}

/// The record to store after compiling a source whose content hash is `hash`.
pub fn new_cache_item(hash: u64, program_json: String) -> (r: CompileCacheItem)
    ensures
        r.hash == hash,
        r.program_json@ == program_json@,
{
    CompileCacheItem { hash, program_json }
}

/// Compiling the same content twice runs the compiler once: after the record
/// of a compilation is stored, the same bytes get back exactly the stored
/// artifact. Content with another hash misses, even though the stale record
/// stands at the same path.
pub proof fn lemma_cache_hit_after_store(source: Seq<u8>, artifact: Seq<char>, changed: Seq<u8>)
    ensures
        cached_artifact(source, Some((content_hash(source), artifact))) == Some(artifact),
        content_hash(changed) != content_hash(source) ==> cached_artifact(
            changed,
            Some((content_hash(source), artifact)),
        ) is None,
{
}

} // verus!
