use cairo_foundry::cache::{
    get_compile_cache_path, hash, is_valid_cairo_contract, new_cache_item, path_extension,
    path_file_stem, plan_compile, CacheError, CompilePlan,
};

#[test]
fn same_source_hits_changed_source_misses() {
    let source = b"func main() { return (); }".to_vec();
    let h = match plan_compile(&source, None) {
        CompilePlan::Compile(h) => h,
        CompilePlan::UseCached(_) => panic!("nothing was cached"),
    };
    assert_eq!(hash(&source), h);
    let record = new_cache_item(h, String::from("{\"data\":[]}"));
    match plan_compile(&source, Some(&record)) {
        CompilePlan::UseCached(a) => assert_eq!("{\"data\":[]}", a),
        CompilePlan::Compile(_) => panic!("unchanged source was recompiled"),
    }
    let changed = b"func main() { return (1); }".to_vec();
    assert_ne!(hash(&changed), h);
    match plan_compile(&changed, Some(&record)) {
        CompilePlan::Compile(h2) => assert_eq!(hash(&changed), h2),
        CompilePlan::UseCached(_) => panic!("stale record was used"),
    }
}

#[test]
fn records_compare_by_hash() {
    assert!(new_cache_item(10, String::new()) == new_cache_item(10, String::from("updated")));
    assert!(new_cache_item(10, String::new()) != new_cache_item(20, String::new()));
}

#[test]
fn cache_path_from_stem_and_path_hash() {
    let p = get_compile_cache_path("dir/test_a.cairo", "/tmp/c").ok().unwrap();
    let expected = format!("/tmp/c/cairo-foundry-cache/test_a_{}.json", hash(b"dir/test_a.cairo"));
    assert_eq!(expected, p);
    let q = get_compile_cache_path("other/test_a.cairo", "/tmp/c").ok().unwrap();
    assert_ne!(p, q);
    match get_compile_cache_path("dir/..", "/tmp/c") {
        Err(CacheError::StemlessFile(s)) => assert_eq!("dir/..", s),
        _ => panic!("expected a stemless file"),
    }
}

#[test]
fn paths_and_extensions() {
    assert_eq!(Some("test_a"), path_file_stem("x/test_a.cairo"));
    assert_eq!(Some(".hidden"), path_file_stem("x/.hidden"));
    assert_eq!(Some("a.b"), path_file_stem("a.b.c"));
    assert_eq!(Some("cairo"), path_extension("x/test_a.cairo"));
    assert_eq!(None, path_extension("x/.hidden"));
    assert_eq!(None, path_extension("x/y/"));
    assert!(is_valid_cairo_contract("a/test.cairo").is_ok());
    match is_valid_cairo_contract("a/test.json") {
        Err(CacheError::InvalidContractExtension(e)) => assert_eq!("json", e),
        _ => panic!("expected an invalid extension"),
    }
    match is_valid_cairo_contract("a/test") {
        Err(CacheError::InvalidContractExtension(e)) => assert_eq!(" ", e),
        _ => panic!("expected an invalid extension"),
    }
}
