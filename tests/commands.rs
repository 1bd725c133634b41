use cairo_foundry::cli::{
    is_cairo, is_json, make, paths_to_clean, Args, CleanArgs, CleanOutput, CommandOutputs,
    Commands, Formatters, Output, TestArgs, TestOutput, TextFormatter,
};
use cairo_foundry::list::{
    List,
    list_test_entrypoints, path_is_valid_directory, select_test_files, Identifier, ListOutput,
    WalkedEntry,
};

#[test]
fn tests_output_can_display_as_string() {
    let output = CleanOutput {
        dirs: vec![(String::from("/dir1"), true), (String::from("/dir2"), false)],
    };
    let expected_output = "cleaned: /dir1\nnot found: /dir2\nCache cleaned successfully.\n";
    assert_eq!(expected_output, output.to_text());

    let output = ListOutput {
        files: vec![String::from("item 1"), String::from("item 2")],
    };
    assert_eq!("item 1\nitem 2", output.to_text());
}

#[test]
fn list_output_can_display_as_string() {
    let output = cairo_foundry::list::Output {
        files: vec![String::from("item 1"), String::from("item 2")],
    };
    assert_eq!("item 1\nitem 2", output.to_text());
}

#[test]
fn text_formatter_should_format_object() {
    struct MyObject {}
    impl std::fmt::Display for MyObject {
        fn fmt(&self, f: &mut std::fmt::Formatter<'_>) -> std::fmt::Result {
            f.write_str("Hello there!")
        }
    }
    assert_eq!("Hello there!", TextFormatter {}.format(&MyObject {}.to_string()));
}

fn entry(path: &str, is_file: bool) -> WalkedEntry {
    let file_name = path.rsplit('/').next().unwrap().to_string();
    WalkedEntry { path: path.to_string(), file_name, is_file }
}

#[test]
fn list_list_test_files_recursively() {
    // the entries a walk of ./test_starknet_projects meets, in the order it meets them
    let entries = vec![
        entry("./test_starknet_projects", false),
        entry("./test_starknet_projects/with_HashBuiltin", false),
        entry("./test_starknet_projects/with_HashBuiltin/test_contract.cairo", true),
        entry("./test_starknet_projects/compiled_programs", false),
        entry("./test_starknet_projects/compiled_programs/valid_program_a.json", true),
        entry("./test_starknet_projects/no_builtin", false),
        entry("./test_starknet_projects/no_builtin/contract.cairo", true),
        entry("./test_starknet_projects/no_builtin/test_contract.cairo", true),
    ];
    let result = select_test_files(&entries);
    assert_eq!(
        vec![
            String::from("./test_starknet_projects/no_builtin/test_contract.cairo"),
            String::from("./test_starknet_projects/with_HashBuiltin/test_contract.cairo"),
        ],
        result
    );
}

#[test]
fn select_test_files_wants_prefix_suffix_and_a_file() {
    let entries = vec![
        entry("a/test_mock_call.cairo.test", true),
        entry("a/failing.cairo", true),
        entry("a/test_dir.cairo", false),
        entry("a/test_.cairo", true),
        entry("a/test_b.cairo", true),
    ];
    assert_eq!(
        vec![String::from("a/test_.cairo"), String::from("a/test_b.cairo")],
        select_test_files(&entries)
    );
    assert!(select_test_files(&vec![]).is_empty());
}

#[test]
fn entrypoints_are_main_test_functions() {
    let ids = vec![
        Identifier { name: "__main__.test_mock_call".to_string(), type_: Some("function".to_string()), cairo_type: None },
        Identifier { name: "__main__.mocked".to_string(), type_: Some("function".to_string()), cairo_type: None },
        Identifier { name: "__main__.test_value".to_string(), type_: Some("const".to_string()), cairo_type: None },
        Identifier { name: "other.test_x".to_string(), type_: Some("function".to_string()), cairo_type: None },
        Identifier { name: "__main__.test_skip".to_string(), type_: None, cairo_type: None },
        Identifier { name: "__main__.test_b2".to_string(), type_: Some("function".to_string()), cairo_type: None },
    ];
    assert_eq!(
        vec![String::from("test_mock_call"), String::from("test_b2")],
        list_test_entrypoints(&ids)
    );
}

#[test]
fn directory_and_file_checks() {
    assert_eq!(Ok(String::from("./src")), path_is_valid_directory("./src", true));
    assert_eq!(
        Err(String::from("\"nowhere\" is not a valid directory")),
        path_is_valid_directory("nowhere", false)
    );
    assert_eq!(Ok(String::from("a/p.json")), is_json("a/p.json", true));
    assert_eq!(Err(String::from("\"a/p.cairo\" is not a json file")), is_json("a/p.cairo", true));
    assert_eq!(Err(String::from("\"a/p.json\" is not a valid file")), is_json("a/p.json", false));
    assert_eq!(Ok(String::from("t/test_a.cairo")), is_cairo("t/test_a.cairo", true));
    assert_eq!(Err(String::from("\"t/.cairo\" is not a cairo file")), is_cairo("t/.cairo", true));
}

#[test]
fn formatter_follows_json_flag() {
    let args = Args { command: Commands::Clean(CleanArgs {}), json: true };
    assert!(matches!(make(&args), Formatters::JSON(_)));
    let args = Args { command: Commands::Test(TestArgs::new(String::from("./"))), json: false };
    assert!(matches!(make(&args), Formatters::Text(_)));
}

#[test]
fn test_args_default_budget_and_outputs() {
    let args = TestArgs::new(String::from("./test_cairo_contracts"));
    assert_eq!(1000000, args.max_steps);
    let out = Output(CommandOutputs::Test(TestOutput(String::from("done"))));
    assert_eq!("done", out.to_text());
    assert_eq!(
        vec![String::from("/c/cairo-foundry-cache"), String::from("/c/compiled-cairo-files")],
        paths_to_clean("/c")
    );
}

fn walk(root: &str) -> Vec<Result<WalkedEntry, String>> {
    walkdir::WalkDir::new(root)
        .into_iter()
        .map(|r| match r {
            Ok(e) => Ok(WalkedEntry {
                path: e.path().to_string_lossy().into_owned(),
                file_name: e.file_name().to_string_lossy().into_owned(),
                is_file: e.path().is_file(),
            }),
            Err(err) => Err(err.to_string()),
        })
        .collect()
}

#[test]
fn list_returns_error_in_case_of_failure() {
    let result = List { root: String::from("invalid") }.exec(&walk("invalid"));
    assert!(result.is_err());
    assert_eq!(
        "IO error for operation on invalid: No such file or directory (os error 2)",
        result.err().unwrap()
    );
}

#[test]
fn walk_failure_comes_first() {
    let walked = vec![
        Ok(entry("r/test_a.cairo", true)),
        Err(String::from("first")),
        Err(String::from("second")),
    ];
    assert_eq!(Some(String::from("first")), List { root: String::from("r") }.exec(&walked).err());
    let walked = vec![Ok(entry("r/test_b.cairo", true)), Ok(entry("r/test_a.cairo", true))];
    let out = List { root: String::from("r") }.exec(&walked).ok().unwrap();
    assert_eq!(vec![String::from("r/test_a.cairo"), String::from("r/test_b.cairo")], out.files);
}
