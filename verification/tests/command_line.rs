use bindgen::args::{
    operand_missing, output_files, parse_args, print_usage, OpenFailure, ParsedArgs,
};

fn words(list: &[&str]) -> Vec<String> {
    list.iter().map(|w| w.to_string()).collect()
}

fn none() -> Vec<String> {
    Vec::new()
}

#[test]
fn no_arguments_ask_for_usage() {
    assert!(matches!(parse_args(&none(), &none(), None), ParsedArgs::Usage));
}

#[test]
fn help_asks_for_usage_in_both_spellings() {
    for help in ["-h", "--help"] {
        let args = words(&["-l", "m", "a.h", help, "-o"]);
        assert!(!operand_missing(&args, &None));
        assert!(matches!(parse_args(&args, &none(), None), ParsedArgs::Usage));
    }
}

#[test]
fn help_as_an_operand_is_no_request() {
    let args = words(&["-l", "--help", "a.h"]);
    match parse_args(&args, &none(), None) {
        ParsedArgs::Run(clang_args, ctx) => {
            assert_eq!(clang_args, words(&["a.h"]));
            assert_eq!(ctx.link, "--help");
        }
        _ => panic!("a run was asked for"),
    }
}

#[test]
fn options_are_sorted_out() {
    let args = words(&[
        "-I/usr/include", "-l", "foo", "-match", "foo.h", "-o", "a.rs", "foo.h", "-match", "bar.h",
    ]);
    assert_eq!(output_files(&args), words(&["a.rs"]));
    match parse_args(&args, &words(&["type"]), None) {
        ParsedArgs::Run(clang_args, ctx) => {
            assert_eq!(clang_args, words(&["-I/usr/include", "foo.h"]));
            assert_eq!(ctx.patterns, words(&["foo.h", "bar.h"]));
            assert_eq!(ctx.link, "foo");
            assert_eq!(ctx.out_file, Some("a.rs".to_string()));
            assert_eq!(ctx.out, "");
            assert!(ctx.keywords.contains("type"));
            assert!(!ctx.keywords.contains("fn"));
        }
        _ => panic!("a run was asked for"),
    }
}

#[test]
fn unknown_options_go_to_clang_in_order() {
    let args = words(&["-x", "c", "--helpful", "-O", "-matches", "in.h"]);
    match parse_args(&args, &none(), None) {
        ParsedArgs::Run(clang_args, ctx) => {
            assert_eq!(clang_args, args);
            assert_eq!(ctx.link, "");
            assert_eq!(ctx.out_file, None);
            assert!(ctx.patterns.is_empty());
        }
        _ => panic!("a run was asked for"),
    }
}

#[test]
fn the_last_link_name_and_output_file_count() {
    let args = words(&["-l", "a", "-o", "1.rs", "x.h", "-l", "b", "-o", "2.rs"]);
    assert_eq!(output_files(&args), words(&["1.rs", "2.rs"]));
    match parse_args(&args, &none(), None) {
        ParsedArgs::Run(clang_args, ctx) => {
            assert_eq!(clang_args, words(&["x.h"]));
            assert_eq!(ctx.link, "b");
            assert_eq!(ctx.out_file, Some("2.rs".to_string()));
        }
        _ => panic!("a run was asked for"),
    }
}

#[test]
fn an_output_file_that_does_not_open_ends_the_run() {
    let args = words(&["-o", "1.rs", "-o", "2.rs", "--help"]);
    let failure = Some(OpenFailure { nth: 1, message: "no room".to_string() });
    match parse_args(&args, &none(), failure) {
        ParsedArgs::Fail(message) => assert_eq!(message, "no room"),
        _ => panic!("the second file does not open"),
    }
    // help comes first
    let args = words(&["-h", "-o", "1.rs"]);
    let failure = Some(OpenFailure { nth: 0, message: "no room".to_string() });
    assert_eq!(output_files(&args), none());
    assert!(matches!(parse_args(&args, &none(), failure), ParsedArgs::Usage));
}

#[test]
fn an_option_without_its_operand_is_found() {
    for option in ["-o", "-l", "-match"] {
        assert!(operand_missing(&words(&["a.h", option]), &None));
        assert!(!operand_missing(&words(&["a.h", option, option]), &None));
        // the failure to open a file comes first
        let failure = Some(OpenFailure { nth: 0, message: String::new() });
        assert!(!operand_missing(&words(&["-o", "x", option]), &failure));
    }
    assert_eq!(output_files(&words(&["-o", "x", "-l"])), words(&["x"]));
}

#[test]
fn usage_names_the_program() {
    let expected = "Usage: bindgen [options] input.h\n\
        Options:\n\
        \x20   -h or --help    Display help message\n\
        \x20   -l <name>       Link name of the library\n\
        \x20   -o <output.rs>  Write bindings to <output.rs> (default stdout)\n\
        \x20   -match <name>   Only output bindings for definitions from files\n\
        \x20                   whose name contains <name>\n\
        \x20                   If multiple -match options are provided, files\n\
        \x20                   matching any rule are bound to.\n\
        \n\
        \x20   Options other than stated above are passed to clang.\n";
    assert_eq!(print_usage("bindgen"), expected);
}
