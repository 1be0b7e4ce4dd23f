use shardkv::search::Config;
use shardkv::search::search;
use shardkv::search::search_case_insensitive;

#[test]
fn test_search_case_sensitive_found() {
    let query = "duct";
    let contents = "\
Rust:
safe, fast, productive.
Pick three.";
    assert_eq!(vec!["safe, fast, productive."], search(query, contents));
}

#[test]
fn test_search_case_sensitive_not_found() {
    let query = "duct";
    let contents = "\
Rust:
safe, fast, prodUctive.
Pick three.";
    assert_eq!(Vec::<&str>::new(), search(query, contents));
}

#[test]
fn test_search_case_insensitive() {
    let query = "duct";
    let contents = "\
Rust:
safe, fast, prodUctive.
Pick three.";
    assert_eq!(
        vec!["safe, fast, prodUctive."],
        search_case_insensitive(query, contents)
    );
}

#[test]
fn search_of_empty_text_finds_nothing() {
    assert_eq!(Vec::<&str>::new(), search("anything", ""));
}

#[test]
fn search_with_empty_query_returns_every_line() {
    let contents = "one\ntwo\n";
    assert_eq!(vec!["one", "two"], search("", contents));
}

#[test]
fn search_strips_carriage_returns_before_newlines() {
    let contents = "first line\r\nsecond line\r\nthird";
    assert_eq!(vec!["first line"], search("first", contents));
}

#[test]
fn case_insensitive_query_in_capitals_still_matches() {
    let contents = "plain lowercase line";
    assert_eq!(
        vec!["plain lowercase line"],
        search_case_insensitive("LOWERCASE", contents)
    );
}

#[test]
fn config_build_takes_query_then_file_path() {
    let args = vec![
        String::from("program"),
        String::from("needle"),
        String::from("haystack.txt"),
    ];
    let config = Config::build(&args, false).unwrap();
    assert_eq!(config.query, "needle");
    assert_eq!(config.file_path, "haystack.txt");
    assert!(!config.ignore_case);
}

#[test]
fn config_build_rejects_short_argument_lists() {
    let args = vec![String::from("program"), String::from("needle")];
    let result = Config::build(&args, true);
    assert_eq!(result.err(), Some("Not enough arguments"));
}
