use orion_agent_core::api::AgentError;
use orion_agent_core::executor::{glob_result, path_extension_lowercase, GrepSettings};
use orion_agent_core::grep::{filter_files, grep_search, matches_file_filter, GrepFile};
use orion_agent_core::tool_inputs::GrepOutputMode;

fn settings(mode: GrepOutputMode) -> GrepSettings {
    GrepSettings {
        output_mode: mode,
        case_insensitive: false,
        show_line_numbers: true,
        multiline: false,
        before_context: 0,
        after_context: 0,
        head_limit: 0,
        offset: 0,
    }
}

fn files() -> Vec<GrepFile> {
    vec![
        GrepFile { display: "a.rs".into(), content: Some("fn main() {}\nlet x = 1;\nfn other() {}\n".into()) },
        GrepFile { display: "b.txt".into(), content: None },
        GrepFile { display: "c.md".into(), content: Some("nothing here\n".into()) },
        GrepFile { display: "d.rs".into(), content: Some("FN upper\n".into()) },
    ]
}

#[test]
fn files_with_matches_mode() {
    let r = grep_search("fn ", &settings(GrepOutputMode::FilesWithMatches), &files()).unwrap();
    assert_eq!(r.content, "a.rs");
    let mut s = settings(GrepOutputMode::FilesWithMatches);
    s.case_insensitive = true;
    assert_eq!(grep_search("fn ", &s, &files()).unwrap().content, "a.rs\nd.rs");
}

#[test]
fn count_mode() {
    let r = grep_search("fn", &settings(GrepOutputMode::Count), &files()).unwrap();
    assert_eq!(r.content, "a.rs:2");
}

#[test]
fn content_mode_with_numbers() {
    let r = grep_search("fn", &settings(GrepOutputMode::Content), &files()).unwrap();
    assert_eq!(r.content, "a.rs:1:fn main() {}\n--\na.rs:3:fn other() {}");
    let mut s = settings(GrepOutputMode::Content);
    s.before_context = 1;
    s.offset = 1;
    s.head_limit = 1;
    assert_eq!(grep_search("other", &s, &files()).unwrap().content, "a.rs:3:fn other() {}");
}

#[test]
fn no_matches_and_bad_patterns() {
    assert_eq!(grep_search("zzz", &settings(GrepOutputMode::Count), &files()).unwrap().content, "No matches found.");
    match grep_search("(", &settings(GrepOutputMode::Content), &files()) {
        Err(AgentError::Regex(m)) => assert!(!m.is_empty()),
        r => panic!("unexpected {:?}", r.map(|t| t.content)),
    }
}

#[test]
fn file_filters() {
    assert!(matches_file_filter("/src/lib.rs", Some("*.rs"), None));
    assert!(!matches_file_filter("/src/lib.rs", Some("*.py"), None));
    assert!(matches_file_filter("/src/LIB.RS", None, Some("rust")));
    assert!(!matches_file_filter("/src/lib.rs", None, Some("py")));
    assert!(matches_file_filter("/src/lib.rs", None, Some("unknown-type")));
    assert!(matches_file_filter("/src/lib.rs", Some("[", ), None));
    let kept = filter_files(vec!["/a/x.rs".into(), "/a/y.py".into(), "/a/z.rs".into()], Some("*.rs"), None);
    assert_eq!(kept, vec!["/a/x.rs", "/a/z.rs"]);
}

#[test]
fn extensions_are_lowercased() {
    assert_eq!(path_extension_lowercase("/x/Photo.JPG"), "jpg");
    assert_eq!(path_extension_lowercase("/x/Makefile"), "");
}

#[test]
fn glob_results_are_sorted() {
    assert_eq!(glob_result(vec![]).content, "No files matched the pattern.");
    let r = glob_result(vec!["/b".into(), "/a/z".into(), "/a/b".into()]);
    assert_eq!(r.content, "/a/b\n/a/z\n/b");
}
