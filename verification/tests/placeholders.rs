use fopener::placeholders::{path_parts, render_arguments, render_with_parts, PathParts};
use fopener::types::{ActionTemplate, WatchRule};

fn make_rule() -> WatchRule {
    WatchRule {
        id: "test".to_owned(),
        name: "Export XML".to_owned(),
        enabled: true,
        path: "/watch".to_owned(),
        include_subdirectories: false,
        file_mask: "*.xml".to_owned(),
        regex: None,
        action: ActionTemplate {
            executable: "editor".to_owned(),
            arguments: vec!["{file}".to_owned()],
        },
        debounce_ms: 1000,
        wait_until_stable: true,
        stable_check_ms: 300,
        stable_checks_count: 3,
        ready_timeout_sec: 30,
    }
}

#[test]
fn test_file_placeholder() {
    let rule = make_rule();
    let template = ActionTemplate {
        executable: "editor".to_owned(),
        arguments: vec!["{file}".to_owned()],
    };
    let args = render_arguments(&template, "/watch/export_123.xml", &rule);
    assert_eq!(args, vec!["/watch/export_123.xml"]);
}

#[test]
fn test_stem_and_ext_placeholder() {
    let rule = make_rule();
    let template = ActionTemplate {
        executable: "editor".to_owned(),
        arguments: vec!["{stem}".to_owned(), "{ext}".to_owned()],
    };
    let args = render_arguments(&template, "/watch/export_123.xml", &rule);
    assert_eq!(args, vec!["export_123", "xml"]);
}

#[test]
fn test_rule_placeholder() {
    let rule = make_rule();
    let template = ActionTemplate {
        executable: "editor".to_owned(),
        arguments: vec!["{rule}".to_owned()],
    };
    let args = render_arguments(&template, "/watch/file.xml", &rule);
    assert_eq!(args, vec!["Export XML"]);
}

#[test]
fn test_dir_placeholder() {
    let rule = make_rule();
    let template = ActionTemplate {
        executable: "editor".to_owned(),
        arguments: vec!["{dir}".to_owned()],
    };
    let args = render_arguments(&template, "/watch/export_123.xml", &rule);
    assert_eq!(args, vec!["/watch"]);
}

#[test]
fn filename_placeholder_and_surrounding_text() {
    let rule = make_rule();
    let template = ActionTemplate {
        executable: "editor".to_owned(),
        arguments: vec!["--open={filename}".to_owned(), "{rule}:{stem}.{ext}".to_owned()],
    };
    let args = render_arguments(&template, "/watch/export_123.xml", &rule);
    assert_eq!(args, vec!["--open=export_123.xml", "Export XML:export_123.xml"]);
}

#[test]
fn plain_arguments_pass_through() {
    let rule = make_rule();
    let template = ActionTemplate {
        executable: "editor".to_owned(),
        arguments: vec!["-n".to_owned(), "".to_owned(), "file}".to_owned()],
    };
    let args = render_arguments(&template, "/watch/a.xml", &rule);
    assert_eq!(args, vec!["-n", "", "file}"]);
}

#[test]
fn repeated_placeholder_replaced_everywhere() {
    let rule = make_rule();
    let template = ActionTemplate {
        executable: "editor".to_owned(),
        arguments: vec!["{ext}{ext}-{ext}".to_owned()],
    };
    let args = render_arguments(&template, "/watch/a.csv", &rule);
    assert_eq!(args, vec!["csvcsv-csv"]);
}

#[test]
fn file_without_extension_or_dotfile() {
    let rule = make_rule();
    let template = ActionTemplate {
        executable: "editor".to_owned(),
        arguments: vec!["[{stem}|{ext}]".to_owned()],
    };
    assert_eq!(render_arguments(&template, "/watch/README", &rule), vec!["[README|]"]);
    assert_eq!(render_arguments(&template, "/watch/.bashrc", &rule), vec!["[.bashrc|]"]);
    assert_eq!(render_arguments(&template, "/watch/a.tar.gz", &rule), vec!["[a.tar|gz]"]);
}

#[test]
fn render_with_given_parts() {
    let template = ActionTemplate {
        executable: "editor".to_owned(),
        arguments: vec!["{file} {dir} {filename} {stem} {ext} {rule}".to_owned()],
    };
    let parts = PathParts {
        dir: "D".to_owned(),
        filename: "F".to_owned(),
        stem: "S".to_owned(),
        ext: "E".to_owned(),
    };
    let args = render_with_parts(&template, "P", &parts, "R");
    assert_eq!(args, vec!["P D F S E R"]);
}

#[test]
fn parts_of_a_path() {
    let parts = path_parts("/watch/sub/export_123.xml");
    assert_eq!(parts.dir, "/watch/sub");
    assert_eq!(parts.filename, "export_123.xml");
    assert_eq!(parts.stem, "export_123");
    assert_eq!(parts.ext, "xml");
    let root = path_parts("/");
    assert_eq!(root.dir, "");
    assert_eq!(root.filename, "");
    assert_eq!(root.stem, "");
    assert_eq!(root.ext, "");
}
