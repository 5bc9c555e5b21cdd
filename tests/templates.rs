use tmx::{
    capture_session_as_template, delete_template, is_template_file, join_path, launch_template,
    load_all_templates, split_for_index, template_dir, template_exists, template_file_name,
    templates_under, MuxCommand, PaneTemplate, SessionTemplate, SplitDirection, SplitType,
    StoreEntry, TemplateError, TemplateMeta, WindowListing, WindowTemplate,
};

fn describe(c: &MuxCommand) -> String {
    match c {
        MuxCommand::NewSession { session, cwd } => format!("new-session {} {}", session, cwd),
        MuxCommand::RenameWindow { session, window, name } => {
            format!("rename-window {} {} {}", session, window, name)
        }
        MuxCommand::NewWindow { session, name, cwd } => {
            format!("new-window {} {} {}", session, name, cwd)
        }
        MuxCommand::SplitWindow { session, window, direction, cwd } => {
            let d = match direction {
                SplitDirection::TopBottom => "-v",
                SplitDirection::SideBySide => "-h",
            };
            format!("split-window {} {} {} {}", session, window, d, cwd)
        }
    }
}

fn pane(cwd: &str, split: SplitType) -> PaneTemplate {
    PaneTemplate { cwd: cwd.to_string(), split }
}

fn window(name: &str, cwd: &str, panes: Vec<PaneTemplate>) -> WindowTemplate {
    WindowTemplate { name: name.to_string(), cwd: cwd.to_string(), panes }
}

fn session(name: &str, windows: Vec<WindowTemplate>) -> SessionTemplate {
    SessionTemplate {
        template: TemplateMeta { name: name.to_string(), description: String::new() },
        windows,
    }
}

fn listing(index: u32, name: &str, cwds: &[&str]) -> WindowListing {
    WindowListing {
        index,
        name: name.to_string(),
        pane_cwds: cwds.iter().map(|c| c.to_string()).collect(),
    }
}

fn entry(file: &str, t: Option<SessionTemplate>) -> StoreEntry {
    StoreEntry { file_name: file.to_string(), template: t }
}

#[test]
fn split_alternates_after_first_pane() {
    assert_eq!(split_for_index(0), SplitType::Full);
    assert_eq!(split_for_index(1), SplitType::Horizontal);
    assert_eq!(split_for_index(2), SplitType::Vertical);
    assert_eq!(split_for_index(3), SplitType::Horizontal);
    assert_eq!(split_for_index(4), SplitType::Vertical);
}

#[test]
fn capture_records_windows_and_panes() {
    let t = capture_session_as_template(
        "work",
        &vec![listing(0, "w0", &["/a", "/b", "/c"]), listing(1, "empty", &[])],
    );
    assert_eq!(t.template.name, "work");
    assert_eq!(t.template.description, "");
    assert_eq!(t.windows.len(), 2);
    let w0 = &t.windows[0];
    assert_eq!(w0.name, "w0");
    assert_eq!(w0.cwd, "/a");
    let cwds: Vec<&str> = w0.panes.iter().map(|p| p.cwd.as_str()).collect();
    assert_eq!(cwds, vec!["/a", "/b", "/c"]);
    let splits: Vec<SplitType> = w0.panes.iter().map(|p| p.split).collect();
    assert_eq!(splits, vec![SplitType::Full, SplitType::Horizontal, SplitType::Vertical]);
    assert_eq!(t.windows[1].name, "empty");
    assert_eq!(t.windows[1].cwd, "");
    assert!(t.windows[1].panes.is_empty());
}

#[test]
fn launch_without_windows_is_refused() {
    let r = launch_template(&session("t", vec![]), "new");
    match r {
        Err(TemplateError::Validation { session }) => assert_eq!(session, "new"),
        _ => panic!("expected a validation error"),
    }
}

#[test]
fn capture_then_launch_replays_splits() {
    let t = capture_session_as_template("src", &vec![listing(0, "w0", &["/A", "/B", "/C"])]);
    let cmds = launch_template(&t, "dst").unwrap();
    let got: Vec<String> = cmds.iter().map(describe).collect();
    assert_eq!(
        got,
        vec![
            "new-session dst /A",
            "rename-window dst 0 w0",
            "split-window dst 0 -v /B",
            "split-window dst 0 -h /C",
        ]
    );
}

#[test]
fn launch_second_window_with_one_split() {
    let t = session(
        "t",
        vec![
            window("first", "/one", vec![pane("/one", SplitType::Full)]),
            window(
                "second",
                "/two",
                vec![pane("/two", SplitType::Full), pane("/three", SplitType::Vertical)],
            ),
        ],
    );
    let cmds = launch_template(&t, "s").unwrap();
    let got: Vec<String> = cmds.iter().map(describe).collect();
    assert_eq!(
        got,
        vec![
            "new-session s /one",
            "rename-window s 0 first",
            "new-window s second /two",
            "split-window s 1 -h /three",
        ]
    );
}

#[test]
fn launch_skips_full_panes_beyond_the_first() {
    let t = session(
        "t",
        vec![window(
            "w",
            "/x",
            vec![pane("/x", SplitType::Full), pane("/y", SplitType::Full)],
        )],
    );
    let got: Vec<String> = launch_template(&t, "s").unwrap().iter().map(describe).collect();
    assert_eq!(got, vec!["new-session s /x", "rename-window s 0 w"]);
}

#[test]
fn launch_window_without_panes() {
    let t = session("t", vec![window("w", "", vec![])]);
    let got: Vec<String> = launch_template(&t, "s").unwrap().iter().map(describe).collect();
    assert_eq!(got, vec!["new-session s ", "rename-window s 0 w"]);
}

#[test]
fn file_names_carry_the_extension() {
    assert_eq!(template_file_name("dev"), "dev.toml");
    assert_eq!(template_file_name(""), ".toml");
    assert!(is_template_file("dev.toml"));
    assert!(is_template_file("..toml"));
    assert!(!is_template_file(".toml"));
    assert!(!is_template_file("dev.txt"));
    assert!(!is_template_file("dev.tomlx"));
    assert!(!is_template_file("toml"));
}

#[test]
fn paths_join_with_one_separator() {
    assert_eq!(join_path("/etc", "tmx"), "/etc/tmx");
    assert_eq!(join_path("/etc/", "tmx"), "/etc/tmx");
    assert_eq!(join_path("", "tmx"), "tmx");
    assert_eq!(templates_under(None), "~/.config/tmx/templates");
    assert_eq!(
        templates_under(Some("/home/u/.config".to_string())),
        "/home/u/.config/tmx/templates"
    );
    assert!(template_dir().ends_with("/tmx/templates"));
}

#[test]
fn exists_looks_for_the_named_file() {
    let files = vec!["a.toml".to_string(), "b.txt".to_string()];
    assert!(template_exists("a", &files));
    assert!(!template_exists("b", &files));
    assert!(!template_exists("c", &files));
    assert!(!template_exists("a", &vec![]));
}

#[test]
fn delete_missing_template_is_not_found() {
    let files = vec!["a.toml".to_string()];
    match delete_template("nonexistent", &files) {
        Err(e) => {
            assert!(matches!(&e, TemplateError::NotFound { name } if name == "nonexistent"));
            assert_eq!(e.message(), "Template 'nonexistent' not found");
        }
        Ok(_) => panic!("expected NotFound"),
    }
    assert_eq!(files, vec!["a.toml".to_string()]);
}

#[test]
fn delete_names_the_file_to_remove() {
    let files = vec!["x.toml".to_string(), "a.toml".to_string()];
    assert_eq!(delete_template("a", &files).unwrap(), "a.toml");
}

#[test]
fn listing_of_empty_store_is_empty() {
    assert!(load_all_templates(vec![]).is_empty());
}

#[test]
fn listing_skips_malformed_and_sorts() {
    let r = load_all_templates(vec![
        entry("zeta.toml", Some(session("zeta", vec![]))),
        entry("broken.toml", None),
        entry("alpha.toml", Some(session("alpha", vec![]))),
    ]);
    let names: Vec<&str> = r.iter().map(|t| t.template.name.as_str()).collect();
    assert_eq!(names, vec!["alpha", "zeta"]);
}

#[test]
fn listing_ignores_other_files_and_keeps_ties_in_order() {
    let mut first = session("same", vec![]);
    first.template.description = "first".to_string();
    let mut second = session("same", vec![]);
    second.template.description = "second".to_string();
    let r = load_all_templates(vec![
        entry("notes.txt", Some(session("aaa", vec![]))),
        entry("one.toml", Some(first)),
        entry("Upper.toml", Some(session("Upper", vec![]))),
        entry("two.toml", Some(second)),
        entry("b.toml", Some(session("b", vec![]))),
    ]);
    let got: Vec<(&str, &str)> = r
        .iter()
        .map(|t| (t.template.name.as_str(), t.template.description.as_str()))
        .collect();
    assert_eq!(
        got,
        vec![("Upper", ""), ("b", ""), ("same", "first"), ("same", "second")]
    );
}

#[test]
fn validation_message_names_the_session() {
    let e = TemplateError::Validation { session: "s1".to_string() };
    assert_eq!(e.message(), "Template for session 's1' has no windows");
}
