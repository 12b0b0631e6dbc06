use launcher_index::{
    collect_apps, commands_from_file, has_extension, merge_commands, parse_desktop_file, CustomCommand,
    SubCommand,
};

fn cmd(name: &str) -> CustomCommand {
    CustomCommand {
        name: name.to_string(),
        description: String::new(),
        subcommands: vec![SubCommand { name: "x".to_string(), command: "true".to_string() }],
        command: None,
    }
}

#[test]
fn desktop_basic_entry() {
    let a = parse_desktop_file("[Desktop Entry]\nName=Firefox\nComment=Browse the web\nExec=firefox\n", "ff.desktop")
        .unwrap();
    assert_eq!(a.name, "Firefox");
    assert_eq!(a.description, "Browse the web");
    assert_eq!(a.desktop_file, "ff.desktop");
}

#[test]
fn desktop_first_name_wins() {
    let a = parse_desktop_file("Name=First\nName=Second\n", "a").unwrap();
    assert_eq!(a.name, "First");
}

#[test]
fn desktop_first_comment_wins() {
    let a = parse_desktop_file("Comment=one\nName=N\nComment=two\n", "a").unwrap();
    assert_eq!(a.description, "one");
}

#[test]
fn desktop_without_comment_has_empty_description() {
    let a = parse_desktop_file("Name=N\n", "a").unwrap();
    assert_eq!(a.description, "");
}

#[test]
fn desktop_crlf_lines() {
    let a = parse_desktop_file("Name=Win\r\nComment=c\r\n", "a").unwrap();
    assert_eq!(a.name, "Win");
    assert_eq!(a.description, "c");
}

#[test]
fn desktop_repeated_key_prefix_is_stripped() {
    let a = parse_desktop_file("Name=Name=X\n", "a").unwrap();
    assert_eq!(a.name, "X");
}

#[test]
fn desktop_hidden_rejected() {
    assert!(parse_desktop_file("Name=Secret\nHidden=true\n", "a").is_none());
    assert!(parse_desktop_file("Hidden=true\nName=Secret\n", "a").is_none());
}

#[test]
fn desktop_no_display_rejected() {
    assert!(parse_desktop_file("Name=Secret\nNoDisplay=true\n", "a").is_none());
}

#[test]
fn desktop_only_show_in_rejected() {
    assert!(parse_desktop_file("Name=KDE thing\nOnlyShowIn=KDE;\n", "a").is_none());
}

#[test]
fn desktop_hidden_false_kept() {
    assert!(parse_desktop_file("Name=Shown\nHidden=false\n", "a").is_some());
}

#[test]
fn desktop_without_name_rejected() {
    assert!(parse_desktop_file("Comment=nameless\n", "a").is_none());
    assert!(parse_desktop_file("", "a").is_none());
}

#[test]
fn extension_filter() {
    assert!(has_extension("firefox.desktop", "desktop"));
    assert!(has_extension("a.b.desktop", "desktop"));
    assert!(!has_extension(".desktop", "desktop"));
    assert!(!has_extension("firefox.desktop.bak", "desktop"));
    assert!(!has_extension("firefoxdesktop", "desktop"));
    assert!(has_extension("git.json", "json"));
    assert!(!has_extension("git.jsonx", "json"));
}

#[test]
fn command_file_single_record_preferred() {
    let r = commands_from_file(Some(cmd("one")), Some(vec![cmd("a"), cmd("b")]));
    assert_eq!(r.len(), 1);
    assert_eq!(r[0].name, "one");
}

#[test]
fn command_file_list_in_order() {
    let r = commands_from_file(None, Some(vec![cmd("a"), cmd("b")]));
    let names: Vec<&str> = r.iter().map(|c| c.name.as_str()).collect();
    assert_eq!(names, vec!["a", "b"]);
}

#[test]
fn command_file_malformed_skipped() {
    assert!(commands_from_file(None, None).is_empty());
    let groups = vec![vec![cmd("a")], commands_from_file(None, None), vec![cmd("b"), cmd("c")]];
    let merged = merge_commands(&groups);
    let names: Vec<&str> = merged.iter().map(|c| c.name.as_str()).collect();
    assert_eq!(names, vec!["a", "b", "c"]);
    assert_eq!(merged[0].subcommands.len(), 1);
}

#[test]
fn missing_directory_contributes_nothing() {
    let merged = merge_commands(&vec![Vec::new(), vec![cmd("a")]]);
    assert_eq!(merged.len(), 1);
    assert!(merge_commands(&Vec::new()).is_empty());
}

#[test]
fn collect_apps_drops_rejected_files() {
    let parsed = vec![
        parse_desktop_file("Name=A\n", "a"),
        parse_desktop_file("Name=H\nHidden=true\n", "h"),
        None,
        parse_desktop_file("Name=B\n", "b"),
    ];
    let apps = collect_apps(&parsed);
    let names: Vec<&str> = apps.iter().map(|a| a.name.as_str()).collect();
    assert_eq!(names, vec!["A", "B"]);
}
