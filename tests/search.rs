use launcher_index::{Action, App, CustomCommand, FilterMode, SearchItem, State, SubCommand, MAX_RESULTS};

fn app(name: &str) -> App {
    App {
        name: name.to_string(),
        description: format!("{name} description"),
        desktop_file: format!("/usr/share/applications/{name}.desktop"),
    }
}

fn sub(name: &str, command: &str) -> SubCommand {
    SubCommand { name: name.to_string(), command: command.to_string() }
}

fn git() -> CustomCommand {
    CustomCommand {
        name: "Git".to_string(),
        description: "Version control".to_string(),
        subcommands: vec![sub("status", "git status"), sub("commit", "git commit"), sub("push", "git push")],
        command: None,
    }
}

fn plain(name: &str, command: &str) -> CustomCommand {
    CustomCommand {
        name: name.to_string(),
        description: String::new(),
        subcommands: Vec::new(),
        command: Some(command.to_string()),
    }
}

fn names(items: &[SearchItem]) -> Vec<String> {
    items.iter().map(|i| i.name().to_string()).collect()
}

fn state(apps: Vec<App>, commands: Vec<CustomCommand>) -> State {
    let mut s = State::new();
    s.load(apps, commands);
    s
}

#[test]
fn empty_query_returns_nothing() {
    let s = state(vec![app("Firefox")], vec![git()]);
    assert!(s.search("", &FilterMode::All).is_empty());
    assert!(s.search("", &FilterMode::Apps).is_empty());
    assert!(s.search("", &FilterMode::Commands).is_empty());
}

#[test]
fn new_state_is_empty() {
    let s = State::new();
    assert!(s.apps().is_empty());
    assert!(s.commands().is_empty());
    assert!(s.search("fire", &FilterMode::All).is_empty());
}

#[test]
fn drill_down_filters_by_substring() {
    let s = state(vec![], vec![git()]);
    assert_eq!(names(&s.search("Git > co", &FilterMode::All)), vec!["commit"]);
}

#[test]
fn drill_down_empty_subquery_lists_all_in_order() {
    let s = state(vec![], vec![git()]);
    assert_eq!(names(&s.search("Git > ", &FilterMode::All)), vec!["status", "commit", "push"]);
}

#[test]
fn drill_down_unknown_parent_is_empty() {
    let s = state(vec![app("Nope")], vec![git()]);
    assert!(s.search("Nope > x", &FilterMode::All).is_empty());
}

#[test]
fn drill_down_parent_is_ascii_case_insensitive() {
    let s = state(vec![], vec![git()]);
    assert_eq!(names(&s.search("gIT > ", &FilterMode::Apps)), vec!["status", "commit", "push"]);
}

#[test]
fn drill_down_subquery_is_trimmed_and_lowercased() {
    let s = state(vec![], vec![git()]);
    assert_eq!(names(&s.search("Git >   PU  ", &FilterMode::All)), vec!["push"]);
}

#[test]
fn drill_down_subaction_description_is_parent() {
    let s = state(vec![], vec![git()]);
    let r = s.search("Git > push", &FilterMode::All);
    assert_eq!(r.len(), 1);
    assert_eq!(r[0].description(), "Git");
    assert!(matches!(r[0].execute(), Some(Action::Shell(c)) if c == "git push"));
}

#[test]
fn drill_down_is_not_truncated() {
    let subs: Vec<SubCommand> = (0..12).map(|i| sub(&format!("s{i}"), "true")).collect();
    let c = CustomCommand { name: "Many".to_string(), description: String::new(), subcommands: subs, command: None };
    let s = state(vec![], vec![c]);
    assert_eq!(s.search("Many > ", &FilterMode::All).len(), 12);
}

#[test]
fn fuzzy_excludes_non_matches() {
    let s = state(vec![app("Firefox"), app("Calculator")], vec![plain("Terminal", "xterm")]);
    assert_eq!(names(&s.search("fire", &FilterMode::All)), vec!["Firefox"]);
    assert!(s.search("zzz", &FilterMode::All).is_empty());
}

#[test]
fn fuzzy_returns_at_most_ten() {
    let apps: Vec<App> = (0..15).map(|i| app(&format!("Tool {i}"))).collect();
    let s = state(apps, vec![]);
    let r = s.search("tool", &FilterMode::All);
    assert_eq!(r.len(), MAX_RESULTS);
    assert_eq!(MAX_RESULTS, 10);
}

#[test]
fn fuzzy_equal_scores_put_commands_first() {
    let s = state(vec![app("Notes")], vec![plain("Notes", "notes-cli")]);
    let r = s.search("Notes", &FilterMode::All);
    assert_eq!(r.len(), 2);
    assert!(matches!(r[0], SearchItem::CustomCommand(_)));
    assert!(matches!(r[1], SearchItem::App(_)));
}

#[test]
fn fuzzy_better_match_ranks_first() {
    let s = state(vec![app("Fabulous Image Reader Editor"), app("fire")], vec![]);
    let r = s.search("fire", &FilterMode::All);
    assert_eq!(r[0].name(), "fire");
}

#[test]
fn apps_mode_hides_commands_and_all_mode_shows_them() {
    let s = state(vec![app("Firefox")], vec![plain("Deploy", "./deploy.sh")]);
    assert!(s.search("deploy", &FilterMode::Apps).is_empty());
    assert_eq!(names(&s.search("deploy", &FilterMode::All)), vec!["Deploy"]);
    assert_eq!(names(&s.search("deploy", &FilterMode::Commands)), vec!["Deploy"]);
    assert!(s.search("firefox", &FilterMode::Commands).is_empty());
}

#[test]
fn execute_dispatches_by_variant() {
    let a = SearchItem::App(app("Firefox"));
    assert!(matches!(a.execute(), Some(Action::Launch(f)) if f == "/usr/share/applications/Firefox.desktop"));
    let c = SearchItem::CustomCommand(plain("Deploy", "./deploy.sh"));
    assert!(matches!(c.execute(), Some(Action::Shell(f)) if f == "./deploy.sh"));
    let g = SearchItem::CustomCommand(git());
    assert!(g.execute().is_none());
    assert!(g.has_children());
    assert!(!c.has_children());
}

#[test]
fn item_name_and_description() {
    let a = SearchItem::App(app("Firefox"));
    assert_eq!(a.name(), "Firefox");
    assert_eq!(a.description(), "Firefox description");
    let g = SearchItem::CustomCommand(git());
    assert_eq!(g.name(), "Git");
    assert_eq!(g.description(), "Version control");
}

#[test]
fn reload_replaces_snapshot() {
    let mut s = state(vec![app("Firefox")], vec![git()]);
    s.load(vec![app("Calculator")], vec![]);
    assert!(s.search("firefox", &FilterMode::All).is_empty());
    assert_eq!(names(&s.search("calc", &FilterMode::All)), vec!["Calculator"]);
    assert!(s.search("Git > ", &FilterMode::All).is_empty());
}

#[test]
fn loading_twice_gives_same_results() {
    let mut s = state(vec![app("Firefox"), app("Files")], vec![git()]);
    let first = names(&s.search("fi", &FilterMode::All));
    s.load(vec![app("Firefox"), app("Files")], vec![git()]);
    assert_eq!(names(&s.search("fi", &FilterMode::All)), first);
}

#[test]
fn selecting_command_set_with_children_enters_drill_down() {
    match SearchItem::CustomCommand(git()).select() {
        launcher_index::Selection::DrillDown(t) => assert_eq!(t, "Git > "),
        _ => panic!("expected drill-down"),
    }
    match SearchItem::App(app("Firefox")).select() {
        launcher_index::Selection::Execute(Some(Action::Launch(f))) => {
            assert_eq!(f, "/usr/share/applications/Firefox.desktop")
        }
        _ => panic!("expected launch"),
    }
    match SearchItem::CustomCommand(plain("Deploy", "./deploy.sh")).select() {
        launcher_index::Selection::Execute(Some(Action::Shell(c))) => assert_eq!(c, "./deploy.sh"),
        _ => panic!("expected shell"),
    }
}

#[test]
fn wrappers_transform_their_input() {
    // lower-casing and trimming must really happen for this to match
    let s = state(vec![], vec![git()]);
    assert_eq!(names(&s.search("Git >  COMMIT ", &FilterMode::All)), vec!["commit"]);
    assert!(s.search("Git > xyz", &FilterMode::All).is_empty());
}
