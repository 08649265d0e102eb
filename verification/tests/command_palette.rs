use rexisce::xmpp::modules::command_palette::{search, Command};

fn cmd(id: &str, label: &str, description: &str, keywords: &[&str]) -> Command {
    Command {
        id: id.to_string(),
        label: label.to_string(),
        description: description.to_string(),
        keywords: keywords.iter().map(std::string::ToString::to_string).collect(),
    }
}

fn sample_commands() -> Vec<Command> {
    vec![
        cmd("open", "Open File", "Open a file from disk", &["file", "load"]),
        cmd("save", "Save File", "Save the current file", &["file", "write"]),
        cmd("quit", "Quit", "Exit the application", &["exit", "close"]),
        cmd("settings", "Settings", "Open application settings", &["preferences", "config"]),
        cmd("muc-join", "Join Room", "Join a MUC room", &["muc", "group", "channel"]),
    ]
}

#[test]
fn exact_match_scores_100() {
    let results = search(&sample_commands(), "quit");
    assert_eq!(results.len(), 1);
    assert_eq!(results[0].score, 100);
    assert_eq!(results[0].command.id, "quit");
}

#[test]
fn prefix_match_scores_80() {
    let results = search(&sample_commands(), "sett");
    assert_eq!(results.len(), 1);
    assert_eq!(results[0].score, 80);
    assert_eq!(results[0].command.id, "settings");
}

#[test]
fn contains_match_scores_60() {
    let results = search(&sample_commands(), "ile");
    assert!(results.iter().all(|m| m.score == 60));
    assert_eq!(results.len(), 2);
}

#[test]
fn keyword_prefix_scores_40() {
    let results = search(&sample_commands(), "conf");
    assert_eq!(results.len(), 1);
    assert_eq!(results[0].score, 40);
    assert_eq!(results[0].command.id, "settings");
}

#[test]
fn no_match_excluded() {
    let results = search(&sample_commands(), "zzznomatch");
    assert!(results.is_empty());
}

#[test]
fn results_sorted_by_score_desc() {
    let results = search(&sample_commands(), "file");
    for window in results.windows(2) {
        assert!(window[0].score >= window[1].score, "scores not descending: {} then {}", window[0].score, window[1].score);
    }
}

#[test]
fn empty_query_returns_all_with_zero_score() {
    let cmds = sample_commands();
    let results = search(&cmds, "");
    assert_eq!(results.len(), cmds.len());
    assert!(results.iter().all(|m| m.score == 0));
    let labels: Vec<&str> = results.iter().map(|m| m.command.label.as_str()).collect();
    let mut sorted = labels.clone();
    sorted.sort();
    assert_eq!(labels, sorted);
}

#[test]
fn case_insensitive_matching() {
    let results = search(&sample_commands(), "QUIT");
    assert_eq!(results.len(), 1);
    assert_eq!(results[0].score, 100);
}

#[test]
fn keyword_contains_scores_20() {
    let results = search(&sample_commands(), "han");
    assert_eq!(results.len(), 1);
    assert_eq!(results[0].score, 20);
    assert_eq!(results[0].command.id, "muc-join");
}

#[test]
fn equal_scores_are_ordered_by_label() {
    let results = search(&sample_commands(), "file");
    let ids: Vec<&str> = results.iter().map(|m| m.command.id.as_str()).collect();
    assert_eq!(ids, vec!["open", "save"]);
    assert_eq!(results[0].score, 60);
}
