use aiterm::editor::{contains_null_byte, expand_tilde, extract_user_host, shell_quote};
use aiterm::json::Json;
use aiterm::pending::PendingTable;
use aiterm::persistence::app_data_slug;
use aiterm::terminal::{foreground_ssh_command, is_ssh_command, ProcessEntry};
use aiterm::text::to_text;
use aiterm::workspace::{reorder_tabs, CursorStyle, Pane, Preferences, Tab};

fn s(text: &str) -> String {
    String::from(text)
}

fn tokens(line: &str) -> Vec<String> {
    line.split_whitespace().map(String::from).collect()
}

#[test]
fn app_data_slug_is_stable() {
    assert_eq!(app_data_slug(), "com.aiterm.app");
}

#[test]
fn shell_quote_wraps_and_escapes() {
    assert_eq!(shell_quote(&s("plain")), "'plain'");
    assert_eq!(shell_quote(&s("")), "''");
    assert_eq!(shell_quote(&s("it's")), "'it'\\''s'");
    assert_eq!(shell_quote(&s("a b;c")), "'a b;c'");
}

#[test]
fn null_byte_detection() {
    assert!(!contains_null_byte(&vec![]));
    assert!(!contains_null_byte(&vec![1, 2, 3]));
    assert!(contains_null_byte(&vec![65, 0, 66]));
}

#[test]
fn extract_user_host_finds_the_host() {
    assert_eq!(extract_user_host(&tokens("ssh user@host")), Some(s("user@host")));
    assert_eq!(
        extract_user_host(&tokens("ssh -o Foo=bar user@host")),
        Some(s("user@host"))
    );
    assert_eq!(
        extract_user_host(&tokens("ssh -p 2222 -i key.pem host.example")),
        Some(s("host.example"))
    );
    assert_eq!(extract_user_host(&tokens("ssh -v -A user@h")), Some(s("user@h")));
    assert_eq!(extract_user_host(&tokens("ssh")), None);
    assert_eq!(extract_user_host(&tokens("ssh -o")), None);
    assert_eq!(extract_user_host(&tokens("")), None);
}

#[test]
fn ssh_commands_are_recognized_by_basename() {
    assert!(is_ssh_command(&s("ssh user@host")));
    assert!(is_ssh_command(&s("/usr/bin/ssh host")));
    assert!(is_ssh_command(&s("  mosh server")));
    assert!(is_ssh_command(&s("autossh -M 0 host")));
    assert!(!is_ssh_command(&s("vim notes.txt")));
    assert!(!is_ssh_command(&s("sshuttle -r host 0/0")));
    assert!(!is_ssh_command(&s("")));
}

#[test]
fn expand_tilde_substitutes_home() {
    let home = s("/home/u");
    assert_eq!(expand_tilde(&s("~"), Some(&home)), "/home/u");
    assert_eq!(expand_tilde(&s("~/docs/x.txt"), Some(&home)), "/home/u/docs/x.txt");
    assert_eq!(expand_tilde(&s("/abs/path"), Some(&home)), "/abs/path");
    assert_eq!(expand_tilde(&s("~weird"), Some(&home)), "~weird");
    assert_eq!(expand_tilde(&s("~"), None), "~");
    assert_eq!(expand_tilde(&s("~/x"), None), "~/x");
}

fn proc(pid: u32, ppid: u32, command: &str) -> ProcessEntry {
    ProcessEntry {
        pid,
        ppid,
        command: String::from(command),
    }
}

#[test]
fn foreground_walk_finds_the_ssh_command() {
    let table = vec![
        proc(101, 100, "bash"),
        proc(102, 101, "ssh user@h"),
        proc(103, 102, "vim notes"),
    ];
    assert_eq!(foreground_ssh_command(&table, 100), Some(s("ssh user@h")));
    // the deepest SSH-like command wins
    let nested = vec![
        proc(11, 10, "mosh a"),
        proc(12, 11, "bash"),
        proc(13, 12, "autossh b"),
    ];
    assert_eq!(foreground_ssh_command(&nested, 10), Some(s("autossh b")));
    // nothing SSH-like in the chain
    let plain = vec![proc(21, 20, "bash"), proc(22, 21, "vim")];
    assert_eq!(foreground_ssh_command(&plain, 20), None);
    // a corrupted table with a parent cycle still terminates
    let cycle = vec![proc(1, 2, "bash"), proc(2, 1, "bash")];
    assert_eq!(foreground_ssh_command(&cycle, 1), None);
}

#[test]
fn default_preferences_match_a_fresh_install() {
    let p = Preferences::default();
    assert_eq!(p.font_size, 13);
    assert_eq!(p.font_family, "Menlo");
    assert!(matches!(p.cursor_style, CursorStyle::Block));
    assert!(p.cursor_blink);
    assert_eq!(p.auto_save_interval, 10);
    assert_eq!(p.scrollback_limit, 10000);
    assert_eq!(p.prompt_patterns.len(), 3);
    assert_eq!(p.theme, "tokyo-night");
    assert_eq!(p.notification_mode, "auto");
    assert_eq!(p.notify_min_duration, 5);
    assert_eq!(p.notes_width, 320);
    assert_eq!(p.toast_duration, 8);
    assert_eq!(p.notification_sound, "default");
    assert_eq!(p.notification_volume, 50);
    assert!(p.triggers.is_empty());
    assert!(p.custom_themes.is_empty());
}

#[test]
fn new_tab_and_pane_start_at_rest() {
    let t = Tab::new(s("Build"));
    assert_eq!(t.name, "Build");
    assert_eq!(t.id.chars().count(), 36);
    assert!(t.pty_id.is_none());
    assert!(!t.custom_name);
    assert!(!t.notes_open);
    assert!(t.trigger_variables.is_empty());
    let p = Pane::new(s("Main"));
    assert_eq!(p.name, "Main");
    assert_eq!(p.tabs.len(), 1);
    assert_eq!(p.tabs[0].name, "Terminal");
    assert_eq!(p.active_tab_id.as_deref(), Some(p.tabs[0].id.as_str()));
}

fn pane_with_tabs(names: &[&str]) -> Pane {
    let mut p = Pane::new(s("P"));
    p.tabs.clear();
    for n in names {
        let mut t = Tab::new(s(n));
        t.id = format!("id-{}", n);
        p.tabs.push(t);
    }
    p.active_tab_id = None;
    p
}

#[test]
fn delete_tab_prefers_the_previous_neighbour() {
    let mut p = pane_with_tabs(&["a", "b", "c"]);
    p.active_tab_id = Some(s("id-b"));
    assert!(p.delete_tab(&s("id-b")));
    assert_eq!(p.tabs.len(), 2);
    assert_eq!(p.active_tab_id.as_deref(), Some("id-a"));
}

#[test]
fn delete_first_active_tab_falls_back_to_the_next() {
    let mut p = pane_with_tabs(&["a", "b"]);
    p.active_tab_id = Some(s("id-a"));
    assert!(p.delete_tab(&s("id-a")));
    assert_eq!(p.active_tab_id.as_deref(), Some("id-b"));
}

#[test]
fn delete_last_tab_clears_the_active_id() {
    let mut p = pane_with_tabs(&["only"]);
    p.active_tab_id = Some(s("id-only"));
    assert!(p.delete_tab(&s("id-only")));
    assert!(p.tabs.is_empty());
    assert!(p.active_tab_id.is_none());
}

#[test]
fn delete_inactive_tab_leaves_the_active_one() {
    let mut p = pane_with_tabs(&["a", "b", "c"]);
    p.active_tab_id = Some(s("id-c"));
    assert!(p.delete_tab(&s("id-a")));
    assert_eq!(p.active_tab_id.as_deref(), Some("id-c"));
    assert!(!p.delete_tab(&s("id-zz")));
    assert_eq!(p.tabs.len(), 2);
}

#[test]
fn rename_tab_sets_name_and_custom_flag() {
    let mut p = pane_with_tabs(&["a", "b"]);
    assert!(p.rename_tab(&s("id-b"), s("Renamed"), Some(true)));
    assert_eq!(p.tabs[1].name, "Renamed");
    assert!(p.tabs[1].custom_name);
    assert_eq!(p.tabs[0].name, "a");
    assert!(p.rename_tab(&s("id-a"), s("Other"), None));
    assert!(!p.tabs[0].custom_name);
    assert!(!p.rename_tab(&s("missing"), s("X"), None));
}

#[test]
fn reorder_tabs_follows_the_given_order() {
    let p = pane_with_tabs(&["a", "b", "c"]);
    let ids = vec![s("id-c"), s("id-a"), s("id-b")];
    let reordered = reorder_tabs(p.tabs, &ids);
    let names: Vec<&str> = reordered.iter().map(|t| t.name.as_str()).collect();
    assert_eq!(names, vec!["c", "a", "b"]);
    // unlisted tabs are dropped, unknown identifiers are ignored, and a
    // repeated identifier takes effect once
    let p = pane_with_tabs(&["a", "b", "c"]);
    let ids = vec![s("id-b"), s("id-zz"), s("id-b")];
    let reordered = reorder_tabs(p.tabs, &ids);
    let names: Vec<&str> = reordered.iter().map(|t| t.name.as_str()).collect();
    assert_eq!(names, vec!["b"]);
}

#[test]
fn pending_table_resolves_each_call_exactly_once() {
    let mut table = PendingTable::new();
    assert_eq!(table.len(), 0);
    table.insert(s("c1"), Json::Int(1), s("sess-1"));
    table.insert(s("c2"), Json::Int(2), s("sess-2"));
    assert_eq!(table.len(), 2);
    let c2 = table.resolve(&s("c2")).expect("c2 pending");
    assert_eq!(c2.session_id, "sess-2");
    assert_eq!(to_text(&c2.request_id), "2");
    assert!(table.resolve(&s("c2")).is_none());
    let c1 = table.resolve(&s("c1")).expect("c1 pending");
    assert_eq!(c1.session_id, "sess-1");
    assert_eq!(table.len(), 0);
    assert!(table.resolve(&s("never")).is_none());
}

#[test]
fn pending_insert_replaces_an_existing_call_id() {
    let mut table = PendingTable::new();
    table.insert(s("c"), Json::Int(1), s("sess-1"));
    table.insert(s("c"), Json::Int(9), s("sess-9"));
    assert_eq!(table.len(), 1);
    let c = table.resolve(&s("c")).unwrap();
    assert_eq!(c.session_id, "sess-9");
    assert_eq!(to_text(&c.request_id), "9");
}

#[test]
fn json_get_walks_objects() {
    let doc = Json::Obj(vec![
        (s("a"), Json::Int(1)),
        (s("b"), Json::Str(s("x"))),
    ]);
    assert_eq!(to_text(doc.get(&s("b")).unwrap()), "\"x\"");
    assert!(doc.get(&s("missing")).is_none());
    assert!(Json::Null.get(&s("a")).is_none());
    assert_eq!(doc.get(&s("a")).unwrap().as_int(), Some(1));
    assert_eq!(doc.get(&s("b")).unwrap().as_str().map(|v| v.as_str()), Some("x"));
}
