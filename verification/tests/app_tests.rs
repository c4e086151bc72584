use std::path::PathBuf;
use term_ssh_manager::app::{App, Effect, Screen};
use term_ssh_manager::form::FormField;
use term_ssh_manager::server::Server;

fn server(alias: &str, host: &str) -> Server {
    Server {
        alias: alias.to_string(),
        host: host.to_string(),
        username: String::new(),
        port: 22,
        tags: String::new(),
    }
}

fn app_with(n: usize) -> App {
    let servers = (0..n).map(|i| server(&format!("s{}", i), &format!("h{}", i))).collect();
    App::new(PathBuf::from("/tmp/servers.json"), servers)
}

fn aliases(app: &App) -> Vec<String> {
    app.servers.iter().map(|s| s.alias.clone()).collect()
}

#[test]
fn new_app_starts_on_dashboard() {
    let app = app_with(2);
    assert_eq!(app.selected, 0);
    assert_eq!(app.screen, Screen::Dashboard);
    assert!(!app.should_quit);
    assert_eq!(app.status_msg, "");
    assert_eq!(app.should_ssh, None);
    assert_eq!(app.form.port, "22");
    assert_eq!(app.config_path, PathBuf::from("/tmp/servers.json"));
    assert_eq!(app.servers.len(), 2);
}

#[test]
fn selection_wraps_both_ways() {
    let mut app = app_with(3);
    app.move_selection_up();
    assert_eq!(app.selected, 2);
    app.move_selection_down();
    assert_eq!(app.selected, 0);
    app.move_selection_down();
    app.move_selection_down();
    assert_eq!(app.selected, 2);
    app.move_selection_up();
    assert_eq!(app.selected, 1);
}

#[test]
fn selection_on_empty_list_stays() {
    let mut app = app_with(0);
    app.move_selection_down();
    app.move_selection_up();
    assert_eq!(app.selected, 0);
}

#[test]
fn down_then_up_returns() {
    for n in 1..5 {
        for s in 0..n {
            let mut app = app_with(n);
            app.selected = s;
            app.move_selection_down();
            app.move_selection_up();
            assert_eq!(app.selected, s);
        }
    }
}

#[test]
fn save_reports_outcome() {
    let mut app = app_with(1);
    app.save(Ok(()));
    assert_eq!(app.status_msg, "Saved.");
    app.save(Err("disk full".to_string()));
    assert_eq!(app.status_msg, "Save error: disk full");
}

#[test]
fn start_add_opens_blank_form() {
    let mut app = app_with(1);
    app.form.alias = "left over".to_string();
    app.start_add();
    assert_eq!(app.screen, Screen::AddForm);
    assert_eq!(app.form.alias, "");
    assert_eq!(app.form.port, "22");
}

#[test]
fn start_edit_fills_form_from_selection() {
    let mut app = app_with(3);
    app.selected = 1;
    app.start_edit();
    assert_eq!(app.screen, Screen::EditForm(1));
    assert_eq!(app.form.alias, "s1");
    assert_eq!(app.form.host, "h1");
    assert_eq!(app.form.port, "22");
}

#[test]
fn start_edit_on_empty_list_does_nothing() {
    let mut app = app_with(0);
    app.start_edit();
    assert_eq!(app.screen, Screen::Dashboard);
}

#[test]
fn confirm_delete_needs_a_server() {
    let mut app = app_with(0);
    app.confirm_delete();
    assert_eq!(app.screen, Screen::Dashboard);
    let mut app = app_with(2);
    app.selected = 1;
    app.confirm_delete();
    assert_eq!(app.screen, Screen::ConfirmDelete(1));
}

#[test]
fn delete_removes_and_adjusts_selection() {
    let mut app = app_with(3);
    app.selected = 2;
    app.screen = Screen::ConfirmDelete(2);
    let e = app.do_delete(2);
    assert!(matches!(e, Effect::SaveQuietly));
    assert_eq!(aliases(&app), vec!["s0", "s1"]);
    assert_eq!(app.selected, 1);
    assert_eq!(app.status_msg, "Deleted 's2'");
    assert_eq!(app.screen, Screen::Dashboard);
}

#[test]
fn delete_middle_keeps_order() {
    let mut app = app_with(4);
    app.selected = 1;
    let e = app.do_delete(1);
    assert!(matches!(e, Effect::SaveQuietly));
    assert_eq!(aliases(&app), vec!["s0", "s2", "s3"]);
    assert_eq!(app.selected, 1);
}

#[test]
fn delete_last_server_leaves_selection_zero() {
    let mut app = app_with(1);
    app.do_delete(0);
    assert!(app.servers.is_empty());
    assert_eq!(app.selected, 0);
}

#[test]
fn delete_out_of_range_only_returns_to_list() {
    let mut app = app_with(2);
    app.screen = Screen::ConfirmDelete(5);
    let e = app.do_delete(5);
    assert!(matches!(e, Effect::Nothing));
    assert_eq!(app.servers.len(), 2);
    assert_eq!(app.status_msg, "");
    assert_eq!(app.screen, Screen::Dashboard);
}

#[test]
fn submit_add_appends_server() {
    let mut app = app_with(1);
    app.start_add();
    app.form.alias = " New ".to_string();
    app.form.host = "new.example.com".to_string();
    let e = app.submit_form();
    assert!(matches!(e, Effect::SaveAndReport));
    assert_eq!(aliases(&app), vec!["s0", "New"]);
    assert_eq!(app.status_msg, "Added 'New'");
    assert_eq!(app.screen, Screen::Dashboard);
    app.save(Ok(()));
    assert_eq!(app.status_msg, "Saved.");
}

#[test]
fn submit_edit_updates_server() {
    let mut app = app_with(2);
    app.selected = 1;
    app.start_edit();
    app.form.host = "changed.example.com".to_string();
    app.form.port = "2200".to_string();
    let e = app.submit_form();
    assert!(matches!(e, Effect::SaveAndReport));
    assert_eq!(app.servers[1].host, "changed.example.com");
    assert_eq!(app.servers[1].port, 2200);
    assert_eq!(app.servers[0].host, "h0");
    assert_eq!(app.status_msg, "Updated 's1'");
    assert_eq!(app.screen, Screen::Dashboard);
}

#[test]
fn submit_unchanged_edit_keeps_list() {
    let mut app = app_with(2);
    app.servers[0].username = "root".to_string();
    app.servers[0].tags = "a, b".to_string();
    app.start_edit();
    app.submit_form();
    assert_eq!(app.servers[0].alias, "s0");
    assert_eq!(app.servers[0].host, "h0");
    assert_eq!(app.servers[0].username, "root");
    assert_eq!(app.servers[0].port, 22);
    assert_eq!(app.servers[0].tags, "a, b");
    assert_eq!(app.servers.len(), 2);
}

#[test]
fn submit_blank_form_reports_required_fields() {
    let mut app = app_with(1);
    app.start_add();
    let e = app.submit_form();
    assert!(matches!(e, Effect::Nothing));
    assert_eq!(app.status_msg, "Alias and Host are required.");
    assert_eq!(app.screen, Screen::AddForm);
    assert_eq!(app.servers.len(), 1);
}

#[test]
fn submit_edit_of_missing_server_changes_nothing() {
    let mut app = app_with(1);
    app.screen = Screen::EditForm(4);
    app.form.alias = "x".to_string();
    app.form.host = "y".to_string();
    let e = app.submit_form();
    assert!(matches!(e, Effect::Nothing));
    assert_eq!(app.servers.len(), 1);
    assert_eq!(app.screen, Screen::Dashboard);
}

#[test]
fn cancel_form_clears_status() {
    let mut app = app_with(1);
    app.start_add();
    app.status_msg = "Alias and Host are required.".to_string();
    app.cancel_form();
    assert_eq!(app.screen, Screen::Dashboard);
    assert_eq!(app.status_msg, "");
    assert_eq!(app.servers.len(), 1);
}

#[test]
fn initiate_ssh_marks_selection() {
    let mut app = app_with(0);
    app.initiate_ssh();
    assert_eq!(app.should_ssh, None);
    let mut app = app_with(3);
    app.selected = 2;
    app.initiate_ssh();
    assert_eq!(app.should_ssh, Some(2));
    assert_eq!(app.form.focused, FormField::Alias);
}

#[test]
fn full_cycle_returns_to_start() {
    for n in 1..6 {
        for s in 0..n {
            let mut app = app_with(n);
            app.selected = s;
            for _ in 0..n {
                app.move_selection_up();
            }
            assert_eq!(app.selected, s);
            for _ in 0..n {
                app.move_selection_down();
            }
            assert_eq!(app.selected, s);
        }
    }
}
