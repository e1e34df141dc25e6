use bctop::actions::Action;
use bctop::app::{App, AppReturn, Effect, Step};
use bctop::container::{Container, ContainerStatus};
use bctop::io::IoEvent;
use bctop::key::Key;
use bctop::management::ContainerManagement;

fn record(id: &str, name: &str) -> Container {
    Container {
        id: id.to_string(),
        status: ContainerStatus::Running,
        name: name.to_string(),
        image: "img".to_string(),
        cpu_usage: 0,
        memory_usage_bytes: 0,
        memory_limit_bytes: 0,
        swarm_service: None,
        swarm_stack: None,
        compose_service: None,
        compose_project: None,
    }
}

fn app_with(names: &[(&str, &str)]) -> App {
    let mut app = App::new();
    for (id, name) in names {
        app.update_containers(record(id, name));
    }
    app
}

fn ids(app: &App) -> Vec<String> {
    app.containers().iter().map(|c| c.id.clone()).collect()
}

fn lines(texts: &[&str]) -> Vec<String> {
    texts.iter().map(|t| t.to_string()).collect()
}

fn nothing(step: &Step) -> bool {
    step.outcome == AppReturn::Continue && matches!(step.effect, Effect::Nothing)
}

fn dispatched(step: Step) -> IoEvent {
    assert_eq!(step.outcome, AppReturn::Continue);
    match step.effect {
        Effect::Dispatch(event) => event,
        other => panic!("no request went out: {:?}", other),
    }
}

fn transmitted(step: Step) -> String {
    assert_eq!(step.outcome, AppReturn::Continue);
    match step.effect {
        Effect::Transmit(text) => text,
        other => panic!("nothing was sent: {:?}", other),
    }
}

fn in_shell() -> App {
    let mut app = app_with(&[("a", "alpha")]);
    app.next();
    let step = app.do_action(Key::Char('e'));
    assert!(matches!(dispatched(step), IoEvent::StartExecSession(id) if id == "a"));
    app
}

fn in_log() -> App {
    let mut app = app_with(&[("a", "alpha")]);
    app.next();
    let step = app.do_action(Key::Char('l'));
    assert!(matches!(dispatched(step), IoEvent::ShowLogs(id) if id == "a"));
    app
}

#[test]
fn a_new_app_shows_the_empty_table() {
    let app = App::new();
    assert!(app.state().is_monitoring());
    assert!(app.containers().is_empty());
    assert_eq!(app.selected_container(), &None);
    assert_eq!(app.selected_container_index(), None);
    assert!(app.logs().is_empty());
    assert_eq!(app.log_position(), 0);
    assert_eq!(app.log_watermark(), 0);
    assert_eq!(app.search(), &None);
    assert_eq!(app.exec_cmd(), "");
    assert_eq!(app.actions().actions().len(), 7);
}

#[test]
fn quit_leaves_the_table() {
    let mut app = App::new();
    for key in [Key::Char('q'), Key::Ctrl('c'), Key::Esc] {
        let step = app.do_action(key);
        assert_eq!(step.outcome, AppReturn::Exit);
        assert!(matches!(step.effect, Effect::Nothing));
        assert!(app.state().is_monitoring());
    }
}

#[test]
fn an_unbound_key_does_nothing() {
    let mut app = app_with(&[("a", "alpha")]);
    for key in [Key::Char('x'), Key::Backspace, Key::Char('/'), Key::Tab, Key::Unknown] {
        assert!(nothing(&app.do_action(key)));
        assert!(app.state().is_monitoring());
        assert_eq!(app.selected_container(), &None);
    }
}

#[test]
fn show_logs_without_selection_changes_nothing() {
    let mut app = app_with(&[("a", "alpha")]);
    app.add_logs(lines(&["old"]));
    app.logs_fetched_at(42);
    for key in [Key::Char('l'), Key::Enter] {
        assert!(nothing(&app.do_action(key)));
        assert!(app.state().is_monitoring());
        assert_eq!(app.logs(), &lines(&["old"]));
        assert_eq!(app.log_position(), 0);
        assert_eq!(app.log_watermark(), 42);
        assert_eq!(app.actions().actions().len(), 7);
    }
    assert!(nothing(&app.do_state_monitoring_actions(Action::ShowLogs)));
    assert!(app.state().is_monitoring());
}

#[test]
fn shell_stop_and_pause_without_selection_change_nothing() {
    let mut app = app_with(&[("a", "alpha")]);
    for key in [Key::Char('e'), Key::Char('s'), Key::Char('p')] {
        assert!(nothing(&app.do_action(key)));
        assert!(app.state().is_monitoring());
    }
}

#[test]
fn show_logs_enters_the_log_view_and_rewinds_the_watermark() {
    let mut app = app_with(&[("a", "alpha")]);
    app.next();
    app.logs_fetched_at(42);
    let step = app.do_action(Key::Enter);
    assert!(matches!(dispatched(step), IoEvent::ShowLogs(id) if id == "a"));
    assert!(app.state().is_logging());
    assert_eq!(app.log_watermark(), 0);
    assert_eq!(
        app.actions().actions(),
        &[Action::Quit, Action::ScrollDown, Action::ScrollUp, Action::Search, Action::Remove]
    );
}

#[test]
fn stop_and_pause_ask_for_the_selected_container() {
    let mut app = app_with(&[("a", "alpha"), ("b", "bravo")]);
    app.next();
    app.next();
    let step = app.do_action(Key::Char('s'));
    assert!(matches!(dispatched(step), IoEvent::StopContainer(id) if id == "b"));
    let step = app.do_action(Key::Char('p'));
    assert!(matches!(dispatched(step), IoEvent::PauseContainer(id) if id == "b"));
    assert!(app.state().is_monitoring());
}

#[test]
fn next_and_previous_move_the_selection() {
    let mut app = app_with(&[("c", "charlie"), ("a", "alpha"), ("b", "bravo")]);
    assert_eq!(ids(&app), vec!["a", "b", "c"]);
    app.next();
    assert_eq!(app.selected_container(), &Some("a".to_string()));
    assert_eq!(app.selected_container_index(), Some(0));
    app.next();
    assert_eq!(app.selected_container(), &Some("b".to_string()));
    app.next();
    assert_eq!(app.selected_container(), &Some("c".to_string()));
    assert_eq!(app.selected_container_index(), Some(2));
    app.next();
    assert_eq!(app.selected_container(), &Some("c".to_string()));
    app.previous();
    assert_eq!(app.selected_container(), &Some("b".to_string()));
    app.previous();
    app.previous();
    assert_eq!(app.selected_container(), &Some("a".to_string()));
}

#[test]
fn keys_move_the_selection() {
    let mut app = app_with(&[("a", "alpha"), ("b", "bravo")]);
    assert!(nothing(&app.do_action(Key::Down)));
    assert_eq!(app.selected_container(), &Some("a".to_string()));
    assert!(nothing(&app.do_action(Key::Char('n'))));
    assert_eq!(app.selected_container(), &Some("b".to_string()));
    assert!(nothing(&app.do_action(Key::Up)));
    assert_eq!(app.selected_container(), &Some("a".to_string()));
    assert!(nothing(&app.do_action(Key::Right)));
    assert_eq!(app.selected_container(), &Some("b".to_string()));
    assert!(nothing(&app.do_action(Key::Left)));
    assert_eq!(app.selected_container(), &Some("a".to_string()));
}

#[test]
fn previous_without_selection_selects_the_first_container() {
    let mut app = app_with(&[("a", "alpha"), ("b", "bravo")]);
    app.previous();
    assert_eq!(app.selected_container(), &Some("a".to_string()));
}

#[test]
fn moving_in_an_empty_table_selects_nothing() {
    let mut app = App::new();
    app.next();
    assert_eq!(app.selected_container(), &None);
    app.previous();
    assert_eq!(app.selected_container(), &None);
}

#[test]
fn a_selection_that_is_gone_counts_as_the_top() {
    let mut app = app_with(&[("a", "alpha"), ("b", "bravo"), ("c", "charlie")]);
    app.next();
    app.next();
    app.next();
    app.remove_container("c");
    assert_eq!(app.selected_container(), &Some("c".to_string()));
    assert_eq!(app.selected_container_index(), None);
    app.next();
    assert_eq!(app.selected_container(), &Some("b".to_string()));
    app.remove_container("b");
    app.previous();
    assert_eq!(app.selected_container(), &Some("a".to_string()));
}

#[test]
fn containers_are_upserted_and_removed() {
    let mut app = app_with(&[("b", "bravo"), ("a", "alpha")]);
    assert_eq!(ids(&app), vec!["a", "b"]);
    let mut changed = record("a", "zulu");
    changed.cpu_usage = 1234;
    app.update_containers(changed);
    assert_eq!(ids(&app), vec!["b", "a"]);
    assert_eq!(app.containers()[1].cpu_usage, 1234);
    app.remove_container("b");
    assert_eq!(ids(&app), vec!["a"]);
    app.remove_container("missing");
    assert_eq!(ids(&app), vec!["a"]);
}

#[test]
fn log_view_scrolls() {
    let mut app = in_log();
    app.add_logs(lines(&["1", "2", "3"]));
    assert!(nothing(&app.do_action(Key::Up)));
    assert_eq!(app.log_position(), 1);
    assert!(nothing(&app.do_action(Key::Up)));
    assert!(nothing(&app.do_action(Key::Up)));
    assert_eq!(app.log_position(), 2);
    app.add_logs(lines(&["4", "5"]));
    assert_eq!(app.log_position(), 4);
    assert!(nothing(&app.do_action(Key::Down)));
    assert_eq!(app.log_position(), 3);
    assert_eq!(app.logs(), &lines(&["1", "2", "3", "4", "5"]));
}

#[test]
fn log_view_searches() {
    let mut app = in_log();
    app.add_logs(lines(&["ok", "warn", "ERRor", "ok"]));
    assert!(nothing(&app.do_action(Key::Char('/'))));
    assert_eq!(app.search(), &Some(String::new()));
    for c in ['e', 'r', 'q', 'r'] {
        assert!(nothing(&app.do_action(Key::Char(c))));
    }
    assert_eq!(app.search(), &Some("erqr".to_string()));
    assert!(nothing(&app.do_action(Key::Backspace)));
    assert!(nothing(&app.do_action(Key::Backspace)));
    assert!(nothing(&app.do_action(Key::Char('r'))));
    assert_eq!(app.search(), &Some("err".to_string()));
    assert!(nothing(&app.do_action(Key::Enter)));
    assert_eq!(app.log_position(), 1);
    assert!(nothing(&app.do_action(Key::Enter)));
    assert_eq!(app.log_position(), 1);
    assert!(app.state().is_logging());
}

#[test]
fn quit_in_a_search_only_closes_the_search() {
    let mut app = in_log();
    app.add_logs(lines(&["a", "b"]));
    app.do_action(Key::Char('/'));
    app.do_action(Key::Char('a'));
    assert!(nothing(&app.do_action(Key::Esc)));
    assert_eq!(app.search(), &None);
    assert!(app.state().is_logging());
    assert_eq!(app.logs().len(), 2);
}

#[test]
fn quit_leaves_the_log_view_and_clears_the_buffer() {
    let mut app = in_log();
    app.add_logs(lines(&["a", "b", "c"]));
    app.do_action(Key::Up);
    let step = app.do_action(Key::Char('q'));
    assert!(matches!(dispatched(step), IoEvent::StartMonitoring));
    assert!(app.state().is_monitoring());
    assert!(app.logs().is_empty());
    assert_eq!(app.log_position(), 0);
    assert_eq!(app.actions().actions().len(), 7);
    assert_eq!(app.selected_container(), &Some("a".to_string()));
}

#[test]
fn backspace_outside_a_search_does_nothing() {
    let mut app = in_log();
    assert!(nothing(&app.do_action(Key::Backspace)));
    assert_eq!(app.search(), &None);
}

#[test]
fn shell_view_collects_what_is_typed() {
    let mut app = in_shell();
    assert!(app.state().is_exec_command());
    assert_eq!(app.actions().actions(), &[Action::Quit, Action::SendCMD]);
    for c in ['l', 's', ' ', 'q'] {
        assert!(nothing(&app.do_action(Key::Char(c))));
    }
    assert_eq!(app.exec_cmd(), "ls q");
    assert!(app.state().is_exec_command());
}

#[test]
fn send_transmits_the_command_and_echoes_it_on_the_last_line() {
    let mut app = in_shell();
    app.add_tty_output("$ ".to_string());
    app.do_action(Key::Char('l'));
    app.do_action(Key::Char('s'));
    let step = app.do_action(Key::Enter);
    assert_eq!(transmitted(step), "ls\n");
    assert_eq!(app.exec_cmd(), "");
    assert_eq!(app.logs(), &lines(&["$ ls\n"]));
}

#[test]
fn the_echo_of_the_command_is_swallowed_once() {
    let mut app = in_shell();
    app.do_action(Key::Char('l'));
    app.do_action(Key::Char('s'));
    assert_eq!(transmitted(app.do_action(Key::Enter)), "ls\n");
    assert!(app.is_echo("ls"));
    assert!(app.is_echo("  ls\r\n"));
    assert!(!app.is_echo("ls -l"));
    app.add_tty_output("ls".to_string());
    assert!(app.logs().is_empty());
    assert!(!app.is_echo("ls"));
    app.add_tty_output("file.txt".to_string());
    assert_eq!(app.logs(), &lines(&["file.txt"]));
    app.add_tty_output("ls".to_string());
    assert_eq!(app.logs(), &lines(&["file.txt", "ls"]));
}

#[test]
fn output_that_differs_from_the_command_is_kept() {
    let mut app = in_shell();
    app.do_action(Key::Char('l'));
    app.do_action(Key::Char('s'));
    app.do_action(Key::Enter);
    app.add_tty_output("lsx".to_string());
    assert_eq!(app.logs(), &lines(&["lsx"]));
    app.add_tty_output(" ls ".to_string());
    assert_eq!(app.logs(), &lines(&["lsx"]));
    app.add_tty_output(" ls ".to_string());
    assert_eq!(app.logs(), &lines(&["lsx", " ls "]));
}

#[test]
fn fold_tty_output_takes_the_echo_as_given() {
    let mut app = in_shell();
    app.fold_tty_output("a".to_string(), true);
    assert_eq!(app.logs(), &lines(&["a"]));
    app.do_action(Key::Char('x'));
    app.do_action(Key::Enter);
    app.fold_tty_output("anything".to_string(), true);
    assert_eq!(app.logs(), &lines(&["ax\n"]));
    app.fold_tty_output("anything".to_string(), true);
    assert_eq!(app.logs(), &lines(&["ax\n", "anything"]));
    app.do_action(Key::Enter);
    app.fold_tty_output("b".to_string(), false);
    assert_eq!(app.logs(), &lines(&["ax\n", "anything\n", "b"]));
}

#[test]
fn the_word_exit_ends_the_session() {
    let mut app = in_shell();
    app.add_tty_output("line".to_string());
    app.add_tty_output("exit".to_string());
    assert!(app.state().is_monitoring());
    assert!(app.logs().is_empty());
    assert_eq!(app.log_position(), 0);
    assert_eq!(app.actions().actions().len(), 7);
    app.add_tty_output(" exit".to_string());
    assert!(app.logs().is_empty());
}

#[test]
fn shell_output_outside_a_shell_view_is_dropped() {
    let mut app = App::new();
    app.add_tty_output("line".to_string());
    assert!(app.logs().is_empty());
    let mut app = in_log();
    app.add_tty_output("line".to_string());
    assert!(app.logs().is_empty());
    assert!(app.state().is_logging());
}

#[test]
fn quit_in_a_shell_sends_exit_and_returns_to_the_table() {
    let mut app = in_shell();
    app.add_tty_output("line".to_string());
    let step = app.do_action(Key::Esc);
    assert_eq!(transmitted(step), "exit\n");
    assert!(app.state().is_monitoring());
    assert!(app.logs().is_empty());
}

#[test]
fn actions_of_another_mode_do_nothing() {
    let mut app = in_log();
    assert!(nothing(&app.do_state_logging_actions(Action::ShowLogs)));
    assert!(nothing(&app.do_state_logging_actions(Action::SendCMD)));
    assert!(app.state().is_logging());
    assert!(nothing(&app.do_state_exec_command_actions(Action::Next)));
    assert!(nothing(&app.do_state_monitoring_actions(Action::Search)));
    assert!(app.state().is_logging());
}

#[test]
fn send_without_an_open_session_does_nothing() {
    let mut app = App::new();
    assert!(nothing(&app.do_state_exec_command_actions(Action::SendCMD)));
    assert_eq!(app.exec_cmd(), "");
    let step = app.do_state_exec_command_actions(Action::Quit);
    assert!(nothing(&step));
    assert!(app.state().is_monitoring());
}

#[test]
fn the_tick_changes_nothing() {
    let mut app = in_log();
    app.add_logs(lines(&["a"]));
    assert_eq!(app.update_on_tick(), AppReturn::Continue);
    assert!(app.state().is_logging());
    assert_eq!(app.logs(), &lines(&["a"]));
}

#[test]
fn fetched_logs_move_the_watermark_to_the_clock() {
    let mut app = in_log();
    assert_eq!(app.log_watermark(), 0);
    app.mark_logs_fetched();
    let first = app.log_watermark();
    assert!(first > 1_577_836_800);
    app.logs_fetched_at(first - 10);
    assert_eq!(app.log_watermark(), first);
    app.logs_fetched_at(first + 10);
    assert_eq!(app.log_watermark(), first + 10);
}
