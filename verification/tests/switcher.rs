use branch_switcher::branches::local_branch_names;
use branch_switcher::branches::sort_local_branches;
use branch_switcher::branches::RefInfo;
use branch_switcher::protocol::handle_event;
use branch_switcher::protocol::Envelope;
use branch_switcher::protocol::Key;
use branch_switcher::protocol::Message;
use branch_switcher::protocol::MoveDirection;
use branch_switcher::reactor::App;
use branch_switcher::reactor::AppState;
use branch_switcher::reactor::Reply;
use branch_switcher::worker::completion_message;
use branch_switcher::worker::plan_work;
use branch_switcher::worker::progress_message;
use branch_switcher::worker::progress_percent;
use branch_switcher::worker::WorkAction;

fn down() -> Message {
    Message::Move { direction: MoveDirection::Down }
}

fn up() -> Message {
    Message::Move { direction: MoveDirection::Up }
}

fn three_branches() -> Vec<String> {
    vec!["main".to_string(), "dev".to_string(), "feature-x".to_string()]
}

#[test]
fn test_enter_key() {
    let result = handle_event(Key::Char('\n')).expect("Enter should create a command");
    assert_eq!(Envelope { s: Message::Enter }, result);
}

#[test]
fn bound_keys_map_to_their_commands() {
    assert_eq!(handle_event(Key::Char('j')), Some(Envelope { s: down() }));
    assert_eq!(handle_event(Key::Down), Some(Envelope { s: down() }));
    assert_eq!(handle_event(Key::Char('k')), Some(Envelope { s: up() }));
    assert_eq!(handle_event(Key::Up), Some(Envelope { s: up() }));
    assert_eq!(handle_event(Key::Char('f')), Some(Envelope { s: Message::Fetch }));
    assert_eq!(handle_event(Key::Char('q')), Some(Envelope { s: Message::Shutdown }));
}

#[test]
fn unbound_keys_map_to_no_command() {
    assert_eq!(handle_event(Key::Char('x')), None);
    assert_eq!(handle_event(Key::Char('J')), None);
    assert_eq!(handle_event(Key::Char(' ')), None);
    assert_eq!(handle_event(Key::Char('0')), None);
}

#[test]
fn move_up_at_top_is_a_no_op() {
    let mut app = App::default();
    let reply = app.handle_message(up(), 3);
    assert_eq!(reply, Reply::Continue);
    assert_eq!(app.position, 0);
    assert_eq!(app.state, AppState::Listing);
}

#[test]
fn move_down_at_bottom_is_a_no_op() {
    let mut app = App::default();
    app.handle_message(down(), 3);
    app.handle_message(down(), 3);
    assert_eq!(app.position, 2);
    let reply = app.handle_message(down(), 3);
    assert_eq!(reply, Reply::Continue);
    assert_eq!(app.position, 2);
}

#[test]
fn moves_on_an_empty_listing_stay_put() {
    let mut app = App::default();
    app.handle_message(down(), 0);
    assert_eq!(app.position, 0);
    app.handle_message(up(), 0);
    assert_eq!(app.position, 0);
}

#[test]
fn selection_snapshot_scenario() {
    // Branches ["main", "dev", "feature-x"], already in commit-recency order.
    let mut app = App::default();
    assert_eq!(app.position, 0);
    app.handle_message(down(), 3);
    app.handle_message(down(), 3);
    assert_eq!(app.position, 2);
    app.handle_message(down(), 3);
    assert_eq!(app.position, 2);
    let reply = app.handle_message(Message::Enter, 3);
    assert_eq!(reply, Reply::Dispatch { work: Message::Checkout { selected: 2 } });
    assert_eq!(app.state, AppState::CheckingOut { progress: 0, label: String::new() });
    app.handle_message(Message::Progress { percent: 50, label: "src/".to_string() }, 3);
    assert_eq!(app.state, AppState::CheckingOut { progress: 50, label: "src/".to_string() });
    app.handle_message(Message::Progress { percent: 100, label: String::new() }, 3);
    assert_eq!(app.state, AppState::Listing);
    assert_eq!(app.position, 2);
}

#[test]
fn listing_returns_exactly_at_one_hundred_percent() {
    let mut app = App::default();
    app.handle_message(Message::Enter, 3);
    for percent in [0u16, 10, 50, 99] {
        app.handle_message(Message::Progress { percent, label: "a".to_string() }, 3);
        assert_eq!(
            app.state,
            AppState::CheckingOut { progress: percent, label: "a".to_string() }
        );
    }
    app.handle_message(Message::Progress { percent: 100, label: String::new() }, 3);
    assert_eq!(app.state, AppState::Listing);
    // A fresh checkout starts from zero again.
    app.handle_message(Message::Enter, 3);
    assert_eq!(app.state, AppState::CheckingOut { progress: 0, label: String::new() });
}

#[test]
fn progress_while_listing_changes_nothing() {
    let mut app = App::default();
    app.handle_message(Message::Progress { percent: 42, label: "x".to_string() }, 3);
    assert_eq!(app.state, AppState::Listing);
    assert_eq!(app.position, 0);
}

#[test]
fn selection_is_frozen_during_a_checkout() {
    let mut app = App::default();
    app.handle_message(down(), 3);
    app.handle_message(Message::Enter, 3);
    app.handle_message(down(), 3);
    assert_eq!(app.position, 1);
    app.handle_message(Message::Progress { percent: 100, label: String::new() }, 3);
    app.handle_message(down(), 3);
    assert_eq!(app.position, 2);
}

#[test]
fn shutdown_quits_from_any_state() {
    let mut app = App::default();
    assert_eq!(app.handle_message(Message::Shutdown, 3), Reply::Quit);
    app.handle_message(Message::Enter, 3);
    assert_eq!(app.handle_message(Message::Shutdown, 3), Reply::Quit);
}

#[test]
fn fetch_dispatches_the_selection_at_dispatch_time() {
    let branches = three_branches();
    let mut app = App::default();
    app.handle_message(down(), 3);
    app.handle_message(down(), 3);
    let reply = app.handle_message(Message::Fetch, 3);
    let work = match reply {
        Reply::Dispatch { work } => work,
        other => panic!("expected a dispatch, got {:?}", other),
    };
    assert_eq!(work, Message::FetchRequested { selected: 2 });
    // The operator keeps moving before the worker takes the request up.
    app.handle_message(up(), 3);
    app.handle_message(up(), 3);
    let action = plan_work(&work, &branches);
    assert_eq!(action, WorkAction::DoFetch { refspec: "feature-x".to_string() });
}

#[test]
fn checkout_request_resolves_the_fresh_listing() {
    let branches = three_branches();
    let action = plan_work(&Message::Checkout { selected: 1 }, &branches);
    assert_eq!(action, WorkAction::DoCheckout { branch: "dev".to_string() });
}

#[test]
fn stale_request_is_rejected_not_resolved() {
    // The listing shrank between dispatch and processing.
    let branches = vec!["main".to_string()];
    let action = plan_work(&Message::Checkout { selected: 2 }, &branches);
    assert_eq!(action, WorkAction::Reject);
    let action = plan_work(&Message::FetchRequested { selected: 1 }, &branches);
    assert_eq!(action, WorkAction::Reject);
}

#[test]
fn non_work_messages_are_ignored_by_the_worker() {
    let branches = three_branches();
    assert_eq!(plan_work(&Message::Enter, &branches), WorkAction::Ignore);
    assert_eq!(plan_work(&Message::Shutdown, &branches), WorkAction::Ignore);
}

#[test]
fn an_error_returns_to_the_listing_and_is_dismissable() {
    let mut app = App::default();
    app.handle_message(Message::Enter, 3);
    app.handle_message(Message::Error { message: "no remote called origin".to_string() }, 3);
    assert_eq!(app.state, AppState::Listing);
    assert_eq!(app.status, "no remote called origin".to_string());
    // Starting the next operation dismisses the report.
    app.handle_message(Message::Fetch, 3);
    assert_eq!(app.status, String::new());
}

#[test]
fn percentages_are_rounded_and_clamped() {
    assert_eq!(progress_percent(0, 0), 0);
    assert_eq!(progress_percent(0, 7), 0);
    assert_eq!(progress_percent(1, 3), 33);
    assert_eq!(progress_percent(2, 3), 67);
    assert_eq!(progress_percent(1, 2), 50);
    assert_eq!(progress_percent(1, 200), 1);
    assert_eq!(progress_percent(7, 7), 100);
    assert_eq!(progress_percent(200, 100), 100);
}

#[test]
fn progress_reports_become_progress_messages() {
    let m = progress_message(Some("src/".to_string()), 1, 2);
    assert_eq!(m, Message::Progress { percent: 50, label: "src/".to_string() });
    let m = progress_message(None, 3, 4);
    assert_eq!(m, Message::Progress { percent: 75, label: "No Path".to_string() });
}

#[test]
fn the_terminal_report_is_one_hundred_percent() {
    assert_eq!(
        completion_message(),
        Message::Progress { percent: 100, label: String::new() }
    );
}

fn branch(name: &str, time: i64) -> RefInfo {
    RefInfo { name: name.to_string(), is_remote: false, is_branch: true, commit_time: time }
}

#[test]
fn listing_sorts_by_descending_commit_time() {
    let refs = vec![branch("old", 10), branch("new", 30), branch("mid", 20)];
    let names = local_branch_names(refs);
    assert_eq!(
        names,
        vec!["new".to_string(), "mid".to_string(), "old".to_string()]
    );
}

#[test]
fn listing_keeps_only_local_branches() {
    let refs = vec![
        branch("dev", 10),
        RefInfo {
            name: "origin/dev".to_string(),
            is_remote: true,
            is_branch: true,
            commit_time: 50,
        },
        RefInfo {
            name: "v1.0".to_string(),
            is_remote: false,
            is_branch: false,
            commit_time: 40,
        },
        branch("main", 20),
    ];
    let names = local_branch_names(refs);
    assert_eq!(names, vec!["main".to_string(), "dev".to_string()]);
}

#[test]
fn equal_commit_times_keep_the_given_order() {
    let refs = vec![
        branch("first", 20),
        branch("second", 20),
        branch("newer", 30),
        branch("third", 20),
    ];
    let sorted = sort_local_branches(refs);
    let names: Vec<&str> = sorted.iter().map(|b| b.name.as_str()).collect();
    assert_eq!(names, vec!["newer", "first", "second", "third"]);
}

#[test]
fn an_empty_repository_lists_nothing() {
    let names = local_branch_names(Vec::new());
    assert_eq!(names, Vec::<String>::new());
}

#[test]
fn refresh_clamps_the_selection_only_when_the_listing_shrank() {
    let mut app = App::default();
    app.handle_message(down(), 5);
    app.handle_message(down(), 5);
    app.handle_message(down(), 5);
    assert_eq!(app.position, 3);
    app.clamp_to(5);
    assert_eq!(app.position, 3);
    app.clamp_to(2);
    assert_eq!(app.position, 1);
    app.clamp_to(0);
    assert_eq!(app.position, 0);
}

#[test]
fn startup_state_shows_the_listing_from_the_top() {
    let app = App::default();
    assert_eq!(app.position, 0);
    assert_eq!(app.state, AppState::Listing);
    assert_eq!(app.status, String::new());
}
