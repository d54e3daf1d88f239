use clitools::controller::{Key, KeyAction, SelectionResult, UIState};
use clitools::coordinator::{Coordinator, SearchOutcome, SearchRequest};
use clitools::gitlab::{filter_project_members, User};
use clitools::terminal::{ScopedRawMode, TermSettings};

fn user(id: u64, username: &str, name: &str) -> User {
    User {
        id,
        username: username.to_string(),
        name: name.to_string(),
        state: "active".to_string(),
        access_level: 30,
    }
}

fn type_term(state: &mut UIState, coordinator: &mut Coordinator, term: &str, now: u64) -> u64 {
    let mut at = now;
    let mut submitted = 0;
    for c in term.chars() {
        match state.handle_key(Key::Char(c)) {
            KeyAction::Submit(request) => {
                coordinator.submit(request.term, request.generation, at);
                submitted = request.generation;
            }
            _ => panic!("typing must submit"),
        }
        at += 10;
    }
    submitted
}

#[test]
fn scenario_results_selection() {
    // Type a term, let the debounce elapse, feed results back, move the
    // selection down once and take the second candidate.
    let mut state = UIState::new();
    let mut coordinator = Coordinator::new(150);
    let generation = type_term(&mut state, &mut coordinator, "al", 1000);
    assert!(state.loading);

    assert!(coordinator.tick(1100).is_none());
    let request = coordinator.tick(1010 + 150).expect("debounce must fire");
    assert_eq!(request.term, "al");
    assert_eq!(request.generation, generation);

    let users = vec![user(1, "alice", "Alice"), user(2, "albert", "Albert")];
    coordinator.deliver(
        SearchOutcome {
            generation: request.generation,
            result: Ok(users),
        },
        1200,
    );
    let outcome = coordinator.poll().expect("outcome must be queued");
    state.apply_outcome(outcome);
    assert_eq!(state.selected_index, 0);
    assert!(!state.loading);
    assert_eq!(state.results.len(), 2);

    match state.handle_key(Key::Down) {
        KeyAction::Continue => {}
        _ => panic!("down keeps looping"),
    }
    assert_eq!(state.selected_index, 1);

    match state.handle_key(Key::Enter) {
        KeyAction::Finish(SelectionResult::Selected(chosen)) => {
            assert_eq!(chosen.username, "albert");
        }
        _ => panic!("enter on results selects"),
    }
}

#[test]
fn scenario_error_then_recovery() {
    // A failing backend call shows an error line; typing on clears it and
    // asks for the new term.
    let mut state = UIState::new();
    let mut coordinator = Coordinator::new(150);
    let generation = type_term(&mut state, &mut coordinator, "x", 0);
    let request = coordinator.tick(200).unwrap();
    assert_eq!(request.term, "x");
    coordinator.deliver(
        SearchOutcome {
            generation,
            result: Err("Error: Timeout".to_string()),
        },
        250,
    );
    state.apply_outcome(coordinator.poll().unwrap());
    assert_eq!(state.error.as_deref(), Some("Error: Timeout"));
    assert!(!state.loading);

    match state.handle_key(Key::Char('y')) {
        KeyAction::Submit(SearchRequest { term, generation: g2 }) => {
            assert_eq!(term, "xy");
            assert_eq!(g2, generation + 1);
            coordinator.submit(term, g2, 300);
        }
        _ => panic!("typing must submit"),
    }
    assert_eq!(state.error, None);
    let request = coordinator.tick(450).unwrap();
    assert_eq!(request.term, "xy");
}

#[test]
fn scenario_escape_restores_terminal() {
    // Cancelling before any result arrives ends the session and the raw
    // mode scope hands back exactly the captured settings.
    let prior = TermSettings { raw: false };
    let scope = ScopedRawMode::enter(prior);
    let mut state = UIState::new();
    let mut coordinator = Coordinator::new(150);
    type_term(&mut state, &mut coordinator, "a", 0);
    match state.handle_key(Key::Esc) {
        KeyAction::Finish(SelectionResult::Cancelled) => {}
        _ => panic!("escape cancels"),
    }
    coordinator.stop();
    assert!(coordinator.tick(10_000).is_none());
    let restored = scope.release();
    assert_eq!(restored, prior);
}

#[test]
fn raw_mode_round_trip() {
    let prior = TermSettings { raw: true };
    let restored = ScopedRawMode::enter(prior).release();
    assert_eq!(restored, prior);
}

#[test]
fn debounce_coalesces_quick_typing() {
    // Three terms inside one debounce window cause one call, for the last.
    let mut coordinator = Coordinator::new(150);
    coordinator.submit("a".to_string(), 1, 1000);
    coordinator.submit("al".to_string(), 2, 1050);
    coordinator.submit("alb".to_string(), 3, 1100);
    assert!(coordinator.tick(1100).is_none());
    assert!(coordinator.tick(1249).is_none());
    let request = coordinator.tick(1250).expect("timer fires for the last term");
    assert_eq!(request.term, "alb");
    assert_eq!(request.generation, 3);
    assert!(coordinator.tick(2000).is_none());
}

#[test]
fn empty_term_short_circuits() {
    // The empty term never reaches the backend; an empty success appears
    // at once.
    let mut coordinator = Coordinator::new(150);
    coordinator.submit(String::new(), 7, 500);
    let outcome = coordinator.poll().expect("immediate outcome");
    assert_eq!(outcome.generation, 7);
    assert_eq!(outcome.result.unwrap().len(), 0);
    assert!(coordinator.tick(10_000).is_none());
}

#[test]
fn repeated_term_is_not_queried_twice() {
    let mut coordinator = Coordinator::new(150);
    coordinator.submit("abc".to_string(), 1, 0);
    let first = coordinator.tick(150).unwrap();
    assert_eq!(first.term, "abc");
    coordinator.deliver(SearchOutcome { generation: 1, result: Ok(Vec::new()) }, 200);
    coordinator.poll().unwrap();
    coordinator.submit("abc".to_string(), 2, 300);
    assert!(coordinator.tick(450).is_none());
}

#[test]
fn stale_outcome_is_discarded() {
    let mut state = UIState::new();
    let mut coordinator = Coordinator::new(150);
    type_term(&mut state, &mut coordinator, "ab", 0);
    let current = state.generation;
    state.apply_outcome(SearchOutcome {
        generation: current - 1,
        result: Ok(vec![user(9, "ghost", "Ghost")]),
    });
    assert_eq!(state.results.len(), 0);
    assert!(state.loading);
    assert_eq!(state.generation, current);
}

#[test]
fn in_flight_term_buffers_successor() {
    let mut coordinator = Coordinator::new(150);
    coordinator.submit("first".to_string(), 1, 0);
    let request = coordinator.tick(150).unwrap();
    assert_eq!(request.term, "first");
    // a new term while the call is in flight waits behind it
    coordinator.submit("second".to_string(), 2, 200);
    assert!(coordinator.tick(10_000).is_none());
    coordinator.deliver(SearchOutcome { generation: 1, result: Ok(Vec::new()) }, 300);
    let next = coordinator.tick(450).expect("buffered term becomes pending");
    assert_eq!(next.term, "second");
    assert_eq!(next.generation, 2);
}

#[test]
fn selection_wraps_both_ways() {
    let mut state = UIState::new();
    state.apply_outcome(SearchOutcome {
        generation: 0,
        result: Ok(vec![user(1, "a", "A"), user(2, "b", "B"), user(3, "c", "C")]),
    });
    assert_eq!(state.selected_index, 0);
    state.handle_key(Key::Up);
    assert_eq!(state.selected_index, 2);
    state.handle_key(Key::Down);
    assert_eq!(state.selected_index, 0);
    state.handle_key(Key::Down);
    assert_eq!(state.selected_index, 1);
}

#[test]
fn delete_clears_query_and_results() {
    let mut state = UIState::new();
    let mut coordinator = Coordinator::new(150);
    type_term(&mut state, &mut coordinator, "ab", 0);
    state.apply_outcome(SearchOutcome {
        generation: state.generation,
        result: Ok(vec![user(1, "a", "A")]),
    });
    match state.handle_key(Key::Delete) {
        KeyAction::Continue => {}
        _ => panic!("delete keeps looping without a backend call"),
    }
    assert_eq!(state.query, "");
    assert_eq!(state.results.len(), 0);
    assert_eq!(state.selected_index, 0);
}

#[test]
fn backspace_resubmits_shorter_term() {
    let mut state = UIState::new();
    let mut coordinator = Coordinator::new(150);
    type_term(&mut state, &mut coordinator, "ab", 0);
    match state.handle_key(Key::Backspace) {
        KeyAction::Submit(request) => {
            assert_eq!(request.term, "a");
        }
        _ => panic!("backspace must submit the shorter term"),
    }
    // on an empty query backspace does nothing
    let mut fresh = UIState::new();
    match fresh.handle_key(Key::Backspace) {
        KeyAction::Continue => {}
        _ => panic!("backspace on empty query is a no-op"),
    }
}

#[test]
fn enter_without_results_keeps_looping() {
    let mut state = UIState::new();
    match state.handle_key(Key::Enter) {
        KeyAction::Continue => {}
        _ => panic!("enter without results must not finish"),
    }
}

#[test]
fn stopped_coordinator_ignores_submissions() {
    let mut coordinator = Coordinator::new(150);
    coordinator.stop();
    coordinator.submit("late".to_string(), 1, 0);
    assert!(coordinator.tick(10_000).is_none());
    assert!(coordinator.poll().is_none());
}

#[test]
fn member_filter_keeps_active_developers() {
    let members = vec![
        user(1, "dev", "Dev"),
        User { state: "blocked".to_string(), ..user(2, "gone", "Gone") },
        User { access_level: 20, ..user(3, "guest", "Guest") },
        User { access_level: 50, ..user(4, "owner", "Owner") },
    ];
    let kept = filter_project_members(members);
    let names: Vec<&str> = kept.iter().map(|u| u.username.as_str()).collect();
    assert_eq!(names, vec!["dev", "owner"]);
}

#[test]
fn user_label_text() {
    let u = user(1, "alice", "Alice A");
    assert_eq!(u.label(), "Alice A, (alice)");
}
