use amenu::filter::{candidates, is_match, matches_folded};
use amenu::picker::{Action, Events, Picker};
use amenu::store::Store;

fn lines(ls: &[&str]) -> Vec<String> {
    ls.iter().map(|l| l.to_string()).collect()
}

fn picker_of(ls: &[&str]) -> Picker {
    Picker::new(Store::from_lines(&lines(ls)))
}

fn none() -> Events {
    Events { cancel: false, cycle: false, commit: false, text: None }
}

fn typed(t: &str) -> Events {
    Events { text: Some(t.to_string()), ..none() }
}

fn cycle() -> Events {
    Events { cycle: true, ..none() }
}

fn commit() -> Events {
    Events { commit: true, ..none() }
}

fn cancel() -> Events {
    Events { cancel: true, ..none() }
}

#[test]
fn greeting_scenario() {
    let mut p = picker_of(&["Greeting: Hello there", "Farewell: Goodbye now"]);
    assert_eq!(p.step(typed("gre")), Action::Continue);
    assert_eq!(p.candidates(), &vec!["Greeting".to_string()]);
    assert_eq!(p.selected_index(), 0);
    assert_eq!(p.step(commit()), Action::CopyAndQuit("Hello there".to_string()));
    assert!(p.is_terminating());
}

#[test]
fn empty_source_scenario() {
    let mut p = picker_of(&[]);
    for q in ["a", "gre", "", "Z"] {
        p.step(typed(q));
        assert!(p.candidates().is_empty());
    }
    let mut fresh = picker_of(&[]);
    assert_eq!(fresh.step(commit()), Action::Quit);
    assert!(fresh.is_terminating());
}

#[test]
fn two_matches_wrap_after_two_cycles() {
    let mut p = picker_of(&["one: 1", "three: 3"]);
    p.step(typed("e"));
    assert_eq!(p.candidates().len(), 2);
    let first = p.current();
    p.step(cycle());
    assert_eq!(p.selected_index(), 1);
    assert_ne!(p.current(), first);
    p.step(cycle());
    assert_eq!(p.selected_index(), 0);
    assert_eq!(p.current(), first);
}

#[test]
fn empty_query_has_no_candidates() {
    let store = Store::from_lines(&lines(&["alpha: a", "beta: b"]));
    assert!(candidates(store.all_names(), "").is_empty());
    let mut p = Picker::new(store);
    p.step(typed("a"));
    assert_eq!(p.candidates().len(), 2);
    p.step(typed(""));
    assert!(p.candidates().is_empty());
}

#[test]
fn match_ignores_case() {
    let store = Store::from_lines(&lines(&["Greeting: hi", "farewell: bye", "GREEN: g"]));
    let c = candidates(store.all_names(), "GRE");
    assert_eq!(c.len(), 2);
    assert!(c.contains(&"Greeting".to_string()));
    assert!(c.contains(&"GREEN".to_string()));
    assert!(!c.contains(&"farewell".to_string()));
    assert!(is_match("Greeting", "eTi"));
    assert!(!is_match("Greeting", "xyz"));
}

#[test]
fn candidates_keep_store_order() {
    let store = Store::from_lines(&lines(&["b1: x", "a2: y", "c3: z", "d: w"]));
    let names = store.all_names().clone();
    let c = candidates(&names, "3");
    assert_eq!(c, vec!["c3".to_string()]);
    let all: Vec<String> = ["b1", "a2", "c3"].iter().map(|s| s.to_string()).collect();
    let c = candidates(&all, "");
    assert!(c.is_empty());
    let c = candidates(&all, "A");
    assert_eq!(c, vec!["a2".to_string()]);
    let c = candidates(&names, "1");
    let positions: Vec<usize> = c.iter().map(|n| names.iter().position(|m| m == n).unwrap()).collect();
    assert!(positions.windows(2).all(|w| w[0] < w[1]));
    let mixed: Vec<String> = ["xb", "ya", "xc", "zx"].iter().map(|s| s.to_string()).collect();
    assert_eq!(candidates(&mixed, "x"), vec!["xb".to_string(), "xc".to_string(), "zx".to_string()]);
}

#[test]
fn query_change_resets_cursor() {
    let mut p = picker_of(&["aa: 1", "ab: 2", "ac: 3"]);
    p.step(typed("a"));
    p.step(cycle());
    p.step(cycle());
    assert_eq!(p.selected_index(), 2);
    p.step(typed("ab"));
    assert_eq!(p.selected_index(), 0);
    assert_eq!(p.candidates(), &vec!["ab".to_string()]);
}

#[test]
fn advance_k_times_is_k_mod_len() {
    let mut p = picker_of(&["aa: 1", "ab: 2", "ac: 3"]);
    p.set_query("a".to_string());
    for k in 1..10usize {
        p.advance();
        assert_eq!(p.selected_index(), k % 3);
    }
}

#[test]
fn advance_on_empty_is_noop() {
    let mut p = picker_of(&["aa: 1"]);
    p.set_query("zz".to_string());
    assert!(p.candidates().is_empty());
    p.advance();
    p.advance();
    assert_eq!(p.selected_index(), 0);
    assert_eq!(p.current(), None);
    assert_eq!(p.commit_content(), None);
}

#[test]
fn commit_writes_highlighted_content() {
    let mut p = picker_of(&["aa: first", "ab: second"]);
    p.step(typed("a"));
    p.step(cycle());
    let name = p.current().unwrap();
    let expected = p.store().get(&name).unwrap();
    assert_eq!(p.commit_content(), Some(expected.clone()));
    assert_eq!(p.step(commit()), Action::CopyAndQuit(expected));
}

#[test]
fn commit_with_no_candidates_quits_without_copy() {
    let mut p = picker_of(&["aa: first"]);
    p.step(typed("q"));
    assert_eq!(p.step(commit()), Action::Quit);
    assert!(p.is_terminating());
}

#[test]
fn cycle_and_commit_in_one_tick() {
    let mut p = picker_of(&["aa: first", "ab: second"]);
    p.step(typed("a"));
    let second = p.candidates()[1].clone();
    let content = p.store().get(&second).unwrap();
    let ev = Events { cycle: true, commit: true, ..none() };
    assert_eq!(p.step(ev), Action::CopyAndQuit(content));
}

#[test]
fn cancel_wins_over_everything() {
    let mut p = picker_of(&["aa: first"]);
    p.step(typed("a"));
    let ev = Events { cancel: true, cycle: true, commit: true, text: Some("zz".to_string()) };
    assert_eq!(p.step(ev), Action::Quit);
    assert!(p.is_terminating());
    assert_eq!(p.query(), "a");
    assert_eq!(p.candidates().len(), 1);
}

#[test]
fn commit_wins_over_text_change() {
    let mut p = picker_of(&["aa: first"]);
    p.step(typed("a"));
    let ev = Events { commit: true, text: Some("zz".to_string()), ..none() };
    assert_eq!(p.step(ev), Action::CopyAndQuit("first".to_string()));
    assert_eq!(p.query(), "a");
}

#[test]
fn terminated_picker_ignores_input() {
    let mut p = picker_of(&["aa: first"]);
    assert_eq!(p.step(cancel()), Action::Quit);
    assert_eq!(p.step(typed("a")), Action::Quit);
    assert_eq!(p.query(), "");
    assert!(p.candidates().is_empty());
    assert!(p.render().is_none());
}

#[test]
fn render_marks_highlighted_candidate() {
    let mut p = picker_of(&["aa: 1", "ab: 2"]);
    p.step(typed("A"));
    p.step(cycle());
    let m = p.render().unwrap();
    assert_eq!(m.query, "A");
    assert_eq!(m.items.len(), 2);
    assert_eq!(m.items[0], (p.candidates()[0].clone(), false));
    assert_eq!(m.items[1], (p.candidates()[1].clone(), true));
}

#[test]
fn new_picker_starts_empty() {
    let p = picker_of(&["aa: 1"]);
    assert_eq!(p.query(), "");
    assert!(p.candidates().is_empty());
    assert_eq!(p.selected_index(), 0);
    assert!(!p.is_terminating());
    assert_eq!(p.render().unwrap().items.len(), 0);
}

#[test]
fn matches_folded_is_plain_containment() {
    assert!(matches_folded("greeting", "eet"));
    assert!(matches_folded("greeting", ""));
    assert!(!matches_folded("greeting", "GRE"));
    assert!(!matches_folded("", "a"));
}
