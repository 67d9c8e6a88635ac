//! End-to-end scenarios: lines are typed character by character and
//! submitted, then the store, the dashboard text and the error text are
//! inspected.

use tasktrack::Model;

fn type_line(m: &mut Model, line: &str) {
    for c in line.chars() {
        m.add_char(c);
    }
}

fn submit(m: &mut Model, line: &str) {
    type_line(m, line);
    m.push_msg();
}

fn task(m: &Model, name: &str) -> Option<(u8, bool)> {
    match m.tasks.find_index(name) {
        Some(i) => {
            let t = m.tasks.get(i);
            Some((t.points, t.completed))
        }
        None => None,
    }
}

#[test]
fn add_stores_task_with_multiword_name() {
    let mut m = Model::default();
    submit(&mut m, "add alpha beta 5");
    assert_eq!(m.tasks.len(), 1);
    assert_eq!(task(&m, "alpha beta"), Some((5, false)));
    assert_eq!(m.error, "");
}

#[test]
fn add_single_argument_fails() {
    let mut m = Model::default();
    submit(&mut m, "add alpha");
    assert_eq!(m.error, "Invalid use of add command");
    assert_eq!(m.tasks.len(), 0);
}

#[test]
fn complete_succeeds_once_then_reports_already_completed() {
    let mut m = Model::default();
    submit(&mut m, "add t 3");
    submit(&mut m, "complete t");
    assert_eq!(task(&m, "t"), Some((3, true)));
    assert_eq!(m.error, "");
    submit(&mut m, "complete t");
    assert_eq!(m.error, "Task already completed");
    assert_eq!(task(&m, "t"), Some((3, true)));
}

#[test]
fn remove_absent_then_present_then_absent_again() {
    let mut m = Model::default();
    submit(&mut m, "remove t");
    assert_eq!(m.error, "Key not found");
    submit(&mut m, "add t 1");
    submit(&mut m, "remove t");
    assert_eq!(m.error, "");
    assert_eq!(m.tasks.len(), 0);
    submit(&mut m, "remove t");
    assert_eq!(m.error, "Key not found");
}

#[test]
fn graph_and_analysis_are_not_implemented() {
    let mut m = Model::default();
    submit(&mut m, "graph bar foo");
    assert_eq!(m.error, "Not implemented yet");
    assert_eq!(m.tasks.len(), 0);
    submit(&mut m, "analysis pca foo");
    assert_eq!(m.error, "Not implemented yet");
    assert_eq!(m.tasks.len(), 0);
}

#[test]
fn single_token_line_is_rejected_as_syntax() {
    let mut m = Model::default();
    submit(&mut m, "add");
    assert_eq!(m.error, "Invalid Command");
    assert_eq!(m.tasks.len(), 0);
}

#[test]
fn input_is_empty_after_submit_success_and_failure() {
    let mut m = Model::default();
    type_line(&mut m, "add a 1");
    m.pop_char();
    type_line(&mut m, "2");
    m.push_msg();
    assert_eq!(m.input, "");
    assert_eq!(m.error, "");
    type_line(&mut m, "nonsense");
    m.push_msg();
    assert_eq!(m.input, "");
    assert_eq!(m.error, "Invalid Command");
}

#[test]
fn delete_edits_input_and_is_noop_when_empty() {
    let mut m = Model::default();
    m.pop_char();
    assert_eq!(m.input, "");
    m.add_char('a');
    m.add_char('b');
    m.pop_char();
    assert_eq!(m.input, "a");
}

#[test]
fn dashboard_shows_sad_then_happy_marker() {
    let mut m = Model::default();
    submit(&mut m, "add a 5");
    assert_eq!(m.output, "a for 5 points 😢\n");
    submit(&mut m, "complete a");
    assert_eq!(m.output, "a for 5 points 😁\n");
}

#[test]
fn dashboard_lists_tasks_in_insertion_order() {
    let mut m = Model::default();
    submit(&mut m, "add b 10");
    submit(&mut m, "add a 255");
    submit(&mut m, "add c 0");
    assert_eq!(
        m.output,
        "b for 10 points 😢\na for 255 points 😢\nc for 0 points 😢\n"
    );
}

#[test]
fn re_adding_overwrites_in_place_and_resets_completed() {
    let mut m = Model::default();
    submit(&mut m, "add a 1");
    submit(&mut m, "add b 2");
    submit(&mut m, "complete a");
    submit(&mut m, "add a 7");
    assert_eq!(task(&m, "a"), Some((7, false)));
    assert_eq!(m.tasks.len(), 2);
    assert_eq!(m.output, "a for 7 points 😢\nb for 2 points 😢\n");
}

#[test]
fn add_with_two_tokens_stores_empty_name() {
    let mut m = Model::default();
    submit(&mut m, "add 5");
    assert_eq!(m.error, "");
    assert_eq!(task(&m, ""), Some((5, false)));
}

#[test]
fn complete_absent_task_fails() {
    let mut m = Model::default();
    submit(&mut m, "complete nothing here");
    assert_eq!(m.error, "Cannot mark nonexistent task as complete");
}

#[test]
fn failed_submit_still_rebuilds_dashboard() {
    let mut m = Model::default();
    submit(&mut m, "add a 9");
    submit(&mut m, "remove b");
    assert_eq!(m.error, "Key not found");
    assert_eq!(m.output, "a for 9 points 😢\n");
}
