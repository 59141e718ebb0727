use worker_pipeline::pipeline::{
    coordinator_run, echo, greeting, greetings, inc, plus_one, worker_step, SENTINEL,
};

#[test]
fn sentinel_alone_gets_exactly_one_reply() {
    let replies = plus_one(&vec![SENTINEL]);
    assert_eq!(replies, vec![1]);
}

#[test]
fn worker_stops_reading_after_the_sentinel() {
    let replies = plus_one(&vec![SENTINEL, 7, 8]);
    assert_eq!(replies, vec![1]);
}

#[test]
fn each_value_is_answered_with_its_successor() {
    let replies = plus_one(&vec![20, 21, 22, 23, 24, SENTINEL]);
    assert_eq!(replies, vec![21, 22, 23, 24, 25, 1]);
}

#[test]
fn negative_values_are_incremented_too() {
    let replies = plus_one(&vec![-5, -1, SENTINEL]);
    assert_eq!(replies, vec![-4, 0, 1]);
}

#[test]
fn coordinator_round_trip_preserves_order() {
    let replies = coordinator_run(&vec![20, 21, 22, 23, 24]);
    assert_eq!(replies, vec![21, 22, 23, 24, 25]);
}

#[test]
fn coordinator_with_no_values_gets_no_replies() {
    let replies = coordinator_run(&vec![]);
    assert_eq!(replies, Vec::<i64>::new());
}

#[test]
fn one_worker_turn() {
    assert_eq!(worker_step(41), (42, false));
    assert_eq!(worker_step(SENTINEL), (1, true));
    assert_eq!(worker_step(-1), (0, false));
}

#[test]
fn echo_returns_its_value_once() {
    assert_eq!(echo(10), 10);
}

#[test]
fn greeting_content_is_fixed() {
    assert_eq!(greeting(), "Hello");
}

#[test]
fn ten_greeting_tasks_say_ten_fixed_lines() {
    let lines = greetings(10);
    assert_eq!(lines.len(), 10);
    for line in &lines {
        assert_eq!(line, "Hello");
    }
}

#[test]
fn inc_adds_one_through_a_borrow() {
    let x: i64 = 10;
    assert_eq!(inc(&x), 11);
}
