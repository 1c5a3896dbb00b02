use node_evaluate::retry::{PoolErrorHandler, RetryPolicy, MAX_ATTEMPTS, MAX_FAST_ATTEMPTS};
use node_evaluate::text::javascript_file_name;

#[test]
fn javascript_file_keeps_its_name() {
    assert_eq!(javascript_file_name("index.js"), "index.js");
    assert_eq!(javascript_file_name(".js"), ".js");
}

#[test]
fn typescript_file_changes_its_extension() {
    assert_eq!(javascript_file_name("index.ts"), "index.js");
    assert_eq!(javascript_file_name("a.b.ts"), "a.b.js");
    assert_eq!(javascript_file_name(".ts"), ".js");
}

#[test]
fn other_files_get_an_extension() {
    assert_eq!(javascript_file_name("index"), "index.js");
    assert_eq!(javascript_file_name("index.tsx"), "index.tsx.js");
    assert_eq!(javascript_file_name("index.mjs"), "index.mjs.js");
    assert_eq!(javascript_file_name("js"), "js.js");
    assert_eq!(javascript_file_name(""), ".js");
}

#[test]
fn names_are_compared_by_characters() {
    assert_eq!(javascript_file_name("größe.ts"), "größe.js");
    assert_eq!(javascript_file_name("größe"), "größe.js");
    assert_eq!(javascript_file_name("é"), "é.js");
}

#[test]
fn naming_twice_changes_nothing() {
    for name in ["a", "a.ts", "a.js", "a.ts.js", "a.js.ts", ""] {
        let once = javascript_file_name(name);
        assert_eq!(javascript_file_name(&once), once);
        assert!(once.ends_with(".js"));
    }
}

#[test]
fn attempts_are_limited() {
    assert_eq!(MAX_FAST_ATTEMPTS, 5);
    assert_eq!(MAX_ATTEMPTS, 10);
}

#[test]
fn first_attempts_are_repeated_at_once() {
    let mut handler = PoolErrorHandler;
    for attempt in 0..5usize {
        assert_eq!(handler.handle(attempt, "gone"), RetryPolicy::Repeat);
    }
}

#[test]
fn later_attempts_wait_a_second() {
    let mut handler = PoolErrorHandler;
    for attempt in 5..10usize {
        assert_eq!(handler.handle(attempt, "gone"), RetryPolicy::WaitRetry(1));
    }
}

#[test]
fn last_attempt_forwards_its_error() {
    let mut handler = PoolErrorHandler;
    assert_eq!(handler.handle(10, "gone"), RetryPolicy::ForwardError("gone"));
    assert_eq!(handler.handle(11, "lost"), RetryPolicy::ForwardError("lost"));
    assert_eq!(handler.handle(usize::MAX, "lost"), RetryPolicy::ForwardError("lost"));
}

fn retry(outcomes: &[Result<u32, u32>]) -> (Option<Result<u32, u32>>, usize, u64) {
    let mut handler = PoolErrorHandler;
    let mut pause = 0u64;
    for (i, outcome) in outcomes.iter().enumerate() {
        match outcome {
            Ok(value) => return (Some(Ok(*value)), i + 1, pause),
            Err(error) => match handler.handle(i + 1, *error) {
                RetryPolicy::Repeat => {}
                RetryPolicy::WaitRetry(seconds) => pause += seconds,
                RetryPolicy::ForwardError(error) => return (Some(Err(error)), i + 1, pause),
            },
        }
    }
    (None, outcomes.len(), pause)
}

#[test]
fn ten_failures_give_up_with_the_last_error() {
    let outcomes: Vec<Result<u32, u32>> = (0..20u32).map(Err).collect();
    assert_eq!(retry(&outcomes), (Some(Err(9)), 10, 5));
    assert_eq!(retry(&outcomes[..9]), (None, 9, 5));
}

#[test]
fn first_success_ends_the_retry() {
    let mut outcomes: Vec<Result<u32, u32>> = (0..9u32).map(Err).collect();
    outcomes.push(Ok(42));
    assert_eq!(retry(&outcomes), (Some(Ok(42)), 10, 5));
    assert_eq!(retry(&[Err(1), Ok(7), Err(2)]), (Some(Ok(7)), 2, 0));
}
