use rust_aws_security_reporter::classifier::FailureKind;
use rust_aws_security_reporter::classifier::Operation;
use rust_aws_security_reporter::classifier::ProviderFailure;
use rust_aws_security_reporter::paginator::replay;
use rust_aws_security_reporter::paginator::Answer;
use rust_aws_security_reporter::paginator::Page;
use rust_aws_security_reporter::paginator::Paginator;
use rust_aws_security_reporter::paginator::Progress;
use rust_aws_security_reporter::AWSError;

fn page(items: Vec<u32>, next: Option<&str>) -> Answer<u32> {
    Ok(Page { items, next_token: next.map(String::from) })
}

fn failure(text: &str) -> Answer<u32> {
    Err(ProviderFailure { kind: FailureKind::Dispatch, code: None, message: String::from(text) })
}

#[test]
fn new_paginator_has_no_token() {
    let state: Paginator<u32> = Paginator::new(Operation::DescribeInstances);
    assert!(state.items.is_empty());
    assert_eq!(state.token(), None);
}

#[test]
fn advance_appends_and_keeps_the_token() {
    let state: Paginator<u32> = Paginator::new(Operation::DescribeInstances);
    let next = state.advance(page(vec![1, 2], Some("t1")));
    let state = match next {
        Progress::More(state) => state,
        other => panic!("{:?}", other),
    };
    assert_eq!(state.items, vec![1, 2]);
    assert_eq!(state.token(), Some(&String::from("t1")));
    assert_eq!(state.advance(page(vec![3], None)), Progress::Complete(vec![1, 2, 3]));
}

#[test]
fn advance_fails_with_the_providers_message() {
    let state: Paginator<u32> = Paginator {
        operation: Operation::ListUsers,
        items: vec![1, 2],
        token: Some(String::from("t1")),
    };
    assert_eq!(
        state.advance(failure("dispatch failure")),
        Progress::Failed(AWSError::new("dispatch failure").during(Operation::ListUsers))
    );
}

#[test]
fn paginator_concatenates_all_pages_in_order() {
    let run = replay(Operation::DescribeInstances, vec![
        page(vec![1, 2, 3], Some("a")),
        page(vec![], Some("b")),
        page(vec![4], Some("c")),
        page(vec![5, 6], None),
    ]);
    assert_eq!(run.progress, Progress::Complete(vec![1, 2, 3, 4, 5, 6]));
    assert_eq!(run.calls, 4);
}

#[test]
fn a_single_page_is_a_complete_listing() {
    let run = replay(Operation::DescribeInstances, vec![page(vec![9, 8], None)]);
    assert_eq!(run.progress, Progress::Complete(vec![9, 8]));
    assert_eq!(run.calls, 1);
}

#[test]
fn an_empty_token_ends_the_listing() {
    let run = replay(Operation::DescribeInstances, vec![page(vec![1], Some("")), page(vec![2], None)]);
    assert_eq!(run.progress, Progress::Complete(vec![1]));
    assert_eq!(run.calls, 1);
}

#[test]
fn no_request_is_made_after_the_last_page() {
    let run = replay(Operation::DescribeInstances, vec![page(vec![1], Some("a")), page(vec![2], None), page(vec![3], None)]);
    assert_eq!(run.progress, Progress::Complete(vec![1, 2]));
    assert_eq!(run.calls, 2);
}

#[test]
fn a_failing_page_discards_what_was_gathered() {
    let run = replay(Operation::DescribeInstances, vec![
        page(vec![1, 2], Some("a")),
        failure("request has timed out"),
        page(vec![3], None),
    ]);
    assert_eq!(run.progress, Progress::Failed(AWSError::new("request has timed out").during(Operation::DescribeInstances)));
    assert_eq!(run.calls, 2);
}

#[test]
fn a_failing_first_page_fails_the_listing() {
    let run = replay(Operation::DescribeInstances, vec![failure("dispatch failure")]);
    assert_eq!(run.progress, Progress::Failed(AWSError::new("dispatch failure").during(Operation::DescribeInstances)));
    assert_eq!(run.calls, 1);
}

#[test]
fn a_listing_without_its_last_page_is_still_open() {
    let run = replay(Operation::DescribeInstances, vec![page(vec![1], Some("a")), page(vec![2], Some("b"))]);
    assert_eq!(
        run.progress,
        Progress::More(Paginator { operation: Operation::DescribeInstances, items: vec![1, 2], token: Some(String::from("b")) })
    );
    assert_eq!(run.calls, 2);
}

#[test]
fn no_answers_leave_the_listing_at_its_start() {
    let run = replay(Operation::DescribeInstances, Vec::<Answer<u32>>::new());
    assert_eq!(run.progress, Progress::More(Paginator { operation: Operation::DescribeInstances, items: vec![], token: None }));
    assert_eq!(run.calls, 0);
}
