use rust_aws_security_reporter::aggregator::attach;
use rust_aws_security_reporter::aggregator::collect_details;
use rust_aws_security_reporter::aggregator::detail_for;
use rust_aws_security_reporter::aggregator::Answered;
use rust_aws_security_reporter::aggregator::Attached;
use rust_aws_security_reporter::classifier::Detail;
use rust_aws_security_reporter::classifier::FailureKind;
use rust_aws_security_reporter::classifier::Operation;
use rust_aws_security_reporter::classifier::ProviderFailure;
use rust_aws_security_reporter::AWSError;

fn found(name: &str, value: u32) -> Answered<u32> {
    Answered { name: String::from(name), outcome: Ok(value) }
}

fn refused(name: &str, code: &str, text: &str) -> Answered<u32> {
    Answered {
        name: String::from(name),
        outcome: Err(ProviderFailure {
            kind: FailureKind::Service,
            code: Some(String::from(code)),
            message: String::from(text),
        }),
    }
}

fn entry(name: &str, detail: Detail<u32>) -> Attached<u32> {
    Attached { name: String::from(name), detail }
}

#[test]
fn attach_appends_the_detail() {
    let mut report = vec![entry("b1", Detail::Present(1))];
    let r = attach(&mut report, Operation::GetBucketPolicy, found("b2", 2));
    assert_eq!(r, Ok(()));
    assert_eq!(report, vec![entry("b1", Detail::Present(1)), entry("b2", Detail::Present(2))]);
}

#[test]
fn attach_records_an_absent_detail() {
    let mut report = Vec::new();
    let r = attach(
        &mut report,
        Operation::GetBucketPolicy,
        refused("b1", "NoSuchBucketPolicy", "service error"),
    );
    assert_eq!(r, Ok(()));
    assert_eq!(report, vec![entry("b1", Detail::Absent)]);
}

#[test]
fn attach_leaves_the_report_on_failure() {
    let mut report = vec![entry("b1", Detail::Present(1))];
    let r = attach(&mut report, Operation::GetBucketPolicy, refused("b2", "AccessDenied", "denied"));
    assert_eq!(
        r,
        Err(AWSError::new("denied").during(Operation::GetBucketPolicy).about(String::from("b2")))
    );
    assert_eq!(report, vec![entry("b1", Detail::Present(1))]);
}

#[test]
fn collect_details_follows_the_listing() {
    let report = collect_details(
        Operation::GetBucketLifecycleConfiguration,
        vec![
            found("b3", 30),
            refused("b1", "NoSuchLifecycleConfiguration", "service error"),
            found("b2", 20),
        ],
    );
    assert_eq!(
        report,
        Ok(vec![
            entry("b3", Detail::Present(30)),
            entry("b1", Detail::Absent),
            entry("b2", Detail::Present(20)),
        ])
    );
}

#[test]
fn collect_details_of_nothing_is_empty() {
    assert_eq!(collect_details(Operation::GetBucketAcl, Vec::<Answered<u32>>::new()), Ok(vec![]));
}

#[test]
fn collect_details_returns_the_first_failure() {
    let report = collect_details(
        Operation::GetBucketPolicy,
        vec![
            found("b1", 1),
            refused("b2", "NoSuchBucketPolicy", "service error"),
            refused("b3", "AccessDenied", "first"),
            refused("b4", "Throttling", "second"),
            found("b5", 5),
        ],
    );
    assert_eq!(
        report,
        Err(AWSError::new("first").during(Operation::GetBucketPolicy).about(String::from("b3")))
    );
}

#[test]
fn a_code_of_another_operation_is_a_failure() {
    let report = collect_details(
        Operation::GetBucketVersioning,
        vec![refused("b1", "NoSuchBucketPolicy", "service error")],
    );
    assert_eq!(
        report,
        Err(AWSError::new("service error")
            .during(Operation::GetBucketVersioning)
            .about(String::from("b1")))
    );
}

#[test]
fn detail_for_finds_by_whole_name() {
    let report = vec![entry("b1", Detail::Present(1)), entry("b10", Detail::Absent)];
    assert_eq!(detail_for(&report, &String::from("b1")), Some(&Detail::Present(1)));
    assert_eq!(detail_for(&report, &String::from("b10")), Some(&Detail::Absent));
    assert_eq!(detail_for(&report, &String::from("b")), None);
    assert_eq!(detail_for(&Vec::<Attached<u32>>::new(), &String::from("b1")), None);
}

#[test]
fn detail_for_takes_the_last_entry_of_a_name() {
    let report = vec![
        entry("b1", Detail::Present(1)),
        entry("b2", Detail::Present(2)),
        entry("b1", Detail::Present(3)),
    ];
    assert_eq!(detail_for(&report, &String::from("b1")), Some(&Detail::Present(3)));
}
