use rust_aws_security_reporter::classifier::Operation;
use rust_aws_security_reporter::memoizer::tag;
use rust_aws_security_reporter::memoizer::Admission;
use rust_aws_security_reporter::memoizer::CallCache;
use rust_aws_security_reporter::memoizer::CallKey;
use rust_aws_security_reporter::AWSError;
use std::cell::Cell;

fn value_of(result: &Result<u32, AWSError>) -> Result<u32, String> {
    match result {
        Ok(v) => Ok(*v),
        Err(e) => Err(e.message().clone()),
    }
}

fn buckets() -> CallKey {
    CallKey::collection(Operation::ListBuckets)
}

fn users() -> CallKey {
    CallKey::collection(Operation::ListUsers)
}

fn policy_of(bucket: &str) -> CallKey {
    CallKey::item(Operation::GetBucketPolicy, String::from(bucket))
}

fn all_operations() -> Vec<Operation> {
    vec![
        Operation::ListBuckets,
        Operation::GetBucketVersioning,
        Operation::GetBucketAcl,
        Operation::GetBucketPolicy,
        Operation::GetBucketLogging,
        Operation::GetBucketLifecycleConfiguration,
        Operation::ListUsers,
        Operation::GetUserPolicy,
        Operation::DescribeInstances,
        Operation::DescribeImages,
        Operation::GetCallerIdentity,
    ]
}

#[test]
fn tags_are_fixed_texts() {
    assert_eq!(tag(Operation::ListBuckets), "s3_buckets");
    assert_eq!(tag(Operation::GetBucketVersioning), "s3_bucket_versioning");
    assert_eq!(tag(Operation::GetBucketAcl), "s3_bucket_acl");
    assert_eq!(tag(Operation::GetBucketPolicy), "s3_bucket_policy");
    assert_eq!(tag(Operation::GetBucketLogging), "s3_bucket_logging");
    assert_eq!(tag(Operation::GetBucketLifecycleConfiguration), "s3_bucket_lifecycle");
    assert_eq!(tag(Operation::ListUsers), "iam_users");
    assert_eq!(tag(Operation::GetUserPolicy), "iam_user_policy");
    assert_eq!(tag(Operation::DescribeInstances), "ec2_instances");
    assert_eq!(tag(Operation::DescribeImages), "ec2_images");
    assert_eq!(tag(Operation::GetCallerIdentity), "sts_identity");
}

#[test]
fn tags_are_distinct_and_hold_no_separator() {
    let tags: Vec<&str> = all_operations().into_iter().map(tag).collect();
    for (i, one) in tags.iter().enumerate() {
        assert!(!one.contains('/'));
        for other in &tags[i + 1..] {
            assert_ne!(one, other);
        }
    }
}

#[test]
fn a_collection_key_renders_as_its_tag() {
    let key = buckets();
    assert_eq!(key.operation, Operation::ListBuckets);
    assert_eq!(key.item, None);
    assert_eq!(key.render(), "s3_buckets");
}

#[test]
fn an_item_key_embeds_the_identity() {
    assert_eq!(policy_of("b1").render(), "s3_bucket_policy/b1");
    assert_eq!(policy_of("").render(), "s3_bucket_policy/");
    assert_eq!(
        CallKey::item(Operation::GetUserPolicy, String::from("dept/alice")).render(),
        "iam_user_policy/dept/alice"
    );
}

#[test]
fn an_item_key_differs_from_the_collection_key() {
    assert_ne!(policy_of("").render(), CallKey::collection(Operation::GetBucketPolicy).render());
    assert_ne!(
        CallKey::item(Operation::ListBuckets, String::from("x")).render(),
        buckets().render()
    );
}

#[test]
fn new_cache_is_empty() {
    let cache: CallCache<u32> = CallCache::new();
    assert_eq!(cache.executed(), 0);
    assert!(cache.lookup(&buckets()).is_none());
}

#[test]
fn call_runs_compute_once_per_key() {
    let mut cache: CallCache<u32> = CallCache::new();
    let runs = Cell::new(0u32);
    for _ in 0..5 {
        let seen = value_of(cache.call(&buckets(), || {
            runs.set(runs.get() + 1);
            Ok(40 + runs.get())
        }));
        assert_eq!(seen, Ok(41));
    }
    assert_eq!(runs.get(), 1);
    assert_eq!(cache.executed(), 1);
}

#[test]
fn call_remembers_failures_too() {
    let mut cache: CallCache<u32> = CallCache::new();
    let runs = Cell::new(0u32);
    let first = value_of(cache.call(&users(), || {
        runs.set(runs.get() + 1);
        Err(AWSError::new("access denied"))
    }));
    let second = value_of(cache.call(&users(), || {
        runs.set(runs.get() + 1);
        Ok(1)
    }));
    assert_eq!(first, Err(String::from("access denied")));
    assert_eq!(second, Err(String::from("access denied")));
    assert_eq!(runs.get(), 1);
}

#[test]
fn distinct_keys_settle_separately() {
    let mut cache: CallCache<u32> = CallCache::new();
    assert_eq!(value_of(cache.call(&policy_of("b1"), || Ok(1))), Ok(1));
    assert_eq!(value_of(cache.call(&policy_of("b2"), || Ok(2))), Ok(2));
    assert_eq!(value_of(cache.call(&policy_of("b1"), || Ok(3))), Ok(1));
    assert_eq!(cache.executed(), 2);
    assert_eq!(cache.lookup(&policy_of("b2")).map(value_of), Some(Ok(2)));
    assert!(cache.lookup(&policy_of("b3")).is_none());
}

#[test]
fn item_keys_keep_items_apart() {
    let mut cache: CallCache<u32> = CallCache::new();
    let runs = Cell::new(0u32);
    for name in ["b1", "b2", "b1", "b3", "b2"] {
        cache.call(&policy_of(name), || {
            runs.set(runs.get() + 1);
            Ok(name.len() as u32)
        });
    }
    assert_eq!(runs.get(), 3);
    assert_eq!(cache.executed(), 3);
    assert!(cache.lookup(&CallKey::collection(Operation::GetBucketPolicy)).is_none());
}

#[test]
fn the_same_item_under_another_operation_is_another_call() {
    let mut cache: CallCache<u32> = CallCache::new();
    let b1 = String::from("b1");
    assert_eq!(value_of(cache.call(&CallKey::item(Operation::GetBucketAcl, b1.clone()), || Ok(1))), Ok(1));
    assert_eq!(
        value_of(cache.call(&CallKey::item(Operation::GetBucketPolicy, b1.clone()), || Ok(2))),
        Ok(2)
    );
    assert_eq!(cache.executed(), 2);
}

#[test]
fn an_identity_with_a_separator_does_not_collide() {
    let mut cache: CallCache<u32> = CallCache::new();
    let nested = CallKey::item(Operation::GetUserPolicy, String::from("a/b"));
    let plain = CallKey::item(Operation::GetUserPolicy, String::from("a"));
    assert_eq!(value_of(cache.call(&nested, || Ok(1))), Ok(1));
    assert_eq!(value_of(cache.call(&plain, || Ok(2))), Ok(2));
    assert_eq!(cache.lookup(&nested).map(value_of), Some(Ok(1)));
    assert_eq!(cache.executed(), 2);
}

#[test]
fn record_keeps_the_first_result() {
    let mut cache: CallCache<u32> = CallCache::new();
    let images = CallKey::collection(Operation::DescribeImages);
    let instances = CallKey::collection(Operation::DescribeInstances);
    assert_eq!(value_of(cache.record(&images, Ok(10))), Ok(10));
    assert_eq!(value_of(cache.record(&images, Ok(11))), Ok(10));
    assert_eq!(value_of(cache.record(&instances, Ok(12))), Ok(12));
    assert_eq!(cache.executed(), 2);
    assert_eq!(cache.lookup(&images).map(value_of), Some(Ok(10)));
}

#[test]
fn the_first_caller_executes_and_the_others_wait() {
    let mut cache: CallCache<u32> = CallCache::new();
    assert!(matches!(cache.begin(&buckets()), Admission::Execute));
    for _ in 0..4 {
        assert!(matches!(cache.begin(&buckets()), Admission::Wait));
    }
    assert!(cache.lookup(&buckets()).is_none());
    assert_eq!(cache.executed(), 1);
    assert_eq!(value_of(cache.record(&buckets(), Ok(5))), Ok(5));
    for _ in 0..4 {
        match cache.begin(&buckets()) {
            Admission::Settled(result) => assert_eq!(value_of(result), Ok(5)),
            other => panic!("{:?}", other),
        }
    }
    assert_eq!(cache.executed(), 1);
}

#[test]
fn many_callers_one_execution() {
    let mut cache: CallCache<u32> = CallCache::new();
    let mut executions = 0;
    let mut waiting = 0;
    for _ in 0..8 {
        match cache.begin(&users()) {
            Admission::Execute => executions += 1,
            Admission::Wait => waiting += 1,
            Admission::Settled(_) => panic!("settled before any result"),
        }
    }
    assert_eq!(executions, 1);
    assert_eq!(waiting, 7);
    cache.record(&users(), Err(AWSError::new("denied")));
    let mut seen = Vec::new();
    for _ in 0..8 {
        match cache.begin(&users()) {
            Admission::Settled(result) => seen.push(value_of(result)),
            other => panic!("{:?}", other),
        }
    }
    assert_eq!(seen, vec![Err(String::from("denied")); 8]);
    assert_eq!(cache.executed(), 1);
}

#[test]
fn flights_of_different_keys_run_side_by_side() {
    let mut cache: CallCache<u32> = CallCache::new();
    let a = policy_of("a");
    let b = policy_of("b");
    assert!(matches!(cache.begin(&a), Admission::Execute));
    assert!(matches!(cache.begin(&b), Admission::Execute));
    assert!(matches!(cache.begin(&a), Admission::Wait));
    assert_eq!(value_of(cache.record(&b, Ok(2))), Ok(2));
    assert!(matches!(cache.begin(&a), Admission::Wait));
    assert!(matches!(cache.begin(&b), Admission::Settled(_)));
    assert_eq!(value_of(cache.record(&a, Ok(1))), Ok(1));
    assert_eq!(cache.lookup(&a).map(value_of), Some(Ok(1)));
    assert_eq!(cache.lookup(&b).map(value_of), Some(Ok(2)));
    assert_eq!(cache.executed(), 2);
}

#[test]
fn a_late_result_does_not_replace_a_settled_one() {
    let mut cache: CallCache<u32> = CallCache::new();
    let key = buckets();
    assert!(matches!(cache.begin(&key), Admission::Execute));
    assert_eq!(value_of(cache.record(&key, Ok(1))), Ok(1));
    assert_eq!(value_of(cache.record(&key, Ok(2))), Ok(1));
    assert_eq!(value_of(cache.call(&key, || Ok(3))), Ok(1));
    assert_eq!(cache.executed(), 1);
}
