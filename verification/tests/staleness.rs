use checkexec::{infer_dependencies, should_execute, Error, Probe, Timestamp};

/// The probes of `touched` files written one after another, ten
/// milliseconds apart, followed by `untouched` names that were never
/// created.
fn touch_and_untouch(touched: usize, untouched: usize) -> Vec<Probe> {
    let mut files = Vec::new();
    for i in 0..touched {
        files.push(Probe {
            path: format!("/tmp/work/{}", i),
            metadata: Ok(Timestamp::after_epoch(1_700_000_000, 10_000_000 * i as u32)),
        });
    }
    for i in touched..touched + untouched {
        files.push(missing(&format!("/tmp/work/{}", i)));
    }
    files
}

fn missing(path: &str) -> Probe {
    Probe {
        path: path.to_string(),
        metadata: Err("No such file or directory (os error 2)".to_string()),
    }
}

fn modified(path: &str, seconds: u64, nanos: u32) -> Probe {
    Probe { path: path.to_string(), metadata: Ok(Timestamp::after_epoch(seconds, nanos)) }
}

#[test]
fn test_infer_dependencies() {
    let files = touch_and_untouch(3, 0);
    let dependencies =
        infer_dependencies(&[missing("cc"), files[0].clone(), files[1].clone()]).unwrap();
    assert_eq!(dependencies, vec![files[0].path.clone(), files[1].path.clone()]);
}

#[test]
fn test_no_inferred_dependencies_errors() {
    let files = touch_and_untouch(0, 1);
    assert!(infer_dependencies(&[missing("cc"), files[0].clone()]).is_err())
}

#[test]
fn test_should_execute_errors_on_failed_dependency_access() {
    let files = touch_and_untouch(1, 1);
    assert!(should_execute(&files[0], &files[1..]).is_err(), "Should have failed to access file");
}

#[test]
fn test_should_execute_target_doesnt_exist() {
    let files = touch_and_untouch(1, 1);
    assert!(
        should_execute(&files[1], &files[0..1]).unwrap(),
        "Should execute because target doesn't exist"
    );
}

#[test]
fn test_should_not_execute_newer_target() {
    let files = touch_and_untouch(2, 0);
    assert!(
        !should_execute(&files[1], &files[0..1]).unwrap(),
        "Should not execute because target is newer"
    );
}

#[test]
fn test_should_execute_newer_dependencies() {
    let files = touch_and_untouch(2, 0);
    assert!(should_execute(&files[0], &files[1..]).unwrap())
}

#[test]
fn existing_target_without_dependencies_executes() {
    let target = modified("out", 50, 0);
    assert_eq!(should_execute(&target, &[]), Ok(true));
}

#[test]
fn missing_target_executes_whatever_the_dependencies() {
    let target = missing("out");
    assert_eq!(should_execute(&target, &[]), Ok(true));
    assert_eq!(should_execute(&target, &[modified("a", 1, 0)]), Ok(true));
    assert_eq!(should_execute(&target, &[modified("a", u64::MAX, 999_999_999)]), Ok(true));
    assert_eq!(should_execute(&target, &[missing("a"), missing("b")]), Ok(true));
}

#[test]
fn target_as_new_as_every_dependency_is_skipped() {
    let target = modified("out", 100, 500);
    let dependencies =
        [modified("a", 99, 999_999_999), modified("b", 100, 499), modified("c", 0, 0)];
    assert_eq!(should_execute(&target, &dependencies), Ok(false));
}

#[test]
fn tie_does_not_execute() {
    let target = modified("out", 100, 500);
    assert_eq!(should_execute(&target, &[modified("a", 100, 500)]), Ok(false));
    assert_eq!(should_execute(&target, &[modified("a", 100, 501)]), Ok(true));
}

#[test]
fn one_newer_dependency_executes_wherever_it_stands() {
    let target = modified("out", 100, 0);
    let older = modified("old", 10, 0);
    let newer = modified("new", 100, 1);
    assert_eq!(should_execute(&target, &[newer.clone(), older.clone(), older.clone()]), Ok(true));
    assert_eq!(should_execute(&target, &[older.clone(), newer.clone(), older.clone()]), Ok(true));
    assert_eq!(should_execute(&target, &[older.clone(), older.clone(), newer.clone()]), Ok(true));
}

#[test]
fn times_before_the_epoch_count_as_older() {
    let target = Probe { path: "out".to_string(), metadata: Ok(Timestamp::before_epoch(5, 0)) };
    let older = Probe { path: "a".to_string(), metadata: Ok(Timestamp::before_epoch(5, 1)) };
    let newer =
        Probe { path: "b".to_string(), metadata: Ok(Timestamp::before_epoch(4, 999_999_999)) };
    assert_eq!(should_execute(&target, &[older.clone()]), Ok(false));
    assert_eq!(should_execute(&target, &[older, newer]), Ok(true));
    assert_eq!(should_execute(&target, &[modified("c", 0, 0)]), Ok(true));
}

#[test]
fn unreadable_dependency_is_reported_with_path_and_cause() {
    let target = modified("out", 100, 0);
    let unreadable =
        Probe { path: "locked/dep".to_string(), metadata: Err("Permission denied".to_string()) };
    let result = should_execute(&target, &[modified("a", 1, 0), unreadable, missing("later")]);
    assert_eq!(
        result,
        Err(Error::UnreadableDependency {
            path: "locked/dep".to_string(),
            cause: "Permission denied".to_string(),
        })
    );
}

#[test]
fn unreadable_dependency_fails_wherever_it_stands() {
    let target = modified("out", 100, 0);
    let newer = modified("new", 200, 0);
    let older = modified("old", 50, 0);
    let gone = Err(Error::UnreadableDependency {
        path: "gone".to_string(),
        cause: "No such file or directory (os error 2)".to_string(),
    });
    assert_eq!(should_execute(&target, &[newer.clone(), missing("gone")]), gone);
    assert_eq!(should_execute(&target, &[missing("gone"), newer.clone()]), gone);
    assert_eq!(should_execute(&target, &[older.clone(), newer.clone(), missing("gone")]), gone);
    assert_eq!(should_execute(&target, &[older.clone(), missing("gone"), newer.clone()]), gone);
    assert_eq!(should_execute(&target, &[missing("gone"), older, newer]), gone);
}

#[test]
fn error_names_the_first_unreadable_dependency() {
    let target = modified("out", 100, 0);
    let locked =
        Probe { path: "locked".to_string(), metadata: Err("Permission denied".to_string()) };
    assert_eq!(
        should_execute(&target, &[modified("a", 200, 0), locked.clone(), missing("gone")]),
        Err(Error::UnreadableDependency {
            path: "locked".to_string(),
            cause: "Permission denied".to_string(),
        })
    );
    assert_eq!(
        should_execute(&target, &[missing("gone"), locked, modified("a", 200, 0)]),
        Err(Error::UnreadableDependency {
            path: "gone".to_string(),
            cause: "No such file or directory (os error 2)".to_string(),
        })
    );
}

#[test]
fn unreadable_dependency_does_not_matter_without_a_target() {
    let target = missing("out");
    assert_eq!(should_execute(&target, &[missing("gone"), modified("a", 1, 0)]), Ok(true));
}

#[test]
fn timestamps_are_whole_nanoseconds() {
    assert_eq!(Timestamp::after_epoch(1, 0), Timestamp::after_epoch(0, 1_000_000_000));
    assert_eq!(Timestamp::after_epoch(2, 5), Timestamp::after_epoch(0, 2_000_000_005));
    assert_eq!(Timestamp::after_epoch(0, 0), Timestamp::before_epoch(0, 0));
    assert_eq!(Timestamp::before_epoch(3, 0), Timestamp::before_epoch(2, 1_000_000_000));
    assert_ne!(Timestamp::after_epoch(1, 0), Timestamp::before_epoch(1, 0));
}

#[test]
fn newer_is_strict() {
    let early = Timestamp::after_epoch(7, 1);
    let late = Timestamp::after_epoch(7, 2);
    assert!(late.is_newer_than(&early));
    assert!(!early.is_newer_than(&late));
    assert!(!early.is_newer_than(&early));
    assert!(early.is_newer_than(&Timestamp::before_epoch(0, 1)));
    assert!(Timestamp::after_epoch(u64::MAX, u32::MAX)
        .is_newer_than(&Timestamp::before_epoch(u64::MAX, u32::MAX)));
}

#[test]
fn order_does_not_matter_with_an_unreadable_dependency() {
    let target = modified("out", 100, 0);
    let a = modified("a", 50, 0);
    let b = modified("b", 150, 0);
    let c = missing("c");
    let orders = [
        [a.clone(), b.clone(), c.clone()],
        [a.clone(), c.clone(), b.clone()],
        [b.clone(), a.clone(), c.clone()],
        [b.clone(), c.clone(), a.clone()],
        [c.clone(), a.clone(), b.clone()],
        [c.clone(), b.clone(), a.clone()],
    ];
    for order in &orders {
        assert_eq!(
            should_execute(&target, order),
            Err(Error::UnreadableDependency {
                path: "c".to_string(),
                cause: "No such file or directory (os error 2)".to_string(),
            })
        );
    }
}

#[test]
fn order_of_readable_dependencies_does_not_matter() {
    let target = modified("out", 100, 0);
    let a = modified("a", 50, 0);
    let b = modified("b", 150, 0);
    let c = modified("c", 100, 0);
    let orders = [
        [a.clone(), b.clone(), c.clone()],
        [a.clone(), c.clone(), b.clone()],
        [b.clone(), a.clone(), c.clone()],
        [b.clone(), c.clone(), a.clone()],
        [c.clone(), a.clone(), b.clone()],
        [c.clone(), b.clone(), a.clone()],
    ];
    for order in &orders {
        assert_eq!(should_execute(&target, order), Ok(true));
    }
    let late = modified("out", 150, 0);
    for order in &orders {
        assert_eq!(should_execute(&late, order), Ok(false));
    }
}
