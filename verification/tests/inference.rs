use checkexec::{infer_dependencies, Error, Probe, Timestamp};

fn found(path: &str) -> Probe {
    Probe { path: path.to_string(), metadata: Ok(Timestamp::after_epoch(1_700_000_000, 0)) }
}

fn absent(path: &str) -> Probe {
    Probe { path: path.to_string(), metadata: Err("not found".to_string()) }
}

#[test]
fn inference_keeps_the_accessible_paths_in_order() {
    let arguments = [
        absent("-c"),
        found("b.c"),
        absent("-o"),
        found("a.c"),
        absent("out"),
        found("b.c"),
    ];
    assert_eq!(
        infer_dependencies(&arguments),
        Ok(vec!["b.c".to_string(), "a.c".to_string(), "b.c".to_string()])
    );
}

#[test]
fn inference_takes_directories_and_files_alike() {
    assert_eq!(infer_dependencies(&[found("src")]), Ok(vec!["src".to_string()]));
}

#[test]
fn inference_over_nothing_fails() {
    assert_eq!(
        infer_dependencies(&[]),
        Err(Error::NoInferableDependency { arguments: vec![] })
    );
}

#[test]
fn inference_failure_names_every_argument() {
    let result = infer_dependencies(&[absent("-o"), absent("out file")]);
    assert_eq!(
        result,
        Err(Error::NoInferableDependency {
            arguments: vec!["-o".to_string(), "out file".to_string()],
        })
    );
    assert_eq!(
        result.unwrap_err().message(),
        "--infer must find at least one accessible file in command arguments. \
         Command arguments are: \"-o\" \"out file\""
    );
}
