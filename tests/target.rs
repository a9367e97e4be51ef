use cargo_valgrind::cargo::{cargo_failure_message, join_with_spaces, parse_features};
use cargo_valgrind::driver::{find_host, runner_variable};
use cargo_valgrind::target::{find_target, specified_target, TargetError};
use cargo_valgrind::{Build, Cargo, Target};

fn bins(names: &[&str]) -> Vec<Target> {
    names.iter().map(|n| Target::Binary(format!("t/debug/{}", n))).collect()
}

#[test]
fn target_names_are_the_last_path_component() {
    let t = Target::Example("target/debug/examples/creation".into());
    assert_eq!(t.name(), "creation");
    assert_eq!(t.path(), "target/debug/examples/creation");
    assert!(t.is_example() && !t.is_binary() && !t.is_benchmark() && !t.is_test());
    assert_eq!(Target::Test("plain".into()).name(), "plain");
    assert!(Target::Test("x".into()).is_test());
    assert!(Target::Benchmark("x".into()).is_benchmark());
}

#[test]
fn target_names_follow_path_file_names() {
    assert_eq!(Target::Binary("dir/bin/".into()).name(), "bin");
    assert_eq!(Target::Binary("dir/bin/.".into()).name(), "bin");
    assert_eq!(Target::Binary("dir//bin".into()).name(), "bin");
    assert_eq!(Target::Binary("a/./".into()).name(), "a");
    assert_eq!(Target::Binary("./x".into()).name(), "x");
    assert_eq!(Target::Binary("a/..".into()).file_name(), None);
    assert_eq!(Target::Binary("/".into()).file_name(), None);
    assert_eq!(Target::Binary("".into()).file_name(), None);
    assert_eq!(Target::Binary(".".into()).file_name(), None);
    assert_eq!(Target::Binary("/usr/bin/tool".into()).file_name(), Some("tool"));
}

#[test]
fn trailing_separator_does_not_match_every_target() {
    let targets = bins(&["alpha", "beta"]);
    let found = find_target(Some(Target::Binary("somewhere/beta/".into())), &targets).unwrap();
    assert_eq!(found.path(), "t/debug/beta");
}

#[test]
fn targets_are_equal_by_name_and_kind() {
    assert_eq!(Target::Binary("a/tool/".into()), Target::Binary("tool".into()));
    assert_eq!(Target::Binary("a/b/tool".into()), Target::Binary("tool".into()));
    assert_ne!(Target::Binary("tool".into()), Target::Example("tool".into()));
    assert_ne!(Target::Binary("a/tool".into()), Target::Binary("a/other".into()));
}

#[test]
fn the_only_target_is_taken() {
    let targets = bins(&["tool"]);
    assert_eq!(find_target(None, &targets).unwrap().path(), "t/debug/tool");
}

#[test]
fn no_target_is_an_error() {
    assert!(matches!(find_target(None, &vec![]), Err(TargetError::NoRunnableTarget)));
}

#[test]
fn several_targets_need_a_choice() {
    let mut targets = bins(&["one"]);
    targets.push(Target::Example("t/debug/examples/two".into()));
    match find_target(None, &targets) {
        Err(TargetError::MultipleTargets(lines)) => {
            assert_eq!(lines, vec!["--bin one", "--example two"]);
        }
        other => panic!("unexpected {:?}", other),
    }
}

#[test]
fn asked_target_is_found_by_name_prefix() {
    let targets = bins(&["alpha", "beta-tool", "beta"]);
    let found = find_target(Some(Target::Binary("beta".into())), &targets).unwrap();
    assert_eq!(found.path(), "t/debug/beta-tool");
    match find_target(Some(Target::Binary("gamma".into())), &targets) {
        Err(TargetError::NotFound(t)) => assert_eq!(t.name(), "gamma"),
        other => panic!("unexpected {:?}", other),
    }
}

#[test]
fn command_line_target_prefers_binaries() {
    let t = specified_target(None, Some("ex".into()), Some("b".into()), None).unwrap();
    assert!(t.is_example());
    assert_eq!(t.name(), "ex");
    assert!(specified_target(Some("a".into()), Some("b".into()), None, None).unwrap().is_binary());
    assert!(specified_target(None, None, None, Some("t".into())).unwrap().is_test());
    assert!(specified_target(None, None, None, None).is_none());
}

#[test]
fn cargo_build_arguments() {
    let cargo = Cargo::new()
        .manifest("/src/crate/Cargo.toml")
        .build_target(Target::Example("target/debug/examples/demo".into()))
        .release_build()
        .feature("fast".into())
        .features(vec!["log".into(), "serde".into()]);
    assert_eq!(
        cargo.build_arguments(),
        vec![
            "build",
            "--release",
            "--manifest-path",
            "/src/crate/Cargo.toml",
            "--example",
            "demo",
            "--features",
            "fast log serde",
        ]
    );
    let cargo = Cargo::new()
        .manifest("Cargo.toml")
        .build_target(Target::Binary("tool".into()))
        .build_type(Build::Debug);
    assert_eq!(
        cargo.build_arguments(),
        vec!["build", "--manifest-path", "Cargo.toml", "--bin", "tool"]
    );
}

#[test]
fn build_directories() {
    assert_eq!(Build::Debug.directory(), "debug");
    assert_eq!(Build::Release.directory(), "release");
    assert_eq!(Build::default(), Build::Debug);
}

#[test]
fn features_may_be_separated_by_spaces_and_commas() {
    let values = vec!["asdf jklö".to_string(), "a,b, c".to_string(), "".to_string()];
    assert_eq!(parse_features(&values), vec!["asdf", "jklö", "a", "b", "c"]);
    assert_eq!(join_with_spaces(&vec!["x".into(), "y".into()]), "x y");
    assert_eq!(join_with_spaces(&vec![]), "");
}

#[test]
fn host_is_read_from_version_output() {
    let output = "cargo 1.75.0\nrelease: 1.75.0\r\nhost: x86_64-unknown-linux-gnu\r\nos: Linux\n";
    assert_eq!(find_host(output).as_deref(), Some("x86_64-unknown-linux-gnu"));
    assert_eq!(find_host("rustc 1.0\nbinary: rustc\n"), None);
    assert_eq!(find_host("host: host: aarch64"), Some("aarch64".to_string()));
}

#[test]
fn runner_variable_is_upper_case_with_underscores() {
    assert_eq!(
        runner_variable("x86_64-unknown-linux-gnu"),
        "CARGO_TARGET_X86_64_UNKNOWN_LINUX_GNU_RUNNER"
    );
    assert_eq!(runner_variable("thumbv7em-none-eabihf.x"), "CARGO_TARGET_THUMBV7EM_NONE_EABIHF_X_RUNNER");
}

#[test]
fn cargo_failures_read_from_stderr() {
    assert_eq!(
        cargo_failure_message("error: could not find `Cargo.toml`\n  \t"),
        "cargo command failed: could not find `Cargo.toml`"
    );
    assert_eq!(cargo_failure_message("error: \n"), "cargo command failed");
    assert_eq!(cargo_failure_message(""), "cargo command failed");
    assert_eq!(cargo_failure_message("warning: x\u{3000}"), "cargo command failed: warning: x");
}
