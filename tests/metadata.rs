use cargo_valgrind::metadata::{join, CrateType, Kind, Metadata, Package, Target as MetaTarget};
use cargo_valgrind::{binaries_from, Build, Target};

fn package(id: &str, manifest: &str, targets: Vec<MetaTarget>) -> Package {
    Package {
        id: id.into(),
        manifest_path: manifest.into(),
        targets,
    }
}

fn meta_target(crate_type: CrateType, kind: Kind, name: &str) -> MetaTarget {
    MetaTarget {
        crate_types: vec![crate_type],
        kind: vec![kind],
        name: name.into(),
    }
}

#[test]
fn multiple_binaries_are_supported() {
    let manifest = "a/test/Cargo.toml";
    let metadata = Metadata {
        target_directory: "test-dir".into(),
        version: 1,
        packages: vec![package(
            "a test crate",
            manifest,
            vec![
                meta_target(CrateType::Binary, Kind::Binary, "a binary"),
                meta_target(CrateType::Binary, Kind::Binary, "another binary"),
            ],
        )],
    };
    assert_eq!(
        binaries_from(metadata, manifest, Build::Debug),
        vec![
            Target::Binary("test-dir/debug/a binary".into()),
            Target::Binary("test-dir/debug/another binary".into()),
        ]
    );
}

#[test]
fn examples_are_supported() {
    let manifest = "a/test/Cargo.toml";
    let metadata = Metadata {
        target_directory: "test-dir".into(),
        version: 1,
        packages: vec![package(
            "a test crate",
            manifest,
            vec![meta_target(CrateType::Binary, Kind::Example, "an example")],
        )],
    };
    assert_eq!(
        binaries_from(metadata, manifest, Build::Debug),
        vec![Target::Example("test-dir/debug/examples/an example".into())]
    );
}

#[test]
fn benches_are_supported() {
    let manifest = "a/test/Cargo.toml";
    let metadata = Metadata {
        target_directory: "test-dir".into(),
        version: 1,
        packages: vec![package(
            "a test crate",
            manifest,
            vec![meta_target(CrateType::Binary, Kind::Bench, "a benchmark")],
        )],
    };
    assert_eq!(
        binaries_from(metadata, manifest, Build::Debug),
        vec![Target::Benchmark("test-dir/debug/benches/a benchmark".into())]
    );
}

#[test]
fn libraries_are_ignored() {
    let manifest = "a/test/Cargo.toml";
    let metadata = Metadata {
        target_directory: "test-dir".into(),
        version: 1,
        packages: vec![package(
            "a test crate",
            manifest,
            vec![
                meta_target(CrateType::Library, Kind::Library, "a lib"),
                meta_target(CrateType::DyLib, Kind::DyLib, "a dylib"),
                meta_target(CrateType::CDyLib, Kind::CDyLib, "a cdylib"),
                meta_target(CrateType::StaticLib, Kind::StaticLib, "a static lib"),
                meta_target(CrateType::RLib, Kind::RLib, "an rlib"),
            ],
        )],
    };
    assert_eq!(binaries_from(metadata, manifest, Build::Debug), Vec::<Target>::new());
}

#[test]
fn proc_macros_are_ignored() {
    let manifest = "a/test/Cargo.toml";
    let metadata = Metadata {
        target_directory: "test-dir".into(),
        version: 1,
        packages: vec![package(
            "a test crate",
            manifest,
            vec![meta_target(CrateType::ProcMacro, Kind::ProcMacro, "a proc macro")],
        )],
    };
    assert_eq!(binaries_from(metadata, manifest, Build::Debug), Vec::<Target>::new());
}

#[test]
fn only_binaries_of_manifest_are_returned() {
    let manifest = "a/test/Cargo.toml";
    let metadata = Metadata {
        target_directory: "test-dir".into(),
        version: 1,
        packages: vec![
            package(
                "a test crate",
                manifest,
                vec![
                    meta_target(CrateType::Binary, Kind::Binary, "a binary"),
                    meta_target(CrateType::Binary, Kind::Binary, "another binary"),
                ],
            ),
            package(
                "another crate of the workspace",
                "a/test/Cargo.toml/sub-crate",
                vec![meta_target(CrateType::Binary, Kind::Binary, "wrong binary")],
            ),
        ],
    };
    assert_eq!(
        binaries_from(metadata, manifest, Build::Debug),
        vec![
            Target::Binary("test-dir/debug/a binary".into()),
            Target::Binary("test-dir/debug/another binary".into()),
        ]
    );
}

#[test]
fn executable_paths_follow_the_build_type() {
    let manifest = "m/Cargo.toml";
    let metadata = Metadata {
        target_directory: "target/".into(),
        version: 1,
        packages: vec![package(
            "crate",
            manifest,
            vec![
                meta_target(CrateType::Binary, Kind::Binary, "tool"),
                meta_target(CrateType::Binary, Kind::Example, "demo"),
            ],
        )],
    };
    let found = binaries_from(metadata, manifest, Build::Release);
    let paths: Vec<&str> = found.iter().map(|t| t.path()).collect();
    assert_eq!(paths, vec!["target/release/tool", "target/release/examples/demo"]);
    assert!(found[0].is_binary());
    assert!(found[1].is_example());
}

#[test]
fn only_version_one_of_the_metadata_is_supported() {
    assert!(cargo_valgrind::metadata::is_supported_version(1));
    assert!(!cargo_valgrind::metadata::is_supported_version(2));
    assert!(!cargo_valgrind::metadata::is_supported_version(0));
}

#[test]
fn paths_are_joined_with_one_separator() {
    assert_eq!(join("a", "b"), "a/b");
    assert_eq!(join("a/", "b"), "a/b");
    assert_eq!(join("", "b"), "b");
    assert_eq!(join("a", ""), "a/");
}
