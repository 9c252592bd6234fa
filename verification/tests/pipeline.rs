//! End-to-end scenarios over the build pipeline's verified core.

use cbuild::command::CommandLine;
use cbuild::config::{Config, Package};
use cbuild::outcome::{aggregate, disposition, exit_code, should_link, BuildDisposition,
    CompileOutcome};
use cbuild::walk::{plan_build, TreeEntry};

fn demo_package() -> Package {
    Package {
        name: "demo".to_string(),
        deps: vec!["m".to_string()],
        include_paths: vec!["vendor/inc".to_string()],
        dep_paths: vec![],
        compiler: None,
        flags: vec![],
    }
}

fn demo_tree() -> TreeEntry {
    TreeEntry::Dir {
        name: "src".to_string(),
        entries: vec![
            TreeEntry::File { name: "a.c".to_string() },
            TreeEntry::Dir {
                name: "sub".to_string(),
                entries: vec![TreeEntry::File { name: "b.c".to_string() }],
            },
        ],
    }
}

#[test]
fn two_files_both_compile() {
    let package = demo_package();
    let plan = plan_build(&demo_tree());

    let dirs: Vec<&str> = plan.dirs.iter().map(|d| d.as_str()).collect();
    assert_eq!(dirs, ["obj", "obj/src", "obj/src/sub"]);

    let objects: Vec<&str> = plan.jobs.iter().map(|j| j.object_path.as_str()).collect();
    assert_eq!(objects, ["obj/src/a.c.o", "obj/src/sub/b.c.o"]);

    let outcomes = vec![CompileOutcome::Succeeded, CompileOutcome::Succeeded];
    let result = aggregate(&plan.jobs, &outcomes);
    assert_eq!(result.failure_count, 0);
    assert!(should_link(&result));

    let link = CommandLine::link(&package, &result.object_paths);
    assert_eq!(link.program.as_str(), "g++");
    assert_eq!(link.args[0].as_str(), "obj/src/a.c.o");
    assert_eq!(link.args[1].as_str(), "obj/src/sub/b.c.o");
    assert!(link.args.iter().any(|a| a.as_str() == "-lm"));
    assert!(link.args.iter().any(|a| a.as_str() == "-Ivendor/inc"));

    let d = disposition(result.failure_count, &Some(CompileOutcome::Succeeded));
    assert!(matches!(d, BuildDisposition::Success));
    assert_eq!(exit_code(&d), 0);
}

#[test]
fn one_file_fails_to_compile() {
    let plan = plan_build(&demo_tree());

    let outcomes = vec![
        CompileOutcome::ProcessFailed { exit_code: 1 },
        CompileOutcome::Succeeded,
    ];
    let result = aggregate(&plan.jobs, &outcomes);
    assert_eq!(result.failure_count, 1);

    // The sibling unit's object file is still produced.
    let objects: Vec<&str> = result.object_paths.iter().map(|o| o.as_str()).collect();
    assert_eq!(objects, ["obj/src/sub/b.c.o"]);

    // The linker is never invoked; the build exits with the compile-failure code.
    assert!(!should_link(&result));
    let d = disposition(result.failure_count, &None);
    assert!(matches!(d, BuildDisposition::CompileFailed { failures: 1 }));
    assert_eq!(exit_code(&d), 1);
}

#[test]
fn invalid_configuration_stops_the_build() {
    // A configuration without a project name is rejected before any
    // directory is touched.
    let mut config = Config::new("demo");
    assert!(config.is_valid());
    config.package.name = String::new();
    assert!(!config.is_valid());
}

#[test]
fn launch_failure_counts_like_any_failure() {
    let plan = plan_build(&demo_tree());
    let outcomes = vec![
        CompileOutcome::Succeeded,
        CompileOutcome::LaunchFailed { cause: "no such program".to_string() },
    ];
    let result = aggregate(&plan.jobs, &outcomes);
    assert_eq!(result.failure_count, 1);
    let objects: Vec<&str> = result.object_paths.iter().map(|o| o.as_str()).collect();
    assert_eq!(objects, ["obj/src/a.c.o"]);
    assert!(!should_link(&result));
}

#[test]
fn link_failure_has_its_own_exit_code() {
    let d = disposition(0, &Some(CompileOutcome::ProcessFailed { exit_code: 1 }));
    assert!(matches!(d, BuildDisposition::LinkFailed));
    assert_eq!(exit_code(&d), 2);

    let d = disposition(0, &Some(CompileOutcome::LaunchFailed { cause: "gone".to_string() }));
    assert!(matches!(d, BuildDisposition::LinkFailed));
    assert_eq!(exit_code(&d), 2);
}
