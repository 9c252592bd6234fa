//! Unit tests for the walker, the command builder, the aggregator and the
//! configuration rules.

use cbuild::command::CommandLine;
use cbuild::config::{Config, Package};
use cbuild::outcome::{aggregate, outcome_is_failure, CompileOutcome};
use cbuild::walk::{dir_create_is_fatal, plan_build, DirCreateOutcome, TreeEntry};

fn full_package() -> Package {
    Package {
        name: "demo".to_string(),
        deps: vec!["m".to_string(), "pthread".to_string()],
        include_paths: vec!["vendor/inc".to_string()],
        dep_paths: vec!["vendor/lib".to_string()],
        compiler: None,
        flags: vec!["-O2".to_string(), "-Wall".to_string()],
    }
}

#[test]
fn fresh_configuration_is_empty() {
    let c = Config::new("demo");
    assert_eq!(c.package.name.as_str(), "demo");
    assert!(c.package.deps.is_empty());
    assert!(c.package.include_paths.is_empty());
    assert!(c.package.dep_paths.is_empty());
    assert!(c.package.compiler.is_none());
    assert!(c.package.flags.is_empty());
}

#[test]
fn compiler_defaults_and_overrides() {
    let mut p = full_package();
    assert_eq!(p.resolved_compiler().as_str(), "g++");
    p.compiler = Some("clang++".to_string());
    assert_eq!(p.resolved_compiler().as_str(), "clang++");
}

#[test]
fn every_object_path_is_the_mirrored_source_path() {
    let tree = TreeEntry::Dir {
        name: "src".to_string(),
        entries: vec![
            TreeEntry::File { name: "main.cpp".to_string() },
            TreeEntry::Dir {
                name: "util".to_string(),
                entries: vec![
                    TreeEntry::File { name: "io.cpp".to_string() },
                    TreeEntry::File { name: "fmt.cpp".to_string() },
                ],
            },
            TreeEntry::File { name: "notes.txt".to_string() },
        ],
    };
    let plan = plan_build(&tree);
    // Every regular file is a unit, whatever its extension.
    assert_eq!(plan.jobs.len(), 4);
    for job in &plan.jobs {
        assert_eq!(job.object_path, format!("obj/{}.o", job.source_path));
    }
    let sources: Vec<&str> = plan.jobs.iter().map(|j| j.source_path.as_str()).collect();
    assert_eq!(sources, ["src/main.cpp", "src/util/io.cpp", "src/util/fmt.cpp", "src/notes.txt"]);
}

#[test]
fn compile_invocation_has_the_fixed_flag_order() {
    let p = full_package();
    let plan = plan_build(&TreeEntry::Dir {
        name: "src".to_string(),
        entries: vec![TreeEntry::File { name: "a.c".to_string() }],
    });
    let c = CommandLine::compile(&p, &plan.jobs[0]);
    assert_eq!(c.program.as_str(), "g++");
    let args: Vec<&str> = c.args.iter().map(|a| a.as_str()).collect();
    assert_eq!(
        args,
        [
            "-c",
            "src/a.c",
            "-oobj/src/a.c.o",
            "-I./include",
            "-Ivendor/inc",
            "-Lvendor/lib",
            "-lm",
            "-lpthread",
            "-O2",
            "-Wall",
        ]
    );
}

#[test]
fn link_invocation_shares_the_compile_flag_tail() {
    let p = full_package();
    let plan = plan_build(&TreeEntry::Dir {
        name: "src".to_string(),
        entries: vec![
            TreeEntry::File { name: "a.c".to_string() },
            TreeEntry::File { name: "b.c".to_string() },
        ],
    });
    let compile = CommandLine::compile(&p, &plan.jobs[0]);
    let objects: Vec<String> = plan.jobs.iter().map(|j| j.object_path.clone()).collect();
    let link = CommandLine::link(&p, &objects);

    let args: Vec<&str> = link.args.iter().map(|a| a.as_str()).collect();
    assert_eq!(args[0], "obj/src/a.c.o");
    assert_eq!(args[1], "obj/src/b.c.o");
    assert_eq!(args[2], "-odemo");
    // The flag tail is shared verbatim between compilation and linking.
    assert_eq!(compile.args[3..], link.args[objects.len() + 1..]);
}

#[test]
fn aggregate_partitions_jobs_into_objects_and_failures() {
    let plan = plan_build(&TreeEntry::Dir {
        name: "src".to_string(),
        entries: vec![
            TreeEntry::File { name: "a.c".to_string() },
            TreeEntry::File { name: "b.c".to_string() },
            TreeEntry::File { name: "c.c".to_string() },
        ],
    });
    let outcomes = vec![
        CompileOutcome::ProcessFailed { exit_code: 2 },
        CompileOutcome::Succeeded,
        CompileOutcome::LaunchFailed { cause: "denied".to_string() },
    ];
    let result = aggregate(&plan.jobs, &outcomes);
    assert_eq!(result.failure_count, 2);
    assert_eq!(result.object_paths.len(), plan.jobs.len() - result.failure_count);
    let objects: Vec<&str> = result.object_paths.iter().map(|o| o.as_str()).collect();
    assert_eq!(objects, ["obj/src/b.c.o"]);
}

#[test]
fn only_a_clean_exit_is_a_success() {
    assert!(!outcome_is_failure(&CompileOutcome::Succeeded));
    assert!(outcome_is_failure(&CompileOutcome::ProcessFailed { exit_code: 1 }));
    assert!(outcome_is_failure(&CompileOutcome::LaunchFailed { cause: "gone".to_string() }));
}

#[test]
fn mirroring_an_existing_tree_is_not_fatal() {
    // Walking the same tree twice asks for the same directories, and a
    // directory that already exists is never a fatal creation outcome.
    let tree = TreeEntry::Dir {
        name: "src".to_string(),
        entries: vec![TreeEntry::Dir { name: "sub".to_string(), entries: vec![] }],
    };
    let first = plan_build(&tree);
    let second = plan_build(&tree);
    let a: Vec<&str> = first.dirs.iter().map(|d| d.as_str()).collect();
    let b: Vec<&str> = second.dirs.iter().map(|d| d.as_str()).collect();
    assert_eq!(a, b);

    assert!(!dir_create_is_fatal(&DirCreateOutcome::Created));
    assert!(!dir_create_is_fatal(&DirCreateOutcome::AlreadyExists));
    assert!(dir_create_is_fatal(&DirCreateOutcome::Failed { cause: "denied".to_string() }));
}
