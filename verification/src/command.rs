//! Construction of compiler and linker invocations.
//!
//! Every compile invocation receives, in fixed order: the compile-only flag,
//! the source path, the output-object flag bound to the job's object path,
//! and then the shared flag tail. The single link invocation receives the
//! object paths in discovery order, the output-binary flag bound to the
//! project name, and then the same flag tail. The tail — the project include
//! directory, the configured include paths, library search paths, library
//! names and extra flags — is shared verbatim between compilation and
//! linking, so link-time libraries resolve identically to compile-time
//! includes.

use vstd::prelude::*;

verus! {

use crate::config::{Package, PackageModel, resolved_compiler_spec, string_views};
use crate::walk::{CompileJob, JobModel};

/// One external process invocation: a program name and its arguments.
pub struct CommandLine {
    pub program: String,
    pub args: Vec<String>,
}

/// The compile-only flag.
pub open spec fn compile_only_flag() -> Seq<char> {
    seq!['-', 'c']
}

/// The flag prefix that binds an output path.
pub open spec fn output_flag() -> Seq<char> {
    seq!['-', 'o']
}

/// The flag prefix of an include search path.
pub open spec fn include_flag() -> Seq<char> {
    seq!['-', 'I']
}

/// The flag prefix of a library search path.
pub open spec fn library_path_flag() -> Seq<char> {
    seq!['-', 'L']
}

/// The flag prefix of a library name.
pub open spec fn library_flag() -> Seq<char> {
    seq!['-', 'l']
}

/// The include path every project receives: its own include directory.
pub open spec fn project_include_path() -> Seq<char> {
    seq!['.', '/', 'i', 'n', 'c', 'l', 'u', 'd', 'e']
}

/// Each item of `items` with `prefix` prepended, in order.
pub open spec fn prefix_each(prefix: Seq<char>, items: Seq<Seq<char>>) -> Seq<Seq<char>> {
    items.map_values(|s: Seq<char>| prefix + s)
}

/// The flag tail shared, verbatim and in this order, by every compile
/// invocation and the link invocation: the project include directory, the
/// configured include paths, the library search paths, the library names,
/// then the extra flags.
pub open spec fn shared_flag_args(p: PackageModel) -> Seq<Seq<char>> {
    seq![include_flag() + project_include_path()] + prefix_each(include_flag(), p.include_paths)
        + prefix_each(library_path_flag(), p.dep_paths) + prefix_each(library_flag(), p.deps)
        + p.flags
}

/// The full argument list of the compile invocation of one job.
pub open spec fn compile_args(p: PackageModel, job: JobModel) -> Seq<Seq<char>> {
    seq![compile_only_flag(), job.source, output_flag() + job.object] + shared_flag_args(p)
}

/// The full argument list of the single link invocation over the given object
/// paths, in their discovery order.
pub open spec fn link_args(p: PackageModel, objects: Seq<Seq<char>>) -> Seq<Seq<char>> {
    objects + seq![output_flag() + p.name] + shared_flag_args(p)
}

/// Appends `prefix + item` for every item, in order.
fn push_prefixed(args: &mut Vec<String>, prefix: &str, items: &Vec<String>)
    ensures
        string_views(final(args)@) =~= string_views(old(args)@) + prefix_each(
            prefix@,
            string_views(items@),
        ),
{
    let ghost target = prefix_each(prefix@, string_views(items@));
    let mut k: usize = 0;
    while k < items.len()
        invariant
            k <= items.len(),
            target == prefix_each(prefix@, string_views(items@)),
            string_views(args@) =~= string_views(old(args)@) + target.take(k as int),
        decreases items.len() - k,
    {
        let mut s = String::from_str(prefix);
        s.append(items[k].as_str());
        let ghost before = args@;
        args.push(s);
        proof {
            assert(string_views(args@) =~= string_views(before) + seq![s@]);
            assert(string_views(items@)[k as int] == items@[k as int]@);
            assert(target[k as int] == prefix@ + string_views(items@)[k as int]);
            assert(s@ == target[k as int]);
            assert(target.take(k + 1 as int) =~= target.take(k as int).push(target[k as int]));
            assert(string_views(args@) =~= string_views(old(args)@) + target.take(k + 1 as int));
        }
        k = k + 1;
    }
    proof {
        assert(target.take(items@.len() as int) =~= target);
    }
}

/// Appends a copy of every item, in order.
fn push_all(args: &mut Vec<String>, items: &Vec<String>)
    ensures
        string_views(final(args)@) =~= string_views(old(args)@) + string_views(items@),
{
    let ghost target = string_views(items@);
    let mut k: usize = 0;
    while k < items.len()
        invariant
            k <= items.len(),
            target == string_views(items@),
            string_views(args@) =~= string_views(old(args)@) + target.take(k as int),
        decreases items.len() - k,
    {
        let item = items[k].clone();
        let ghost before = args@;
        args.push(item);
        proof {
            assert(string_views(args@) =~= string_views(before) + seq![items@[k as int]@]);
            assert(target[k as int] == items@[k as int]@);
            assert(target.take(k + 1 as int) =~= target.take(k as int).push(target[k as int]));
            assert(string_views(args@) =~= string_views(old(args)@) + target.take(k + 1 as int));
        }
        k = k + 1;
    }
    proof {
        assert(target.take(items@.len() as int) =~= target);
    }
}

/// Appends the shared flag tail of the configuration.
fn push_shared_flags(args: &mut Vec<String>, p: &Package)
    ensures
        string_views(final(args)@) =~= string_views(old(args)@) + shared_flag_args(p@),
{
    let inc = String::from_str("-I./include");
    args.push(inc);
    proof {
        reveal_strlit("-I./include");
        assert("-I./include"@ =~= include_flag() + project_include_path());
        assert(string_views(args@) =~= string_views(old(args)@) + seq![
            include_flag() + project_include_path(),
        ]);
    }
    push_prefixed(args, "-I", &p.include_paths);
    proof {
        reveal_strlit("-I");
        assert("-I"@ =~= include_flag());
        assert(prefix_each("-I"@, string_views(p.include_paths@)) =~= prefix_each(
            include_flag(),
            p@.include_paths,
        ));
    }
    push_prefixed(args, "-L", &p.dep_paths);
    proof {
        reveal_strlit("-L");
        assert("-L"@ =~= library_path_flag());
        assert(prefix_each("-L"@, string_views(p.dep_paths@)) =~= prefix_each(
            library_path_flag(),
            p@.dep_paths,
        ));
    }
    push_prefixed(args, "-l", &p.deps);
    proof {
        reveal_strlit("-l");
        assert("-l"@ =~= library_flag());
        assert(prefix_each("-l"@, string_views(p.deps@)) =~= prefix_each(library_flag(), p@.deps));
    }
    push_all(args, &p.flags);
    proof {
        assert(string_views(args@) =~= string_views(old(args)@) + shared_flag_args(p@));
    }
}

impl CommandLine {
    /// The compile invocation of one job under the given configuration: the
    /// resolved compiler, the compile-only flag, the source path, the bound
    /// object path, then the shared flag tail.
    pub fn compile(p: &Package, job: &CompileJob) -> (c: CommandLine)
        ensures
            c.program@ == resolved_compiler_spec(p@),
            string_views(c.args@) =~= compile_args(p@, job@),
    {
        let program = p.resolved_compiler();
        let mut args: Vec<String> = Vec::new();
        let c_flag = String::from_str("-c");
        args.push(c_flag);
        args.push(job.source_path.clone());
        let mut o_arg = String::from_str("-o");
        o_arg.append(job.object_path.as_str());
        args.push(o_arg);
        proof {
            reveal_strlit("-c");
            reveal_strlit("-o");
            assert("-c"@ =~= compile_only_flag());
            assert("-o"@ =~= output_flag());
            assert(string_views(args@) =~= seq![
                compile_only_flag(),
                job@.source,
                output_flag() + job@.object,
            ]);
        }
        push_shared_flags(&mut args, p);
        proof {
            assert(string_views(args@) =~= compile_args(p@, job@));
        }
        CommandLine { program, args }
    }

    /// The single link invocation under the given configuration: the resolved
    /// compiler over the object paths in discovery order, the output binary
    /// bound to the project name, then the shared flag tail.
    pub fn link(p: &Package, objects: &Vec<String>) -> (c: CommandLine)
        ensures
            c.program@ == resolved_compiler_spec(p@),
            string_views(c.args@) =~= link_args(p@, string_views(objects@)),
    {
        let program = p.resolved_compiler();
        let mut args: Vec<String> = Vec::new();
        push_all(&mut args, objects);
        let mut o_arg = String::from_str("-o");
        o_arg.append(p.name.as_str());
        args.push(o_arg);
        proof {
            reveal_strlit("-o");
            assert("-o"@ =~= output_flag());
            assert(string_views(args@) =~= string_views(objects@) + seq![output_flag() + p@.name]);
        }
        push_shared_flags(&mut args, p);
        proof {
            assert(string_views(args@) =~= link_args(p@, string_views(objects@)));
        }
        CommandLine { program, args }
    }
}

/// Law: flag ordering is deterministic and identical between every compile
/// invocation and the single link invocation of one configuration. Past its
/// three leading job-specific arguments, every compile invocation carries
/// exactly the shared flag tail, and past its object paths and output
/// binding, so does the link invocation.
pub proof fn lemma_flag_order_shared(
    p: PackageModel,
    j1: JobModel,
    j2: JobModel,
    objects: Seq<Seq<char>>,
)
    ensures
        compile_args(p, j1).skip(3) =~= shared_flag_args(p),
        compile_args(p, j1).skip(3) =~= compile_args(p, j2).skip(3),
        link_args(p, objects).skip(objects.len() as int + 1) =~= shared_flag_args(p),
{
    assert(compile_args(p, j1).skip(3) =~= shared_flag_args(p));
    assert(compile_args(p, j2).skip(3) =~= shared_flag_args(p));
    assert(link_args(p, objects).skip(objects.len() as int + 1) =~= shared_flag_args(p));
}

} // verus!
