//! Source tree walker: turns a source tree into a build plan.
//!
//! The walker enumerates every regular file under the source root in
//! depth-first, directory-then-children order, and mirrors the directory
//! structure under the intermediate-output root. Its output is a [`BuildPlan`]:
//! the ordered list of directories to create (each parent before anything
//! inside it, so concurrently running compile jobs never race to create their
//! own output directory) and one [`CompileJob`] per source file, in discovery
//! order. No filtering by file extension is performed: every regular file is
//! one compilation unit.

use vstd::prelude::*;

verus! {

use crate::config::string_views;

/// One entry of a source tree: a regular file or a directory with its
/// children. The children keep the order in which the directory was read, so
/// the walk's discovery order is exactly the enumeration order.
pub enum TreeEntry {
    File { name: String },
    Dir { name: String, entries: Vec<TreeEntry> },
}

/// One compilation unit: a source file and the object file it compiles to.
pub struct CompileJob {
    /// Path of the source file under the project root.
    pub source_path: String,
    /// Path of the object file: the mirrored source path under the
    /// intermediate-output root, with the object suffix appended.
    pub object_path: String,
}

/// Mathematical model of a [`CompileJob`].
pub struct JobModel {
    pub source: Seq<char>,
    pub object: Seq<char>,
}

impl View for CompileJob {
    type V = JobModel;

    open spec fn view(&self) -> JobModel {
        JobModel { source: self.source_path@, object: self.object_path@ }
    }
}

/// The walker's result: directories to mirror, in creation order, and the
/// compile jobs, in discovery order.
pub struct BuildPlan {
    pub dirs: Vec<String>,
    pub jobs: Vec<CompileJob>,
}

/// The models of a sequence of jobs.
pub open spec fn job_views(js: Seq<CompileJob>) -> Seq<JobModel> {
    js.map_values(|j: CompileJob| j@)
}

/// The path separator.
pub open spec fn path_sep() -> Seq<char> {
    seq!['/']
}

/// The intermediate-output root directory.
pub open spec fn obj_root() -> Seq<char> {
    seq!['o', 'b', 'j']
}

/// The suffix appended to a mirrored source path to name its object file.
pub open spec fn object_suffix() -> Seq<char> {
    seq!['.', 'o']
}

/// The path of a directory entry named `name` inside the directory at `parent`.
pub open spec fn child_path(parent: Seq<char>, name: Seq<char>) -> Seq<char> {
    parent + path_sep() + name
}

/// The mirror of a source path under the intermediate-output root.
pub open spec fn mirror_path(source: Seq<char>) -> Seq<char> {
    obj_root() + path_sep() + source
}

/// The object path of a source file: its mirrored path with the object suffix.
pub open spec fn object_path_of(source: Seq<char>) -> Seq<char> {
    mirror_path(source) + object_suffix()
}

/// The name of an entry.
pub open spec fn entry_name(e: TreeEntry) -> Seq<char> {
    match e {
        TreeEntry::File { name } => name@,
        TreeEntry::Dir { name, .. } => name@,
    }
}

/// The directories the walk of entry `e`, itself at path `path`, must mirror,
/// in creation order: the entry's own mirror first (a parent is always created
/// before anything inside it), then, depth-first, those of its children.
pub open spec fn dirs_of(path: Seq<char>, e: TreeEntry) -> Seq<Seq<char>>
    decreases e, 0int,
{
    match e {
        TreeEntry::File { .. } => Seq::empty(),
        TreeEntry::Dir { entries, .. } => seq![mirror_path(path)] + dirs_of_seq(path, entries@),
    }
}

/// The directories mirrored for a sequence of children of the directory at
/// `parent`, in order.
pub open spec fn dirs_of_seq(parent: Seq<char>, es: Seq<TreeEntry>) -> Seq<Seq<char>>
    decreases es, 1int,
{
    if es.len() == 0 {
        Seq::empty()
    } else {
        dirs_of(child_path(parent, entry_name(es[0])), es[0]) + dirs_of_seq(parent, es.drop_first())
    }
}

/// The compile jobs produced by the walk of entry `e`, itself at path `path`,
/// in discovery order: a file is one job; a directory yields its children's
/// jobs, depth-first.
pub open spec fn jobs_of(path: Seq<char>, e: TreeEntry) -> Seq<JobModel>
    decreases e, 0int,
{
    match e {
        TreeEntry::File { .. } => seq![JobModel { source: path, object: object_path_of(path) }],
        TreeEntry::Dir { entries, .. } => jobs_of_seq(path, entries@),
    }
}

/// The compile jobs of a sequence of children of the directory at `parent`.
pub open spec fn jobs_of_seq(parent: Seq<char>, es: Seq<TreeEntry>) -> Seq<JobModel>
    decreases es, 1int,
{
    if es.len() == 0 {
        Seq::empty()
    } else {
        jobs_of(child_path(parent, entry_name(es[0])), es[0]) + jobs_of_seq(parent, es.drop_first())
    }
}

/// Every directory the whole build must create, in order: the
/// intermediate-output root itself, then the mirrors of the walked tree.
pub open spec fn plan_dirs(root: TreeEntry) -> Seq<Seq<char>> {
    seq![obj_root()] + dirs_of(entry_name(root), root)
}

/// Every compile job of the whole build, in discovery order.
pub open spec fn plan_jobs(root: TreeEntry) -> Seq<JobModel> {
    jobs_of(entry_name(root), root)
}

/// The name of an entry, as an owned string.
fn entry_name_owned(e: &TreeEntry) -> (s: String)
    ensures
        s@ == entry_name(*e),
{
    match e {
        TreeEntry::File { name } => name.clone(),
        TreeEntry::Dir { name, .. } => name.clone(),
    }
}

/// Builds the path of a child named `name` of the directory at `parent`.
fn child_path_owned(parent: &String, name: &String) -> (s: String)
    ensures
        s@ == child_path(parent@, name@),
{
    let mut s = parent.clone();
    s.append("/");
    s.append(name.as_str());
    proof {
        reveal_strlit("/");
        assert(s@ =~= child_path(parent@, name@));
    }
    s
}

/// Builds the mirror of `source` under the intermediate-output root.
fn mirror_path_owned(source: &String) -> (s: String)
    ensures
        s@ == mirror_path(source@),
{
    let mut s = String::from_str("obj/");
    s.append(source.as_str());
    proof {
        reveal_strlit("obj/");
        assert(s@ =~= mirror_path(source@));
    }
    s
}

/// Builds the object path of the source file at `source`.
fn object_path_owned(source: &String) -> (s: String)
    ensures
        s@ == object_path_of(source@),
{
    let mut s = mirror_path_owned(source);
    s.append(".o");
    proof {
        reveal_strlit(".o");
        assert(s@ =~= object_path_of(source@));
    }
    s
}

/// Walks one entry at path `path`, appending its mirrored directories and its
/// compile jobs to the plan.
fn walk_entry(path: &String, e: &TreeEntry, plan: &mut BuildPlan)
    ensures
        string_views(final(plan).dirs@) =~= string_views(old(plan).dirs@) + dirs_of(path@, *e),
        job_views(final(plan).jobs@) =~= job_views(old(plan).jobs@) + jobs_of(path@, *e),
    decreases *e, 0int,
{
    match e {
        TreeEntry::File { .. } => {
            proof {
                assert(*e is File);
            }
            let object_path = object_path_owned(path);
            let job = CompileJob { source_path: path.clone(), object_path };
            plan.jobs.push(job);
        },
        TreeEntry::Dir { entries, .. } => {
            proof {
                assert(*e is Dir);
                assert(dirs_of(path@, *e) == seq![mirror_path(path@)] + dirs_of_seq(
                    path@,
                    entries@,
                ));
                assert(jobs_of(path@, *e) == jobs_of_seq(path@, entries@));
            }
            let mirror = mirror_path_owned(path);
            plan.dirs.push(mirror);
            let ghost d1 = plan.dirs@;
            walk_entries(path, entries, 0, plan);
            proof {
                assert(entries@.skip(0) =~= entries@);
                assert(string_views(d1) =~= string_views(old(plan).dirs@) + seq![
                    mirror_path(path@),
                ]);
                assert(string_views(plan.dirs@) =~= string_views(old(plan).dirs@) + dirs_of(
                    path@,
                    *e,
                ));
                assert(job_views(plan.jobs@) =~= job_views(old(plan).jobs@) + jobs_of(path@, *e));
            }
        },
    }
}

/// Walks the children `es[i..]` of the directory at `parent`, appending their
/// mirrored directories and compile jobs to the plan.
fn walk_entries(parent: &String, es: &Vec<TreeEntry>, i: usize, plan: &mut BuildPlan)
    requires
        i <= es.len(),
    ensures
        string_views(final(plan).dirs@) =~= string_views(old(plan).dirs@) + dirs_of_seq(
            parent@,
            es@.skip(i as int),
        ),
        job_views(final(plan).jobs@) =~= job_views(old(plan).jobs@) + jobs_of_seq(
            parent@,
            es@.skip(i as int),
        ),
    decreases es@, es@.len() - i,
{
    if i < es.len() {
        let name = entry_name_owned(&es[i]);
        let path = child_path_owned(parent, &name);
        walk_entry(&path, &es[i], plan);
        walk_entries(parent, es, i + 1, plan);
        proof {
            let suffix = es@.skip(i as int);
            assert(suffix[0] == es@[i as int]);
            assert(suffix.drop_first() =~= es@.skip(i as int + 1));
            assert(string_views(plan.dirs@) =~= string_views(old(plan).dirs@) + dirs_of_seq(
                parent@,
                suffix,
            ));
            assert(job_views(plan.jobs@) =~= job_views(old(plan).jobs@) + jobs_of_seq(
                parent@,
                suffix,
            ));
        }
    } else {
        proof {
            assert(es@.skip(i as int) =~= Seq::<TreeEntry>::empty());
        }
    }
}

/// Walks a whole source tree rooted at `root` and returns the full build plan:
/// the directories to mirror, each parent before its contents and all of them
/// ahead of every job, and one compile job per regular file, in depth-first
/// discovery order.
pub fn plan_build(root: &TreeEntry) -> (plan: BuildPlan)
    ensures
        string_views(plan.dirs@) =~= plan_dirs(*root),
        job_views(plan.jobs@) =~= plan_jobs(*root),
{
    let mut plan = BuildPlan { dirs: Vec::new(), jobs: Vec::new() };
    let obj = String::from_str("obj");
    plan.dirs.push(obj);
    proof {
        reveal_strlit("obj");
        assert("obj"@ =~= obj_root());
        assert(string_views(plan.dirs@) =~= seq![obj_root()]);
        assert(job_views(plan.jobs@) =~= Seq::<JobModel>::empty());
    }
    let root_path = entry_name_owned(root);
    walk_entry(&root_path, root, &mut plan);
    plan
}

/// The outcome of creating one mirrored directory.
pub enum DirCreateOutcome {
    Created,
    AlreadyExists,
    Failed { cause: String },
}

/// Whether a directory-creation outcome is fatal to the build: only a real
/// failure is; a creation that finds the directory already in place counts
/// as success.
pub open spec fn dir_create_fatal(o: DirCreateOutcome) -> bool {
    o is Failed
}

/// Classifies the outcome of creating one mirrored directory.
pub fn dir_create_is_fatal(o: &DirCreateOutcome) -> (b: bool)
    ensures
        b == dir_create_fatal(*o),
{
    match o {
        DirCreateOutcome::Created => false,
        DirCreateOutcome::AlreadyExists => false,
        DirCreateOutcome::Failed { .. } => true,
    }
}

/// Law: directory mirroring is idempotent. The directories a walk asks for
/// are a function of the source tree alone, so a second walk over the same
/// tree asks for exactly the same directories; each of those then already
/// exists, and an already-existing directory is never a fatal creation
/// outcome — the second walk succeeds.
pub proof fn lemma_mirroring_idempotent(root: TreeEntry, outcomes: Seq<DirCreateOutcome>)
    requires
        outcomes.len() == plan_dirs(root).len(),
        forall|i: int| 0 <= i < outcomes.len() ==> (#[trigger] outcomes[i]) is AlreadyExists,
    ensures
        forall|i: int| 0 <= i < outcomes.len() ==> !dir_create_fatal(#[trigger] outcomes[i]),
{
}

/// Every job a walk yields binds its object path to its source path: the
/// intermediate root prepended and the object suffix appended.
pub proof fn lemma_jobs_objects_pointwise(path: Seq<char>, e: TreeEntry)
    ensures
        forall|i: int|
            0 <= i < jobs_of(path, e).len() ==> (#[trigger] jobs_of(path, e)[i]).object
                == object_path_of(jobs_of(path, e)[i].source),
    decreases e, 0int,
{
    match e {
        TreeEntry::File { .. } => {
            assert(e is File);
            assert(jobs_of(path, e) == seq![
                JobModel { source: path, object: object_path_of(path) },
            ]);
        },
        TreeEntry::Dir { entries, .. } => {
            assert(e is Dir);
            lemma_jobs_objects_pointwise_seq(path, entries@);
            assert(jobs_of(path, e) == jobs_of_seq(path, entries@));
        },
    }
}

/// As [`lemma_jobs_objects_pointwise`], over the children of one directory.
pub proof fn lemma_jobs_objects_pointwise_seq(parent: Seq<char>, es: Seq<TreeEntry>)
    ensures
        forall|i: int|
            0 <= i < jobs_of_seq(parent, es).len() ==> (#[trigger] jobs_of_seq(parent, es)[i]).object
                == object_path_of(jobs_of_seq(parent, es)[i].source),
    decreases es, 1int,
{
    if es.len() > 0 {
        lemma_jobs_objects_pointwise(child_path(parent, entry_name(es[0])), es[0]);
        lemma_jobs_objects_pointwise_seq(parent, es.drop_first());
        let head = jobs_of(child_path(parent, entry_name(es[0])), es[0]);
        let tail = jobs_of_seq(parent, es.drop_first());
        assert forall|i: int|
            0 <= i < jobs_of_seq(parent, es).len() implies (#[trigger] jobs_of_seq(
            parent,
            es,
        )[i]).object == object_path_of(jobs_of_seq(parent, es)[i].source) by {
            if i < head.len() {
                assert(jobs_of_seq(parent, es)[i] == head[i]);
            } else {
                assert(jobs_of_seq(parent, es)[i] == tail[i - head.len()]);
            }
        }
    }
}

/// Law: the set of object paths a walk produces equals the set of its source
/// paths, each with the intermediate root prepended and the object suffix
/// appended — a purely structural mapping, independent of file content.
pub proof fn lemma_object_paths_structural(root: TreeEntry)
    ensures
        plan_jobs(root).map_values(|j: JobModel| j.object).to_set() =~= plan_jobs(root).map_values(
            |j: JobModel| j.source,
        ).to_set().map(|s: Seq<char>| object_path_of(s)),
{
    let jobs = plan_jobs(root);
    let objs = jobs.map_values(|j: JobModel| j.object);
    let srcs = jobs.map_values(|j: JobModel| j.source);
    lemma_jobs_objects_pointwise(entry_name(root), root);
    assert forall|x: Seq<char>| objs.to_set().contains(x) implies srcs.to_set().map(
        |s: Seq<char>| object_path_of(s),
    ).contains(x) by {
        let i = choose|i: int| 0 <= i < objs.len() && objs[i] == x;
        assert(srcs[i] == jobs[i].source);
        assert(srcs.contains(srcs[i]));
        assert(srcs.to_set().contains(srcs[i]));
        assert(x == object_path_of(srcs[i]));
    }
    assert forall|x: Seq<char>|
        srcs.to_set().map(|s: Seq<char>| object_path_of(s)).contains(x) implies objs.to_set()
        .contains(x) by {
        let s = choose|s: Seq<char>| srcs.to_set().contains(s) && x == object_path_of(s);
        let i = choose|i: int| 0 <= i < srcs.len() && srcs[i] == s;
        assert(objs[i] == jobs[i].object);
        assert(objs[i] == object_path_of(s));
        assert(objs.contains(objs[i]));
    }
}

/// Every job of a directory's walk has its source inside some walked
/// directory whose mirror the walk creates: its source path is `d/n` for a
/// directory path `d` that is either the walked directory itself or one whose
/// mirror stands in the walk's own directory list.
proof fn lemma_job_parents_mirrored_seq(parent: Seq<char>, es: Seq<TreeEntry>)
    ensures
        forall|i: int|
            0 <= i < jobs_of_seq(parent, es).len() ==> exists|d: Seq<char>, n: Seq<char>|
                (#[trigger] jobs_of_seq(parent, es)[i]).source == child_path(d, n) && (d == parent
                    || dirs_of_seq(parent, es).contains(mirror_path(d))),
    decreases es, 1int,
{
    if es.len() > 0 {
        let cp = child_path(parent, entry_name(es[0]));
        let head_jobs = jobs_of(cp, es[0]);
        let head_dirs = dirs_of(cp, es[0]);
        let tail_jobs = jobs_of_seq(parent, es.drop_first());
        let tail_dirs = dirs_of_seq(parent, es.drop_first());
        if es[0] is Dir {
            lemma_job_parents_mirrored(cp, es[0]);
        }
        lemma_job_parents_mirrored_seq(parent, es.drop_first());
        assert forall|i: int| 0 <= i < jobs_of_seq(parent, es).len() implies exists|
            d: Seq<char>,
            n: Seq<char>,
        |
            (#[trigger] jobs_of_seq(parent, es)[i]).source == child_path(d, n) && (d == parent
                || dirs_of_seq(parent, es).contains(mirror_path(d))) by {
            if i < head_jobs.len() {
                assert(jobs_of_seq(parent, es)[i] == head_jobs[i]);
                match es[0] {
                    TreeEntry::File { .. } => {
                        assert(es[0] is File);
                        assert(head_jobs[i].source == child_path(parent, entry_name(es[0])));
                    },
                    TreeEntry::Dir { .. } => {
                        assert(es[0] is Dir);
                        let (d, n) = choose|d: Seq<char>, n: Seq<char>|
                            head_jobs[i].source == child_path(d, n) && (d == cp
                                || head_dirs.contains(mirror_path(d)));
                        if d == cp {
                            assert(head_dirs[0] == mirror_path(cp));
                            assert(dirs_of_seq(parent, es)[0] == mirror_path(d));
                            assert(dirs_of_seq(parent, es).contains(mirror_path(d)));
                        } else {
                            let j = choose|j: int|
                                0 <= j < head_dirs.len() && head_dirs[j] == mirror_path(d);
                            assert(dirs_of_seq(parent, es)[j] == mirror_path(d));
                            assert(dirs_of_seq(parent, es).contains(mirror_path(d)));
                        }
                    },
                }
            } else {
                assert(jobs_of_seq(parent, es)[i] == tail_jobs[i - head_jobs.len()]);
                let (d, n) = choose|d: Seq<char>, n: Seq<char>|
                    tail_jobs[i - head_jobs.len()].source == child_path(d, n) && (d == parent
                        || tail_dirs.contains(mirror_path(d)));
                if d != parent {
                    let j = choose|j: int|
                        0 <= j < tail_dirs.len() && tail_dirs[j] == mirror_path(d);
                    assert(dirs_of_seq(parent, es)[head_dirs.len() + j] == mirror_path(d));
                    assert(dirs_of_seq(parent, es).contains(mirror_path(d)));
                }
            }
        }
    }
}

/// As [`lemma_job_parents_mirrored_seq`], for one directory entry: every job
/// under it lies in a directory whose mirror the entry's own walk creates.
proof fn lemma_job_parents_mirrored(path: Seq<char>, e: TreeEntry)
    requires
        e is Dir,
    ensures
        forall|i: int|
            0 <= i < jobs_of(path, e).len() ==> exists|d: Seq<char>, n: Seq<char>|
                (#[trigger] jobs_of(path, e)[i]).source == child_path(d, n) && dirs_of(
                    path,
                    e,
                ).contains(mirror_path(d)),
    decreases e, 0int,
{
    match e {
        TreeEntry::File { .. } => {
        },
        TreeEntry::Dir { entries, .. } => {
            assert(e is Dir);
            lemma_job_parents_mirrored_seq(path, entries@);
            let inner_jobs = jobs_of_seq(path, entries@);
            let inner_dirs = dirs_of_seq(path, entries@);
            assert(jobs_of(path, e) == inner_jobs);
            assert(dirs_of(path, e) == seq![mirror_path(path)] + inner_dirs);
            assert forall|i: int| 0 <= i < jobs_of(path, e).len() implies exists|
                d: Seq<char>,
                n: Seq<char>,
            |
                (#[trigger] jobs_of(path, e)[i]).source == child_path(d, n) && dirs_of(
                    path,
                    e,
                ).contains(mirror_path(d)) by {
                let (d, n) = choose|d: Seq<char>, n: Seq<char>|
                    inner_jobs[i].source == child_path(d, n) && (d == path || inner_dirs.contains(
                        mirror_path(d),
                    ));
                if d == path {
                    assert(dirs_of(path, e)[0] == mirror_path(d));
                    assert(dirs_of(path, e).contains(mirror_path(d)));
                } else {
                    let j = choose|j: int|
                        0 <= j < inner_dirs.len() && inner_dirs[j] == mirror_path(d);
                    assert(dirs_of(path, e)[1 + j] == mirror_path(d));
                    assert(dirs_of(path, e).contains(mirror_path(d)));
                }
            }
        },
    }
}

/// Law: no compile job ever has to create its own output directory. In the
/// plan of a source tree, every job's source path lies in a walked directory
/// whose mirror stands in the plan's directory list — and the whole list is
/// created before any job is launched, so concurrently running jobs never
/// race to create an output parent.
pub proof fn lemma_plan_parents_mirrored(root: TreeEntry)
    requires
        root is Dir,
    ensures
        forall|i: int|
            0 <= i < plan_jobs(root).len() ==> exists|d: Seq<char>, n: Seq<char>|
                (#[trigger] plan_jobs(root)[i]).source == child_path(d, n) && plan_dirs(
                    root,
                ).contains(mirror_path(d)),
{
    lemma_job_parents_mirrored(entry_name(root), root);
    let jobs = plan_jobs(root);
    let dirs = dirs_of(entry_name(root), root);
    assert forall|i: int| 0 <= i < jobs.len() implies exists|d: Seq<char>, n: Seq<char>|
        (#[trigger] jobs[i]).source == child_path(d, n) && plan_dirs(root).contains(
            mirror_path(d),
        ) by {
        let (d, n) = choose|d: Seq<char>, n: Seq<char>|
            jobs[i].source == child_path(d, n) && dirs.contains(mirror_path(d));
        let j = choose|j: int| 0 <= j < dirs.len() && dirs[j] == mirror_path(d);
        assert(plan_dirs(root)[1 + j] == mirror_path(d));
        assert(plan_dirs(root).contains(mirror_path(d)));
    }
}

} // verus!
