//! Compile result aggregation and outcome reporting.
//!
//! Every launched job is waited for unconditionally — a failing job never
//! causes a sibling's outcome to be discarded. Once every outcome is
//! recorded, the aggregator counts the failures and keeps the object paths of
//! exactly the succeeded jobs, in discovery order. The linker runs only when
//! no job failed, and the reporter maps the terminal state of the build to a
//! process exit code: full success, compile failure, or link failure.

use vstd::prelude::*;

verus! {

use crate::command::link_args;
use crate::config::{PackageModel, string_views};
use crate::walk::{CompileJob, JobModel, job_views};

/// The outcome of one external process: it ran and exited cleanly, it ran
/// and exited with a failure code, or it could not be launched at all.
pub enum CompileOutcome {
    Succeeded,
    ProcessFailed { exit_code: i32 },
    LaunchFailed { cause: String },
}

/// A build's aggregate result: the object paths of the succeeded jobs, in
/// discovery order, and the number of jobs that failed.
pub struct BuildResult {
    pub object_paths: Vec<String>,
    pub failure_count: usize,
}

/// Whether an outcome counts as a failure: everything but a clean exit.
pub open spec fn outcome_failed(o: CompileOutcome) -> bool {
    !(o is Succeeded)
}

/// The number of failed outcomes in a sequence.
pub open spec fn failure_count_of(outcomes: Seq<CompileOutcome>) -> nat
    decreases outcomes.len(),
{
    if outcomes.len() == 0 {
        0
    } else {
        failure_count_of(outcomes.drop_last()) + if outcome_failed(outcomes.last()) {
            1nat
        } else {
            0nat
        }
    }
}

/// The object paths of exactly the succeeded jobs, in their original order.
pub open spec fn succeeded_objects(jobs: Seq<JobModel>, outcomes: Seq<CompileOutcome>) -> Seq<
    Seq<char>,
>
    recommends
        jobs.len() == outcomes.len(),
    decreases outcomes.len(),
{
    if outcomes.len() == 0 {
        Seq::empty()
    } else {
        succeeded_objects(jobs.drop_last(), outcomes.drop_last()) + if outcomes.last()
            is Succeeded {
            seq![jobs.last().object]
        } else {
            Seq::empty()
        }
    }
}

/// Classifies one outcome, as the reporter does for every compiled unit and
/// for the link step: anything but a clean exit is a failure.
pub fn outcome_is_failure(o: &CompileOutcome) -> (b: bool)
    ensures
        b == outcome_failed(*o),
{
    match o {
        CompileOutcome::Succeeded => false,
        CompileOutcome::ProcessFailed { .. } => true,
        CompileOutcome::LaunchFailed { .. } => true,
    }
}

/// Aggregates the outcome of every job: counts the failures and keeps the
/// object paths of exactly the succeeded jobs, in discovery order. No outcome
/// is skipped: the whole sequence is consumed whatever each outcome was.
pub fn aggregate(jobs: &Vec<CompileJob>, outcomes: &Vec<CompileOutcome>) -> (r: BuildResult)
    requires
        jobs@.len() == outcomes@.len(),
    ensures
        r.failure_count == failure_count_of(outcomes@),
        string_views(r.object_paths@) =~= succeeded_objects(job_views(jobs@), outcomes@),
{
    let mut object_paths: Vec<String> = Vec::new();
    let mut failure_count: usize = 0;
    let mut k: usize = 0;
    while k < outcomes.len()
        invariant
            jobs@.len() == outcomes@.len(),
            k <= outcomes.len(),
            failure_count == failure_count_of(outcomes@.take(k as int)),
            failure_count <= k,
            string_views(object_paths@) =~= succeeded_objects(
                job_views(jobs@).take(k as int),
                outcomes@.take(k as int),
            ),
        decreases outcomes.len() - k,
    {
        proof {
            assert(outcomes@.take(k + 1 as int).drop_last() =~= outcomes@.take(k as int));
            assert(job_views(jobs@).take(k + 1 as int).drop_last() =~= job_views(jobs@).take(
                k as int,
            ));
            assert(outcomes@.take(k + 1 as int).last() == outcomes@[k as int]);
            assert(job_views(jobs@).take(k + 1 as int).last() == jobs@[k as int]@);
        }
        let failed = outcome_is_failure(&outcomes[k]);
        if failed {
            failure_count = failure_count + 1;
        } else {
            let object = jobs[k].object_path.clone();
            let ghost before = object_paths@;
            object_paths.push(object);
            proof {
                assert(string_views(object_paths@) =~= string_views(before) + seq![
                    jobs@[k as int]@.object,
                ]);
            }
        }
        k = k + 1;
    }
    proof {
        assert(outcomes@.take(outcomes@.len() as int) =~= outcomes@);
        assert(job_views(jobs@).take(outcomes@.len() as int) =~= job_views(jobs@));
    }
    BuildResult { object_paths, failure_count }
}

/// Whether the link stage may run: only when no compile job failed.
pub fn should_link(r: &BuildResult) -> (b: bool)
    ensures
        b == (r.failure_count == 0),
{
    r.failure_count == 0
}

/// The terminal state of one build.
pub enum BuildDisposition {
    /// Every unit compiled and the binary linked.
    Success,
    /// One or more units failed to compile; the linker was never invoked.
    CompileFailed { failures: usize },
    /// Every unit compiled, but the link step failed.
    LinkFailed,
}

/// The disposition of a finished build: compile failures take precedence and
/// suppress linking; otherwise the link outcome decides. A missing link
/// outcome can only stand beside a nonzero failure count.
pub open spec fn disposition_spec(
    failure_count: usize,
    link_outcome: Option<CompileOutcome>,
) -> BuildDisposition {
    if failure_count > 0 {
        BuildDisposition::CompileFailed { failures: failure_count }
    } else {
        match link_outcome {
            Option::Some(o) => if o is Succeeded {
                BuildDisposition::Success
            } else {
                BuildDisposition::LinkFailed
            },
            Option::None => BuildDisposition::Success,
        }
    }
}

/// The process exit code of a disposition: full success, compile failure, or
/// link failure.
pub open spec fn exit_code_spec(d: BuildDisposition) -> u8 {
    match d {
        BuildDisposition::Success => 0,
        BuildDisposition::CompileFailed { .. } => 1,
        BuildDisposition::LinkFailed => 2,
    }
}

/// Maps a finished build to its disposition. The linker runs exactly when no
/// compile job failed, so a link outcome is present if and only if the
/// failure count is zero.
pub fn disposition(failure_count: usize, link_outcome: &Option<CompileOutcome>) -> (d:
    BuildDisposition)
    requires
        (link_outcome is Some) <==> (failure_count == 0),
    ensures
        d == disposition_spec(failure_count, *link_outcome),
{
    if failure_count > 0 {
        BuildDisposition::CompileFailed { failures: failure_count }
    } else {
        match link_outcome {
            Option::Some(o) => {
                let failed = outcome_is_failure(o);
                if failed {
                    BuildDisposition::LinkFailed
                } else {
                    BuildDisposition::Success
                }
            },
            Option::None => BuildDisposition::Success,
        }
    }
}

/// The exit code of a disposition.
pub fn exit_code(d: &BuildDisposition) -> (c: u8)
    ensures
        c == exit_code_spec(*d),
{
    match d {
        BuildDisposition::Success => 0,
        BuildDisposition::CompileFailed { .. } => 1,
        BuildDisposition::LinkFailed => 2,
    }
}

/// Law: failure accounting. Over jobs with one outcome each, the failures
/// and the produced object files partition the jobs: with `N` jobs of which
/// `E` failed, exactly `N - E` object paths are kept; and any failure at all
/// suppresses the link stage.
pub proof fn lemma_failure_accounting(jobs: Seq<JobModel>, outcomes: Seq<CompileOutcome>)
    requires
        jobs.len() == outcomes.len(),
    ensures
        failure_count_of(outcomes) <= outcomes.len(),
        succeeded_objects(jobs, outcomes).len() + failure_count_of(outcomes) == jobs.len(),
        failure_count_of(outcomes) > 0 && failure_count_of(outcomes) <= usize::MAX
            ==> exit_code_spec(
            disposition_spec(failure_count_of(outcomes) as usize, Option::None),
        ) == 1,
    decreases outcomes.len(),
{
    if outcomes.len() > 0 {
        lemma_failure_accounting(jobs.drop_last(), outcomes.drop_last());
    }
}

/// Law: when no job failed, the link stage receives exactly the object path
/// of every job, in discovery order: its single invocation's argument list
/// begins with those paths, one per job.
pub proof fn lemma_link_inputs_complete(
    p: PackageModel,
    jobs: Seq<JobModel>,
    outcomes: Seq<CompileOutcome>,
)
    requires
        jobs.len() == outcomes.len(),
        failure_count_of(outcomes) == 0,
    ensures
        succeeded_objects(jobs, outcomes) =~= jobs.map_values(|j: JobModel| j.object),
        link_args(p, succeeded_objects(jobs, outcomes)).take(jobs.len() as int) =~= jobs.map_values(
            |j: JobModel| j.object,
        ),
    decreases outcomes.len(),
{
    lemma_all_objects_kept(jobs, outcomes);
    assert(link_args(p, succeeded_objects(jobs, outcomes)).take(jobs.len() as int)
        =~= succeeded_objects(jobs, outcomes));
}

/// When no job failed, the aggregator keeps every job's object path, in order.
proof fn lemma_all_objects_kept(jobs: Seq<JobModel>, outcomes: Seq<CompileOutcome>)
    requires
        jobs.len() == outcomes.len(),
        failure_count_of(outcomes) == 0,
    ensures
        succeeded_objects(jobs, outcomes) =~= jobs.map_values(|j: JobModel| j.object),
    decreases outcomes.len(),
{
    if outcomes.len() > 0 {
        assert(failure_count_of(outcomes.drop_last()) == 0);
        lemma_all_objects_kept(jobs.drop_last(), outcomes.drop_last());
        assert(jobs.drop_last().map_values(|j: JobModel| j.object) =~= jobs.map_values(
            |j: JobModel| j.object,
        ).drop_last());
        assert(!outcome_failed(outcomes.last()));
    }
}

} // verus!
