//! Fetching build recipes: where a package's recipe is cloned from and to,
//! which clones are brought up to date, and what a run of clones or pulls
//! amounts to.

use vstd::prelude::*;
use vstd::string::*;
use crate::batch::{failures_of, gather, successes_of, validate, BatchOutcome};
use crate::paths::{check_name, is_safe_name, join, joined};
use crate::aur::Error;
use crate::report::{Failure, Notice};

verus! {

/// The address below which the AUR keeps the recipes.
pub open spec fn aur_base_url() -> Seq<char> {
    "https://aur.archlinux.org/"@
}

/// The address of the recipe of `package`: the base address, the name, and
/// the ending `.git`.
pub open spec fn clone_url(package: Seq<char>) -> Seq<char> {
    aur_base_url() + package + ".git"@
}

/// Where the clone of `package` goes: under `root` where one is given, else
/// to the name itself.
pub open spec fn clone_path(root: Option<&str>, package: Seq<char>) -> Seq<char> {
    match root {
        Some(r) => joined(r@, package),
        None => package,
    }
}

/// One clone that is to be made.
#[derive(Debug)]
pub struct CloneJob {
    pub package: String,
    /// Where to clone from.
    pub url: String,
    /// Where to clone to.
    pub path: String,
    /// How many commits of the history are fetched.
    pub depth: u32,
}

/// One clone that is to be brought up to date.
#[derive(Debug)]
pub struct PullJob {
    pub package: String,
    /// The directory of the clone.
    pub path: String,
}

/// An entry of the clone directory.
#[derive(Debug)]
pub struct Entry {
    pub name: String,
    pub is_dir: bool,
}

/// `job` is the clone of `package` under `root`.
pub open spec fn is_clone_of(job: CloneJob, root: Option<&str>, package: Seq<char>) -> bool {
    &&& job.package@ == package
    &&& job.url@ == clone_url(package)
    &&& job.path@ == clone_path(root, package)
    &&& job.depth == 1
}

/// Plans the clone of `package`: a shallow one, of the newest commit alone. A
/// name that cannot stand as one part of a path gets no clone.
pub fn clone_aur_repo(root: Option<&str>, package: &str) -> (job: Option<CloneJob>)
    ensures
        job is Some <==> is_safe_name(package@),
        job matches Some(j) ==> is_clone_of(j, root, package@),
{
    if !check_name(package) {
        return None;
    }
    let mut url = String::from_str("https://aur.archlinux.org/");
    url.append(package);
    url.append(".git");
    let path = match root {
        Some(r) => join(r, package),
        None => String::from_str(package),
    };
    Some(CloneJob { package: String::from_str(package), url, path, depth: 1 })
}

/// `planned` is what is planned for `package` under `root`: its clone, or, where
/// the name cannot stand in a path, the name as a failure.
pub open spec fn is_plan_for(
    planned: Result<CloneJob, String>,
    root: Option<&str>,
    package: Seq<char>,
) -> bool {
    match planned {
        Ok(job) => is_safe_name(package) && is_clone_of(job, root, package),
        Err(name) => !is_safe_name(package) && name@ == package,
    }
}

/// Plans the clones of `packages`, one for each and in their order. A name
/// that cannot stand in a path is a failure of the batch before anything
/// is fetched.
pub fn clone_jobs(root: Option<&str>, packages: &Vec<String>) -> (jobs: Vec<
    Result<CloneJob, String>,
>)
    ensures
        jobs.len() == packages.len(),
        forall|i: int|
            0 <= i < jobs.len() ==> is_plan_for(#[trigger] jobs@[i], root, packages@[i]@),
{
    let mut jobs: Vec<Result<CloneJob, String>> = Vec::new();
    let mut i: usize = 0;
    while i < packages.len()
        invariant
            i <= packages.len(),
            jobs.len() == i,
            forall|k: int| 0 <= k < i ==> is_plan_for(#[trigger] jobs@[k], root, packages@[k]@),
        decreases packages.len() - i,
    {
        match clone_aur_repo(root, packages[i].as_str()) {
            Some(job) => {
                jobs.push(Ok(job));
            },
            None => {
                jobs.push(Err(packages[i].clone()));
            },
        }
        i += 1;
    }
    jobs
}

/// The entries that are directories.
pub open spec fn is_directory() -> spec_fn(Entry) -> bool {
    |e: Entry| e.is_dir
}

/// Plans the pulls: one for each directory among `entries`, in their order,
/// at its place under `root`. What is no directory is passed over.
pub fn pull_jobs(root: &str, entries: &Vec<Entry>) -> (jobs: Vec<PullJob>)
    ensures
        jobs.len() == entries@.filter(is_directory()).len(),
        forall|i: int|
            0 <= i < jobs.len() ==> (#[trigger] jobs@[i]).package@ == entries@.filter(
                is_directory(),
            )[i].name@ && jobs@[i].path@ == joined(root@, jobs@[i].package@),
{
    let ghost dirs = is_directory();
    let mut jobs: Vec<PullJob> = Vec::new();
    let mut i: usize = 0;
    proof {
        reveal(Seq::filter);
        assert(entries@.take(0) =~= Seq::empty());
    }
    while i < entries.len()
        invariant
            i <= entries.len(),
            dirs == is_directory(),
            jobs.len() == entries@.take(i as int).filter(dirs).len(),
            forall|k: int|
                0 <= k < jobs.len() ==> (#[trigger] jobs@[k]).package@ == entries@.take(
                    i as int,
                ).filter(dirs)[k].name@ && jobs@[k].path@ == joined(root@, jobs@[k].package@),
        decreases entries.len() - i,
    {
        let e = &entries[i];
        proof {
            assert(entries@.take(i + 1) =~= entries@.take(i as int).push(*e));
            entries@.take(i as int).lemma_filter_push(*e, dirs);
        }
        if e.is_dir {
            jobs.push(PullJob { package: e.name.clone(), path: join(root, e.name.as_str()) });
        }
        i += 1;
    }
    assert(entries@.take(entries@.len() as int) =~= entries@);
    jobs
}

/// The outcome of a batch of clones or pulls: `Ok` holds the name of a package
/// that was fetched, `Err` the name of one that was not.
pub fn sync_batch(results: Vec<Result<String, String>>) -> (outcome: BatchOutcome<String, String>)
    ensures
        outcome.successes@ == successes_of(results@),
        outcome.failures@ == failures_of(results@),
        outcome.successes.len() + outcome.failures.len() == results.len(),
{
    gather(results)
}

/// What a run of fetches amounts to: `Done` where every one went well, else
/// the notice `failed` with the names of all that did not, in the order of
/// the results, and the end `Silent`.
fn sync_report(results: Vec<Result<String, String>>, failed: Notice) -> (end: Result<
    Notice,
    Failure,
>)
    ensures
        end is Ok <==> failures_of(results@).len() == 0,
        end matches Ok(notice) ==> notice is Done,
        end matches Err(failure) ==> failure.notice == failed && failure.names@ == failures_of(
            results@,
        ) && failure.error is Silent,
{
    match validate(results) {
        Ok(_) => Ok(Notice::Done),
        Err(bad) => Err(Failure { notice: failed, names: bad, error: Error::Silent }),
    }
}

/// What a run of clones amounts to. Every clone was tried, whatever became of
/// the others: `results` holds for each the name of its package, in `Ok` where
/// the clone was made. The run ends well if all were; if not, it names all
/// that were not made.
pub fn clone_aur_repos(results: Vec<Result<String, String>>) -> (end: Result<Notice, Failure>)
    ensures
        end is Ok <==> failures_of(results@).len() == 0,
        end matches Ok(notice) ==> notice is Done,
        end matches Err(failure) ==> failure.notice is CloneFailed && failure.names@
            == failures_of(results@) && failure.error is Silent,
{
    sync_report(results, Notice::CloneFailed)
}

/// What a run of pulls amounts to; as for clones.
pub fn refresh(results: Vec<Result<String, String>>) -> (end: Result<Notice, Failure>)
    ensures
        end is Ok <==> failures_of(results@).len() == 0,
        end matches Ok(notice) ==> notice is Done,
        end matches Err(failure) ==> failure.notice is PullFailed && failure.names@
            == failures_of(results@) && failure.error is Silent,
{
    sync_report(results, Notice::PullFailed)
}

} // verus!
