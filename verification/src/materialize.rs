//! Bytecode: what is handed to the compiler, and how what it gives back is
//! packaged.

use vstd::prelude::*;
use crate::name_map::sorted_names;
use crate::name_map::NameMap;
use crate::name_set::lemma_prefix_set_start;
use crate::name_set::lemma_prefix_set_step;
use crate::name_set::lemma_prefix_set_whole;
use crate::name_set::prefix_set;
use crate::resource::BytecodeOptimizationLevel;
use crate::resource::BytecodeRequest;
use crate::resource::BytecodeRequestView;
use crate::resource::PackagedModuleBytecode;
use crate::resource::PackagedModuleBytecodeView;

verus! {

/// The form in which the compiler gives bytecode back.
#[derive(Debug, Clone, Copy, PartialEq, Eq)]
pub enum CompileMode {
    /// The code object alone, to be loaded from memory.
    Bytecode,
    /// A `.pyc` file whose hash is not checked when it is loaded.
    PycUncheckedHash,
}

/// One module to compile.
#[derive(Debug, Clone, PartialEq, Eq)]
pub struct CompileJob {
    pub name: String,
    pub source: Vec<u8>,
    pub optimize_level: BytecodeOptimizationLevel,
    pub mode: CompileMode,
}

/// What a `CompileJob` holds.
pub struct CompileJobView {
    pub name: Seq<char>,
    pub source: Seq<u8>,
    pub optimize_level: BytecodeOptimizationLevel,
    pub mode: CompileMode,
}

impl View for CompileJob {
    type V = CompileJobView;

    open spec fn view(&self) -> CompileJobView {
        CompileJobView {
            name: self.name@,
            source: self.source@,
            optimize_level: self.optimize_level,
            mode: self.mode,
        }
    }
}

/// The modules to compile for one directory beside the binary.
#[derive(Debug, Clone, PartialEq, Eq)]
pub struct DirectoryJobs {
    pub path: String,
    pub jobs: Vec<CompileJob>,
}

/// What a `DirectoryJobs` holds.
pub struct DirectoryJobsView {
    pub path: Seq<char>,
    pub jobs: Seq<CompileJobView>,
}

impl View for DirectoryJobs {
    type V = DirectoryJobsView;

    open spec fn view(&self) -> DirectoryJobsView {
        DirectoryJobsView { path: self.path@, jobs: job_views(self.jobs@) }
    }
}

/// What a sequence of jobs holds.
pub open spec fn job_views(jobs: Seq<CompileJob>) -> Seq<CompileJobView> {
    Seq::new(jobs.len(), |i: int| jobs[i]@)
}

/// What a sequence of jobs by directory holds.
pub open spec fn directory_job_views(jobs: Seq<DirectoryJobs>) -> Seq<DirectoryJobsView> {
    Seq::new(jobs.len(), |i: int| jobs[i]@)
}

/// The job that a request makes.
pub open spec fn job_of(name: Seq<char>, request: BytecodeRequestView, mode: CompileMode) -> CompileJobView {
    CompileJobView {
        name,
        source: request.source,
        optimize_level: request.optimize_level,
        mode,
    }
}

/// The jobs that the requests make: one for each, in the order of names,
/// with the source and the optimisation of the request.
pub open spec fn jobs_for(requests: Map<Seq<char>, BytecodeRequestView>, mode: CompileMode) -> Seq<
    CompileJobView,
> {
    let names = sorted_names(requests.dom());
    Seq::new(names.len(), |i: int| job_of(names[i], requests[names[i]], mode))
}

/// The jobs for the directories beside the binary: directory by directory in
/// the order of their paths. What goes beside the binary is not changed once
/// it is installed, so its bytecode is a `.pyc` file with an unchecked hash.
pub open spec fn directory_jobs_for(
    requests: Map<Seq<char>, Map<Seq<char>, BytecodeRequestView>>,
) -> Seq<DirectoryJobsView> {
    let paths = sorted_names(requests.dom());
    Seq::new(
        paths.len(),
        |i: int|
            DirectoryJobsView {
                path: paths[i],
                jobs: jobs_for(requests[paths[i]], CompileMode::PycUncheckedHash),
            },
    )
}

/// A copy of the bytes.
pub fn copy_bytes(bytes: &Vec<u8>) -> (copy: Vec<u8>)
    ensures
        copy@ == bytes@,
{
    let mut copy: Vec<u8> = Vec::with_capacity(bytes.len());
    let n = bytes.len();
    let mut i: usize = 0;
    while i < n
        invariant
            i <= n,
            n == bytes@.len(),
            copy@ == bytes@.subrange(0, i as int),
        decreases n - i,
    {
        copy.push(bytes[i]);
        proof {
            assert(copy@ =~= bytes@.subrange(0, i as int + 1));
        }
        i += 1;
    }
    proof {
        assert(bytes@.subrange(0, n as int) =~= bytes@);
    }
    copy
}

/// The jobs that the requests make.
pub fn plan_jobs(requests: &NameMap<BytecodeRequest>, mode: CompileMode) -> (jobs: Vec<CompileJob>)
    ensures
        job_views(jobs@) == jobs_for(requests@, mode),
{
    let n = requests.len();
    let ghost names = requests.names();
    proof {
        requests.lemma_names();
    }
    let mut jobs: Vec<CompileJob> = Vec::new();
    let mut i: usize = 0;
    while i < n
        invariant
            i <= n,
            n == names.len(),
            names == requests.names(),
            requests.items().len() == n,
            requests.well_formed(),
            jobs@.len() == i,
            forall|j: int|
                0 <= j < i ==> (#[trigger] jobs@[j])@ == job_of(names[j], requests@[names[j]], mode),
        decreases n - i,
    {
        let name = requests.name_at(i);
        let request = requests.item_at(i);
        jobs.push(
            CompileJob {
                name: name.clone(),
                source: copy_bytes(&request.source),
                optimize_level: request.optimize_level,
                mode,
            },
        );
        i += 1;
    }
    proof {
        assert(job_views(jobs@) =~= jobs_for(requests@, mode));
    }
    jobs
}

/// The jobs for the directories beside the binary.
pub fn plan_directory_jobs(requests: &NameMap<NameMap<BytecodeRequest>>) -> (jobs: Vec<
    DirectoryJobs,
>)
    ensures
        directory_job_views(jobs@) == directory_jobs_for(requests@),
{
    let n = requests.len();
    let ghost paths = requests.names();
    proof {
        requests.lemma_names();
    }
    let mut jobs: Vec<DirectoryJobs> = Vec::new();
    let mut i: usize = 0;
    while i < n
        invariant
            i <= n,
            n == paths.len(),
            paths == requests.names(),
            requests.items().len() == n,
            requests.well_formed(),
            jobs@.len() == i,
            forall|j: int|
                0 <= j < i ==> (#[trigger] jobs@[j])@ == (DirectoryJobsView {
                    path: paths[j],
                    jobs: jobs_for(requests@[paths[j]], CompileMode::PycUncheckedHash),
                }),
        decreases n - i,
    {
        let path = requests.name_at(i);
        let under = requests.item_at(i);
        jobs.push(
            DirectoryJobs {
                path: path.clone(),
                jobs: plan_jobs(under, CompileMode::PycUncheckedHash),
            },
        );
        i += 1;
    }
    proof {
        assert(directory_job_views(jobs@) =~= directory_jobs_for(requests@));
    }
    jobs
}

/// The compiled modules: under the name of each request the bytecode that
/// the compiler gave for it, with the package flag of the request.
pub open spec fn packaged(
    requests: Map<Seq<char>, BytecodeRequestView>,
    compiled: Map<Seq<char>, Seq<u8>>,
) -> Map<Seq<char>, PackagedModuleBytecodeView> {
    Map::new(
        |k: Seq<char>| requests.contains_key(k),
        |k: Seq<char>|
            PackagedModuleBytecodeView {
                bytecode: compiled[k],
                is_package: requests[k].is_package,
            },
    )
}

/// Whether two maps bind the same names.
pub fn same_names<A: View, B: View>(a: &NameMap<A>, b: &NameMap<B>) -> (same: bool)
    ensures
        same == (a@.dom() == b@.dom()),
{
    let n = a.len();
    let m = b.len();
    proof {
        a.lemma_names();
        b.lemma_names();
    }
    if n != m {
        return false;
    }
    let mut i: usize = 0;
    while i < n
        invariant
            i <= n,
            n == a.names().len(),
            n == b.names().len(),
            a.names() == sorted_names(a@.dom()),
            b.names() == sorted_names(b@.dom()),
            forall|j: int| 0 <= j < i ==> a.names()[j] == b.names()[j],
        decreases n - i,
    {
        let equal = *a.name_at(i) == *b.name_at(i);
        if !equal {
            return false;
        }
        i += 1;
    }
    proof {
        assert(a.names() =~= b.names());
    }
    true
}

/// Whether two maps of two levels bind the same names under the same
/// names.
pub fn same_nested_names<A: View, B: View>(
    a: &NameMap<NameMap<A>>,
    b: &NameMap<NameMap<B>>,
) -> (same: bool)
    ensures
        same == (a@.dom() == b@.dom() && forall|k: Seq<char>| #[trigger]
            a@.contains_key(k) ==> a@[k].dom() == b@[k].dom()),
{
    if !same_names(a, b) {
        return false;
    }
    let n = a.len();
    proof {
        use_type_invariant(b);
    }
    proof {
        a.lemma_names();
        b.lemma_names();
    }
    let mut i: usize = 0;
    while i < n
        invariant
            i <= n,
            n == a.names().len(),
            a.names() == b.names(),
            a.items().len() == n,
            b.items().len() == n,
            a.well_formed(),
            b.well_formed(),
            a@.dom() == b@.dom(),
            forall|j: int|
                0 <= j < i ==> a@[#[trigger] a.names()[j]].dom() == b@[a.names()[j]].dom(),
        decreases n - i,
    {
        proof {
            a.lemma_names();
            b.lemma_names();
        }
        if !same_names(a.item_at(i), b.item_at(i)) {
            proof {
                assert(a@.contains_key(a.names()[i as int]));
            }
            return false;
        }
        i += 1;
    }
    proof {
        a.lemma_names();
        assert forall|k: Seq<char>| #[trigger] a@.contains_key(k) implies a@[k].dom() == b@[
            k
        ].dom() by {
            assert(a.names().to_set().contains(k));
            let j = a.names().index_of(k);
            assert(0 <= j < a.names().len() && a.names()[j] == k);
        }
    }
    true
}

/// Adds the compiled modules to `bytecodes`.
pub fn add_packaged(
    bytecodes: &mut NameMap<PackagedModuleBytecode>,
    requests: &NameMap<BytecodeRequest>,
    compiled: NameMap<Vec<u8>>,
)
    requires
        compiled@.dom() == requests@.dom(),
    ensures
        final(bytecodes)@ == old(bytecodes)@.union_prefer_right(packaged(requests@, compiled@)),
{
    let mut compiled = compiled;
    let n = requests.len();
    proof {
        use_type_invariant(&compiled);
    }
    let ghost names = requests.names();
    let ghost given = compiled@;
    let ghost before = bytecodes@;
    let ghost all = packaged(requests@, given);
    proof {
        requests.lemma_names();
        compiled.lemma_names();
        lemma_prefix_set_start(names);
        assert(bytecodes@ =~= before.union_prefer_right(all.restrict(prefix_set(names, 0))));
    }
    let mut i: usize = 0;
    while i < n
        invariant
            i <= n,
            n == names.len(),
            names == requests.names(),
            names == compiled.names(),
            requests.items().len() == n,
            compiled.items().len() == n,
            requests.well_formed(),
            compiled.well_formed(),
            all == packaged(requests@, given),
            forall|j: int| i <= j < n ==> (#[trigger] compiled.items()[j])@ == given[names[j]],
            bytecodes@ == before.union_prefer_right(all.restrict(prefix_set(names, i as int))),
        decreases n - i,
    {
        proof {
            requests.lemma_names();
        }
        let name = requests.name_at(i).clone();
        let is_package = requests.item_at(i).is_package;
        let bytecode = compiled.replace_at(i, Vec::new());
        bytecodes.insert(name, PackagedModuleBytecode { bytecode, is_package });
        proof {
            lemma_prefix_set_step(names, i as int);
            assert(all.contains_key(names[i as int]));
            assert(bytecodes@ =~= before.union_prefer_right(
                all.restrict(prefix_set(names, i as int + 1)),
            ));
        }
        i += 1;
    }
    proof {
        lemma_prefix_set_whole(names);
        requests.lemma_names();
        assert(all.restrict(names.to_set()) =~= all);
    }
}

} // verus!
