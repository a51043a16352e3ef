//! Download plans and the completion accounting of a batch of downloads.

use vstd::prelude::*;

verus! {

/// A fetch target: the file at `url` is to be written to `path`.
pub struct Library {
    pub path: String,
    pub url: String,
}

/// A target as a pair of destination path and source URL.
pub open spec fn target_view(t: Library) -> (Seq<char>, Seq<char>) {
    (t.path@, t.url@)
}

/// The libraries of a download plan.
pub struct Libraries {
    pub libraries: Vec<Library>,
}

impl Libraries {
    pub open spec fn view(&self) -> Seq<(Seq<char>, Seq<char>)> {
        self.libraries@.map_values(|t: Library| target_view(t))
    }
}

/// The download plan of one version: the server jar goes to
/// `<path>/server.jar`, each library to its own path.
pub struct Server {
    pub path: String,
    pub url: String,
    pub libraries: Libraries,
}

impl Server {
    /// Every target of the plan, the server jar first.
    pub open spec fn target_views(&self) -> Seq<(Seq<char>, Seq<char>)> {
        seq![(self.path@ + "/server.jar"@, self.url@)] + self.libraries.view()
    }

    /// The targets to fetch, the server jar first, then the libraries in
    /// their order.
    pub fn targets(&self) -> (r: Vec<Library>)
        ensures
            r@.map_values(|t: Library| target_view(t)) == self.target_views(),
    {
        let mut r: Vec<Library> = Vec::new();
        let jar = self.path.clone().concat("/server.jar");
        r.push(Library { path: jar, url: self.url.clone() });
        let libs = &self.libraries.libraries;
        let mut i: usize = 0;
        while i < libs.len()
            invariant
                i <= libs@.len(),
                libs == &self.libraries.libraries,
                r@.map_values(|t: Library| target_view(t)) =~= seq![(self.path@ + "/server.jar"@, self.url@)]
                    + libs@.subrange(0, i as int).map_values(|t: Library| target_view(t)),
            decreases libs@.len() - i,
        {
            let t = Library { path: libs[i].path.clone(), url: libs[i].url.clone() };
            assert(target_view(t) == target_view(libs@[i as int]));
            let ghost before = r@;
            r.push(t);
            assert(r@.map_values(|t: Library| target_view(t)) =~= before.map_values(
                |t: Library| target_view(t),
            ).push(target_view(t)));
            assert(libs@.subrange(0, i + 1).map_values(|t: Library| target_view(t))
                =~= libs@.subrange(0, i as int).map_values(|t: Library| target_view(t)).push(
                target_view(libs@[i as int]),
            ));
            i = i + 1;
        }
        assert(libs@.subrange(0, libs@.len() as int) =~= libs@);
        r
    }
}

/// Why one target could not be fetched.
pub enum FetchError {
    /// The GET of the source URL failed.
    Network(String),
    /// The destination could not be created or written.
    Filesystem(String),
}

/// A target that failed, by its index in the batch, with its error.
pub struct Failure {
    pub target: usize,
    pub error: FetchError,
}

/// What one finished download reported: the target's index and its result.
pub type Completion = (usize, Result<(), FetchError>);

/// How many of the completions succeeded.
pub open spec fn count_succeeded(h: Seq<Completion>) -> nat
    decreases h.len(),
{
    if h.len() == 0 {
        0
    } else {
        count_succeeded(h.drop_last()) + if h.last().1 is Ok {
            1nat
        } else {
            0nat
        }
    }
}

/// The failures among the completions, in the order they were reported.
pub open spec fn failures(h: Seq<Completion>) -> Seq<Failure>
    decreases h.len(),
{
    if h.len() == 0 {
        seq![]
    } else {
        let rest = failures(h.drop_last());
        match h.last().1 {
            Ok(_) => rest,
            Err(e) => rest.push(Failure { target: h.last().0, error: e }),
        }
    }
}

/// The running account of a batch of `total` downloads, filled in as they
/// finish, in whatever order that is.
pub struct BatchReport {
    pub total: usize,
    pub completed: usize,
    pub succeeded: usize,
    pub failed: Vec<Failure>,
    /// Every completion reported so far, in order.
    pub history: Ghost<Seq<Completion>>,
}

impl BatchReport {
    /// The counters agree with the completions reported so far.
    pub open spec fn wf(&self) -> bool {
        &&& self.completed == self.history@.len()
        &&& self.completed <= self.total
        &&& self.succeeded == count_succeeded(self.history@)
        &&& self.failed@ == failures(self.history@)
    }

    /// The account of a batch of `total` downloads, none finished yet.
    pub fn new(total: usize) -> (r: BatchReport)
        ensures
            r.wf(),
            r.total == total,
            r.history@ == Seq::<Completion>::empty(),
    {
        BatchReport { total, completed: 0, succeeded: 0, failed: Vec::new(), history: Ghost(Seq::empty()) }
    }

    /// Records that target `target` finished with `result`.
    pub fn record(&mut self, target: usize, result: Result<(), FetchError>)
        requires
            old(self).wf(),
            old(self).completed < old(self).total,
        ensures
            final(self).wf(),
            final(self).total == old(self).total,
            final(self).history@ == old(self).history@.push((target, result)),
            final(self).completed == old(self).completed + 1,
            final(self).succeeded == old(self).succeeded + if result is Ok {
                1int
            } else {
                0int
            },
            result is Ok ==> final(self).failed@ == old(self).failed@,
            result matches Err(e) ==> final(self).failed@ == old(self).failed@.push(
                Failure { target, error: e },
            ),
    {
        let ghost h: Seq<Completion> = self.history@.push((target, result));
        assert(h.drop_last() =~= self.history@);
        match result {
            Ok(()) => {
                proof {
                    lemma_succeeded_bounded(self.history@);
                }
                self.succeeded = self.succeeded + 1;
            },
            Err(error) => {
                self.failed.push(Failure { target, error });
            },
        }
        self.completed = self.completed + 1;
        self.history = Ghost(h);
    }

    /// Whether every download of the batch has finished.
    pub fn is_finished(&self) -> (r: bool)
        ensures
            r == (self.completed == self.total),
    {
        self.completed == self.total
    }

    /// Whether every finished download succeeded.
    pub fn all_succeeded(&self) -> (r: bool)
        requires
            self.wf(),
        ensures
            r == (failures(self.history@).len() == 0),
    {
        self.failed.len() == 0
    }
}

proof fn lemma_succeeded_bounded(h: Seq<Completion>)
    ensures
        count_succeeded(h) <= h.len(),
    decreases h.len(),
{
    if h.len() > 0 {
        lemma_succeeded_bounded(h.drop_last());
    }
}

/// Every completion is counted once: as a success or as a failure.
pub proof fn lemma_completions_partition(h: Seq<Completion>)
    ensures
        count_succeeded(h) + failures(h).len() == h.len(),
    decreases h.len(),
{
    if h.len() > 0 {
        lemma_completions_partition(h.drop_last());
    }
}

/// A batch whose downloads all finished and of which exactly one failed
/// reports exactly that one failure and a success for every other target.
pub proof fn lemma_single_failure(report: BatchReport, k: int)
    requires
        report.wf(),
        report.completed == report.total,
        0 <= k < report.history@.len(),
        report.history@[k].1 is Err,
        forall|j: int| 0 <= j < report.history@.len() && j != k ==> (#[trigger] report.history@[j]).1 is Ok,
    ensures
        report.failed@.len() == 1,
        report.failed@[0].target == report.history@[k].0,
        report.succeeded == report.total - 1,
{
    let h = report.history@;
    lemma_failures_one(h, k);
    lemma_completions_partition(h);
}

proof fn lemma_failures_one(h: Seq<Completion>, k: int)
    requires
        0 <= k < h.len(),
        h[k].1 is Err,
        forall|j: int| 0 <= j < h.len() && j != k ==> (#[trigger] h[j]).1 is Ok,
    ensures
        failures(h).len() == 1,
        failures(h)[0].target == h[k].0,
    decreases h.len(),
{
    let t = h.drop_last();
    if k == h.len() - 1 {
        lemma_no_failures(t);
    } else {
        assert forall|j: int| 0 <= j < t.len() && j != k implies (#[trigger] t[j]).1 is Ok by {
            assert(t[j] == h[j]);
        }
        lemma_failures_one(t, k);
    }
}

proof fn lemma_no_failures(h: Seq<Completion>)
    requires
        forall|j: int| 0 <= j < h.len() ==> (#[trigger] h[j]).1 is Ok,
    ensures
        failures(h).len() == 0,
    decreases h.len(),
{
    if h.len() > 0 {
        let t = h.drop_last();
        assert forall|j: int| 0 <= j < t.len() implies (#[trigger] t[j]).1 is Ok by {
            assert(t[j] == h[j]);
        }
        lemma_no_failures(t);
    }
}

} // verus!
