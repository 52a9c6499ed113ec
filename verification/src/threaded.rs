//! The plan and the collector of a multi-threaded session. The paths are
//! dealt out to the workers in turn, each unit of work carrying its index in
//! the input; the completions come back in any order and are put in place by
//! that index. Spawning the workers is left to the caller.

use vstd::prelude::*;
use crate::hasher::{hash_len, refusal_reason};
use crate::img::{
    hashed_by,
    refused_contents,
    status_views,
    HashSettings,
    ImgResults,
    ImgStatus,
    StatusView,
};

verus! {

/// Why a session cannot start.
#[derive(Clone, Copy, Debug, PartialEq, Eq, Structural)]
pub enum ConfigurationError {
    /// A thread count of zero was asked for.
    ZeroThreads,
    /// No thread count was asked for, and the host reports no parallelism.
    NoParallelism,
}

impl ConfigurationError {
    /// The error in words.
    pub fn message(&self) -> (text: String)
        ensures
            text@ == match *self {
                ConfigurationError::ZeroThreads => "the thread count must be greater than zero"@,
                ConfigurationError::NoParallelism => "the host reports no available parallelism"@,
            },
    {
        match self {
            ConfigurationError::ZeroThreads => "the thread count must be greater than zero".to_owned(),
            ConfigurationError::NoParallelism => "the host reports no available parallelism".to_owned(),
        }
    }
}

/// The number of workers for a requested thread count, where `detected` is
/// the parallelism of the host.
pub open spec fn resolved_threads(requested: Option<usize>, detected: usize) -> Result<
    usize,
    ConfigurationError,
> {
    match requested {
        Some(count) => if count == 0 {
            Err(ConfigurationError::ZeroThreads)
        } else {
            Ok(count)
        },
        None => if detected == 0 {
            Err(ConfigurationError::NoParallelism)
        } else {
            Ok(detected)
        },
    }
}

/// Resolves the number of workers: the count asked for, which must not be
/// zero, or else the parallelism of the host, which must not be zero either.
pub fn resolve_threads(requested: Option<usize>, detected: usize) -> (workers: Result<
    usize,
    ConfigurationError,
>)
    ensures
        workers == resolved_threads(requested, detected),
{
    match requested {
        Some(count) => if count == 0 {
            Err(ConfigurationError::ZeroThreads)
        } else {
            Ok(count)
        },
        None => if detected == 0 {
            Err(ConfigurationError::NoParallelism)
        } else {
            Ok(detected)
        },
    }
}

/// Trusted: `num_cpus::get` reports the number of logical CPUs available to
/// the process. It depends on the host, and nothing is claimed of it.
pub assume_specification[ num_cpus::get ]() -> (count: usize)
;

/// What a unit of work is to the proofs.
pub struct UnitView {
    pub index: int,
    pub path: Seq<char>,
}

/// One path to hash, with its index in the input.
#[derive(Debug, Clone)]
pub struct WorkUnit {
    pub index: usize,
    pub path: String,
}

impl View for WorkUnit {
    type V = UnitView;

    open spec fn view(&self) -> UnitView {
        UnitView { index: self.index as int, path: self.path@ }
    }
}

/// What a completion is to the proofs.
pub struct CompletionView {
    pub index: int,
    pub status: StatusView,
}

/// A finished unit of work: the status that its path reached, with the index
/// of the path in the input.
#[derive(Debug, Clone)]
pub struct Completion {
    pub index: usize,
    pub status: ImgStatus,
}

impl View for Completion {
    type V = CompletionView;

    open spec fn view(&self) -> CompletionView {
        CompletionView { index: self.index as int, status: self.status@ }
    }
}

impl WorkUnit {
    /// Does the work of the unit: hashes the path from the contents of its
    /// file, or fails it with the reason the file could not be read. The
    /// path is hashed only when the file was read and its contents decode to
    /// a picture that can be hashed; contents that the decoder cannot take
    /// fail it with the reason why. The completion keeps the index of the
    /// unit.
    pub fn process(self, settings: &HashSettings, contents: Result<Vec<u8>, String>) -> (done:
        Completion)
        requires
            settings.valid(),
        ensures
            done@.index == self@.index,
            done@.status.path() == self@.path,
            done@.status.settled(),
            contents matches Err(reason) ==> done@.status == StatusView::Failed(
                self@.path,
                reason@,
            ),
            refused_contents(contents) ==> done@.status == StatusView::Failed(
                self@.path,
                refusal_reason(),
            ),
            done@.status is Hashed ==> hashed_by(contents, *settings),
            done@.status matches StatusView::Hashed(image) ==> image.hash.len() == hash_len(
                settings.hash_size,
                settings.hash_type,
            ),
    {
        let mut status = ImgStatus::Unhashed(self.path);
        status.hash(settings, contents);
        Completion { index: self.index, status }
    }
}

/// The units among the first `upto` paths that fall to worker `w` of
/// `workers`, in input order: those whose index leaves the remainder `w`.
pub open spec fn batch(paths: Seq<Seq<char>>, workers: int, w: int, upto: nat) -> Seq<UnitView>
    decreases upto,
{
    if upto == 0 {
        Seq::empty()
    } else {
        let before = batch(paths, workers, w, (upto - 1) as nat);
        if (upto - 1) % workers == w {
            before.push(UnitView { index: upto - 1, path: paths[upto - 1] })
        } else {
            before
        }
    }
}

/// The batches of the workers: the paths dealt out in turn.
pub open spec fn partitioned(paths: Seq<Seq<char>>, workers: int) -> Seq<Seq<UnitView>> {
    Seq::new(workers as nat, |w: int| batch(paths, workers, w, paths.len()))
}

/// The views of a batch.
pub open spec fn unit_views(units: Seq<WorkUnit>) -> Seq<UnitView> {
    units.map_values(|u: WorkUnit| u@)
}

/// The views of the batches.
pub open spec fn batch_views(batches: Seq<Vec<WorkUnit>>) -> Seq<Seq<UnitView>> {
    batches.map_values(|b: Vec<WorkUnit>| unit_views(b@))
}

/// The views of the paths.
pub open spec fn path_views(paths: Seq<String>) -> Seq<Seq<char>> {
    paths.map_values(|p: String| p@)
}

/// Deals the paths out to the workers in turn: the path at index `i` goes to
/// worker `i % workers`, and keeps `i` with it.
pub fn partition(paths: Vec<String>, workers: usize) -> (batches: Vec<Vec<WorkUnit>>)
    requires
        workers >= 1,
    ensures
        batch_views(batches@) == partitioned(path_views(paths@), workers as int),
{
    let ghost all = path_views(paths@);
    let mut batches: Vec<Vec<WorkUnit>> = Vec::new();
    let mut w: usize = 0;
    while w < workers
        invariant
            w <= workers,
            batches@.len() == w,
            forall|v: int| 0 <= v < w ==> (#[trigger] batches@[v])@.len() == 0,
        decreases workers - w,
    {
        batches.push(Vec::new());
        w += 1;
    }
    let count = paths.len();
    let mut index: usize = 0;
    for path in it: paths
        invariant
            workers >= 1,
            path_views(it.seq()) == all,
            all.len() == count,
            index == it.index(),
            batches@.len() == workers,
            forall|v: int|
                0 <= v < workers ==> unit_views((#[trigger] batches@[v])@) == batch(
                    all,
                    workers as int,
                    v,
                    index as nat,
                ),
    {
        let ghost before = batches@;
        let turn = index % workers;
        batches[turn].push(WorkUnit { index, path });
        proof {
            assert(all[index as int] == path@);
            assert forall|v: int| 0 <= v < workers implies unit_views((#[trigger] batches@[v])@)
                == batch(all, workers as int, v, (index + 1) as nat) by {
                assert(unit_views(before[v]@) == batch(all, workers as int, v, index as nat));
                if v == turn {
                    assert(unit_views(batches@[v]@) =~= unit_views(before[v]@).push(
                        UnitView { index: index as int, path: path@ },
                    ));
                } else {
                    assert(batches@[v] == before[v]);
                }
            }
        }
        index += 1;
    }
    proof {
        assert(batch_views(batches@) =~= partitioned(all, workers as int));
    }
    batches
}

/// The paths that the statuses are about, in their order.
pub open spec fn paths_of(slots: Seq<StatusView>) -> Seq<Seq<char>> {
    slots.map_values(|s: StatusView| s.path())
}

/// The statuses before any work is done: every path unhashed.
pub open spec fn unhashed(paths: Seq<Seq<char>>) -> Seq<StatusView> {
    paths.map_values(|p: Seq<char>| StatusView::Unhashed(p))
}

/// The number of statuses that are still unhashed.
pub open spec fn unsettled(slots: Seq<StatusView>) -> nat
    decreases slots.len(),
{
    if slots.len() == 0 {
        0
    } else {
        unsettled(slots.drop_last()) + if slots.last().settled() {
            0nat
        } else {
            1nat
        }
    }
}

/// The collector takes the completion: its index is that of a path that is
/// still unhashed, and its status is a settled status of that path.
pub open spec fn acceptable(slots: Seq<StatusView>, completion: CompletionView) -> bool {
    &&& 0 <= completion.index < slots.len()
    &&& !slots[completion.index].settled()
    &&& completion.status.settled()
    &&& completion.status.path() == slots[completion.index].path()
}

/// The statuses after a completion was delivered: put in its place where
/// the collector takes it, and left aside where not.
pub open spec fn delivered(slots: Seq<StatusView>, completion: CompletionView) -> Seq<StatusView> {
    if acceptable(slots, completion) {
        slots.update(completion.index, completion.status)
    } else {
        slots
    }
}

/// The statuses after the completions were delivered in the given order.
pub open spec fn delivered_all(slots: Seq<StatusView>, completions: Seq<CompletionView>) -> Seq<
    StatusView,
>
    decreases completions.len(),
{
    if completions.len() == 0 {
        slots
    } else {
        delivered(delivered_all(slots, completions.drop_last()), completions.last())
    }
}

/// Settling one unhashed status leaves one fewer unhashed.
pub proof fn lemma_unsettled_update(slots: Seq<StatusView>, index: int, status: StatusView)
    requires
        0 <= index < slots.len(),
        !slots[index].settled(),
        status.settled(),
    ensures
        unsettled(slots.update(index, status)) + 1 == unsettled(slots),
    decreases slots.len(),
{
    let after = slots.update(index, status);
    if index == slots.len() - 1 {
        assert(after.drop_last() == slots.drop_last());
    } else {
        assert(after.drop_last() == slots.drop_last().update(index, status));
        lemma_unsettled_update(slots.drop_last(), index, status);
    }
}

/// None is unhashed exactly when every status is settled.
pub proof fn lemma_unsettled_zero(slots: Seq<StatusView>)
    ensures
        unsettled(slots) == 0 <==> (forall|i: int| 0 <= i < slots.len() ==> (#[trigger] slots[i]).settled()),
        unsettled(slots) <= slots.len(),
    decreases slots.len(),
{
    if slots.len() > 0 {
        lemma_unsettled_zero(slots.drop_last());
        if unsettled(slots) == 0 {
            assert forall|i: int| 0 <= i < slots.len() implies (#[trigger] slots[i]).settled() by {
                if i < slots.len() - 1 {
                    assert(slots.drop_last()[i] == slots[i]);
                }
            }
        } else if unsettled(slots.drop_last()) == 0 {
            assert(!slots[slots.len() - 1].settled());
        } else {
            let i = choose|i: int|
                0 <= i < slots.drop_last().len() && !(#[trigger] slots.drop_last()[i]).settled();
            assert(slots[i] == slots.drop_last()[i]);
        }
    }
}

/// All of the paths are unhashed before any work is done.
pub proof fn lemma_unsettled_unhashed(paths: Seq<Seq<char>>)
    ensures
        unsettled(unhashed(paths)) == paths.len(),
    decreases paths.len(),
{
    if paths.len() > 0 {
        assert(unhashed(paths).drop_last() == unhashed(paths.drop_last()));
        lemma_unsettled_unhashed(paths.drop_last());
    }
}

/// A multi-threaded session: the batches that wait for their workers, and the
/// collector that puts the completions in input order.
#[derive(Debug)]
pub struct ThreadedSession {
    settings: HashSettings,
    workers: usize,
    batches: Vec<Vec<WorkUnit>>,
    statuses: Vec<ImgStatus>,
    pending: usize,
}

impl ThreadedSession {
    /// The status of each input path, in input order.
    pub closed spec fn slots(&self) -> Seq<StatusView> {
        status_views(self.statuses@)
    }

    /// The batches that have not been handed out.
    pub closed spec fn batches(&self) -> Seq<Seq<UnitView>> {
        batch_views(self.batches@)
    }

    /// The number of workers that the session was planned for.
    pub closed spec fn worker_count(&self) -> usize {
        self.workers
    }

    /// The settings that the workers hash with.
    pub closed spec fn hash_settings(&self) -> HashSettings {
        self.settings
    }

    /// The collector's count of the paths that are still unhashed is right,
    /// and the settings are within what the hasher can take.
    pub closed spec fn wf(&self) -> bool {
        &&& self.pending == unsettled(self.slots())
        &&& self.settings.valid()
        &&& self.workers >= 1
    }

    /// The session as it starts: nothing hashed, the paths dealt out to
    /// `workers` workers.
    pub open spec fn starts(
        &self,
        settings: HashSettings,
        paths: Seq<Seq<char>>,
        workers: usize,
    ) -> bool {
        &&& self.wf()
        &&& self.hash_settings() == settings
        &&& self.worker_count() == workers
        &&& self.slots() == unhashed(paths)
        &&& self.batches() == partitioned(paths, workers as int)
    }

    /// Plans a session for the thread count asked for, given the parallelism
    /// that was detected on the host. Fails, before anything else is done,
    /// where the count asked for is zero, or none is asked for and none was
    /// detected.
    pub fn plan(
        threads: Option<usize>,
        detected: usize,
        settings: HashSettings,
        images: Vec<String>,
    ) -> (session: Result<ThreadedSession, ConfigurationError>)
        requires
            settings.valid(),
        ensures
            match resolved_threads(threads, detected) {
                Ok(workers) => session matches Ok(s) && s.starts(
                    settings,
                    path_views(images@),
                    workers,
                ),
                Err(e) => session matches Err(f) && f == e,
            },
    {
        let workers = match resolve_threads(threads, detected) {
            Ok(workers) => workers,
            Err(e) => {
                return Err(e);
            },
        };
        let ghost paths = path_views(images@);
        let mut statuses: Vec<ImgStatus> = Vec::new();
        let mut i: usize = 0;
        while i < images.len()
            invariant
                i <= images@.len(),
                paths == path_views(images@),
                status_views(statuses@) == unhashed(paths.take(i as int)),
            decreases images@.len() - i,
        {
            let ghost before = statuses@;
            statuses.push(ImgStatus::Unhashed(images[i].clone()));
            proof {
                assert(status_views(statuses@) =~= status_views(before).push(
                    StatusView::Unhashed(paths[i as int]),
                ));
                assert(unhashed(paths.take(i + 1)) =~= unhashed(paths.take(i as int)).push(
                    StatusView::Unhashed(paths[i as int]),
                ));
            }
            i += 1;
        }
        proof {
            assert(paths.take(images@.len() as int) == paths);
            lemma_unsettled_unhashed(paths);
        }
        let pending = images.len();
        let batches = partition(images, workers);
        Ok(ThreadedSession { settings, workers, batches, statuses, pending })
    }

    /// Plans a session for the thread count asked for, or, where none is
    /// asked for, for the number of CPUs that the host reports. A count of
    /// zero fails before the host is asked.
    pub fn process_multithread(
        threads: Option<usize>,
        settings: HashSettings,
        images: Vec<String>,
    ) -> (session: Result<ThreadedSession, ConfigurationError>)
        requires
            settings.valid(),
        ensures
            threads is Some ==> match resolved_threads(threads, 0) {
                Ok(workers) => session matches Ok(s) && s.starts(
                    settings,
                    path_views(images@),
                    workers,
                ),
                Err(e) => session matches Err(f) && f == e,
            },
            threads is None ==> match session {
                Ok(s) => s.starts(settings, path_views(images@), s.worker_count()),
                Err(e) => e == ConfigurationError::NoParallelism,
            },
    {
        let detected = match threads {
            Some(_) => 0,
            None => num_cpus::get(),
        };
        ThreadedSession::plan(threads, detected, settings, images)
    }

    /// The settings that the workers hash with.
    pub fn settings(&self) -> (settings: HashSettings)
        requires
            self.wf(),
        ensures
            settings == self.hash_settings(),
            settings.valid(),
    {
        self.settings
    }

    /// The number of workers that the session was planned for.
    pub fn workers(&self) -> (workers: usize)
        requires
            self.wf(),
        ensures
            workers == self.worker_count(),
            workers >= 1,
    {
        self.workers
    }

    /// Hands out the batches, one for each worker, and keeps none.
    pub fn take_batches(&mut self) -> (batches: Vec<Vec<WorkUnit>>)
        requires
            old(self).wf(),
        ensures
            batch_views(batches@) == old(self).batches(),
            final(self).batches() == Seq::<Seq<UnitView>>::empty(),
            final(self).slots() == old(self).slots(),
            final(self).worker_count() == old(self).worker_count(),
            final(self).hash_settings() == old(self).hash_settings(),
            final(self).wf(),
    {
        let mut batches: Vec<Vec<WorkUnit>> = Vec::new();
        std::mem::swap(&mut self.batches, &mut batches);
        proof {
            assert(self.batches() =~= Seq::<Seq<UnitView>>::empty());
        }
        batches
    }

    /// Delivers a completion to the collector, which puts the status in the
    /// place of its index. The collector takes it only where that path is
    /// still unhashed and the status is a settled status of that very path;
    /// it says whether it did.
    pub fn deliver(&mut self, completion: Completion) -> (taken: bool)
        requires
            old(self).wf(),
        ensures
            taken == acceptable(old(self).slots(), completion@),
            final(self).slots() == delivered(old(self).slots(), completion@),
            paths_of(final(self).slots()) == paths_of(old(self).slots()),
            final(self).batches() == old(self).batches(),
            final(self).worker_count() == old(self).worker_count(),
            final(self).hash_settings() == old(self).hash_settings(),
            final(self).wf(),
    {
        let ghost before = self.slots();
        let Completion { index, status } = completion;
        if index >= self.statuses.len() {
            return false;
        }
        proof {
            assert(before[index as int] == self.statuses@[index as int]@);
        }
        if self.statuses[index].is_settled() || !status.is_settled() {
            return false;
        }
        if !(*status.path() == *self.statuses[index].path()) {
            return false;
        }
        proof {
            lemma_unsettled_update(before, index as int, status@);
        }
        self.statuses[index] = status;
        self.pending = self.pending - 1;
        proof {
            assert(self.slots() =~= before.update(index as int, status@));
            assert(paths_of(self.slots()) =~= paths_of(before));
        }
        true
    }

    /// The number of paths whose completion has not been delivered.
    pub fn pending(&self) -> (pending: usize)
        requires
            self.wf(),
        ensures
            pending == unsettled(self.slots()),
    {
        self.pending
    }

    /// Whether a completion has been delivered for every path.
    pub fn is_complete(&self) -> (complete: bool)
        requires
            self.wf(),
        ensures
            complete <==> forall|i: int|
                0 <= i < self.slots().len() ==> (#[trigger] self.slots()[i]).settled(),
    {
        proof {
            lemma_unsettled_zero(self.slots());
        }
        self.pending == 0
    }

    /// Ends the session: the results in input order, once a completion has
    /// been delivered for every path, and nothing before that.
    pub fn into_results(self) -> (results: Option<ImgResults>)
        requires
            self.wf(),
        ensures
            results is Some <==> forall|i: int|
                0 <= i < self.slots().len() ==> (#[trigger] self.slots()[i]).settled(),
            results matches Some(r) ==> r@ == self.slots(),
            results matches Some(r) ==> forall|i: int|
                0 <= i < r@.len() ==> (#[trigger] r@[i]).settled(),
    {
        if self.is_complete() {
            Some(ImgResults::from_statuses(self.statuses))
        } else {
            None
        }
    }
}

} // verus!
