//! Depending on the files of a directory.
//!
//! Whoever depends on a directory has to run again when any file below it
//! changes. To that end everything that a listing of the directory holds is
//! looked at once, in the way that fits its kind.
//!
//! There are two kinds of tasks. The shallow one looks at the entries of a
//! listing, one after the other. The whole one begins the shallow one and a whole
//! one for each listing below, all at once, and then waits for all of them.

use std::collections::VecDeque;

use crate::path::{FileSystemPath, PathView};
use vstd::prelude::*;

verus! {

/// A request to list what lies below a directory and matches a glob.
#[derive(Debug, PartialEq, Eq)]
pub struct GlobRequest {
    pub path: FileSystemPath,
    pub glob: String,
    /// Whether names that start with a dot can match.
    pub dot_files: bool,
}

#[verifier::ext_equal]
pub struct GlobRequestView {
    pub path: PathView,
    pub glob: Seq<char>,
    pub dot_files: bool,
}

impl View for GlobRequest {
    type V = GlobRequestView;

    open spec fn view(&self) -> GlobRequestView {
        GlobRequestView { path: self.path@, glob: self.glob@, dot_files: self.dot_files }
    }
}

impl Clone for GlobRequest {
    fn clone(&self) -> (copy: GlobRequest)
        ensures
            copy@ == self@,
    {
        GlobRequest {
            path: self.path.clone(),
            glob: self.glob.clone(),
            dot_files: self.dot_files,
        }
    }
}

/// Something that a listing holds.
#[derive(Debug)]
pub enum DirectoryEntry {
    File(FileSystemPath),
    Directory(FileSystemPath),
    Symlink(FileSystemPath),
    Other(FileSystemPath),
    /// Something that could not be looked at.
    Error,
}

/// A listing: the entries that match, and the listings of the directories below
/// in which more entries can match, by their handles.
#[derive(Debug)]
pub struct ReadGlobResult {
    pub results: Vec<DirectoryEntry>,
    pub inner: Vec<u64>,
}

/// A task on a listing, which is known by its handle.
#[derive(Clone, Copy, Debug, PartialEq, Eq, Structural)]
pub enum DirTask {
    /// Look at the entries of the listing.
    Shallow(u64),
    /// Look at the entries of the listing and of all listings below.
    Whole(u64),
}

/// How an entry is looked at so that its changes are noticed.
#[derive(Debug, PartialEq, Eq)]
pub enum Tracking {
    /// Track the content of a file.
    Track(FileSystemPath),
    /// Read the target of a symbolic link.
    ReadLink(FileSystemPath),
    /// Read the type of what lies at a path.
    GetType(FileSystemPath),
    /// List a directory, and depend on all that is listed and below: a whole task
    /// on the listing.
    ReadGlob(GlobRequest),
}

#[verifier::ext_equal]
pub enum TrackingView {
    Track(PathView),
    ReadLink(PathView),
    GetType(PathView),
    ReadGlob(GlobRequestView),
}

impl View for Tracking {
    type V = TrackingView;

    open spec fn view(&self) -> TrackingView {
        match self {
            Tracking::Track(path) => TrackingView::Track(path@),
            Tracking::ReadLink(path) => TrackingView::ReadLink(path@),
            Tracking::GetType(path) => TrackingView::GetType(path@),
            Tracking::ReadGlob(request) => TrackingView::ReadGlob(request@),
        }
    }
}

/// How `entry` is looked at: in one way, or not at all if it is an error.
pub open spec fn tracking_of(entry: DirectoryEntry) -> Seq<TrackingView> {
    match entry {
        DirectoryEntry::File(path) => seq![TrackingView::Track(path@)],
        DirectoryEntry::Directory(path) => seq![
            TrackingView::ReadGlob(
                GlobRequestView { path: path@, glob: "**"@, dot_files: false },
            ),
        ],
        DirectoryEntry::Symlink(path) => seq![TrackingView::ReadLink(path@)],
        DirectoryEntry::Other(path) => seq![TrackingView::GetType(path@)],
        DirectoryEntry::Error => seq![],
    }
}

/// Whether `t` is a look that fits `entry`: a file is tracked, a symbolic link is
/// read, of anything else the type is read, and of a directory all is listed.
pub open spec fn fits(entry: DirectoryEntry, t: TrackingView) -> bool {
    match entry {
        DirectoryEntry::File(path) => t == TrackingView::Track(path@),
        DirectoryEntry::Directory(path) => t == TrackingView::ReadGlob(
            GlobRequestView { path: path@, glob: "**"@, dot_files: false },
        ),
        DirectoryEntry::Symlink(path) => t == TrackingView::ReadLink(path@),
        DirectoryEntry::Other(path) => t == TrackingView::GetType(path@),
        DirectoryEntry::Error => false,
    }
}

/// How the first `n` entries are looked at.
pub open spec fn tracking_of_entries(entries: Seq<DirectoryEntry>, n: nat) -> Seq<TrackingView>
    decreases n,
{
    if n == 0 {
        seq![]
    } else {
        tracking_of_entries(entries, (n - 1) as nat) + tracking_of(entries[n - 1])
    }
}

spec fn tracking_views(trackings: Seq<Tracking>) -> Seq<TrackingView> {
    trackings.map_values(|t: Tracking| t@)
}

/// How all entries of a listing are looked at, in order.
pub open spec fn tracking_of_listing(listing: ReadGlobResult) -> Seq<TrackingView> {
    tracking_of_entries(listing.results@, listing.results@.len())
}

/// The tasks on the listings below a listing.
pub open spec fn tasks_below(listing: ReadGlobResult) -> Seq<DirTask> {
    listing.inner@.map_values(|glob: u64| DirTask::Whole(glob))
}

/// All that is begun for the listing with the handle `glob`: a look at its own
/// entries, and a task for each listing below.
pub open spec fn begun_for(glob: u64, listing: ReadGlobResult) -> Seq<DirTask> {
    seq![DirTask::Shallow(glob)] + tasks_below(listing)
}

/// Waiting for a listing, as a whole task.
#[derive(Debug)]
pub struct DirListing {
    glob: u64,
}

impl View for DirListing {
    type V = u64;

    /// The handle of the listing.
    closed spec fn view(&self) -> u64 {
        self.glob
    }
}

/// Waiting for the tasks on the listings below, which have been begun, in
/// whatever order they finish.
#[derive(Debug)]
pub struct DirJoin {
    glob: u64,
    pending: Vec<u64>,
}

/// Waiting for the look at the own entries of a listing, which has been begun.
#[derive(Debug)]
pub struct DirShallow {
    glob: u64,
}

/// The handle of the listing, and those of the listings below whose tasks have
/// not finished.
#[verifier::ext_equal]
pub struct DirJoinView {
    pub glob: u64,
    pub pending: Seq<u64>,
}

impl View for DirJoin {
    type V = DirJoinView;

    closed spec fn view(&self) -> DirJoinView {
        DirJoinView { glob: self.glob, pending: self.pending@ }
    }
}

impl View for DirShallow {
    type V = u64;

    /// The handle of the listing.
    closed spec fn view(&self) -> u64 {
        self.glob
    }
}

/// What a whole task waits for once everything has been begun.
#[derive(Debug)]
pub enum DirStep {
    /// Wait for one of the tasks on the listings below.
    Join(DirJoin),
    /// Wait for the look at the own entries.
    Shallow(DirShallow),
}

#[verifier::ext_equal]
pub enum DirStepView {
    Join(DirJoinView),
    Shallow(u64),
}

impl View for DirStep {
    type V = DirStepView;

    open spec fn view(&self) -> DirStepView {
        match self {
            DirStep::Join(join) => DirStepView::Join(join@),
            DirStep::Shallow(shallow) => DirStepView::Shallow(shallow@),
        }
    }
}

/// What a whole task waits for when the tasks on `pending` have not finished.
pub open spec fn joining(glob: u64, pending: Seq<u64>) -> DirStepView {
    if pending.len() == 0 {
        DirStepView::Shallow(glob)
    } else {
        DirStepView::Join(DirJoinView { glob, pending })
    }
}

/// A whole task that has taken in its listing: what to begin at once, and what to
/// wait for then.
#[derive(Debug)]
pub struct DirListed {
    pub begin: Vec<DirTask>,
    pub next: DirStep,
}

/// Starts a whole task on a listing. The task that comes with it is begun at once,
/// before the listing is waited for.
pub fn dir_dependency(glob: u64) -> (started: (DirTask, DirListing))
    ensures
        started.0 == DirTask::Shallow(glob),
        started.1@ == glob,
{
    (DirTask::Shallow(glob), DirListing { glob })
}

/// The step that waits for the tasks on `pending`.
fn join_step(glob: u64, pending: Vec<u64>) -> (step: DirStep)
    ensures
        step@ == joining(glob, pending@),
        step is Shallow <==> pending@.len() == 0,
        step matches DirStep::Join(join) ==> join@.pending == pending@ && join@.glob == glob,
        step matches DirStep::Shallow(shallow) ==> shallow@ == glob,
{
    if pending.len() == 0 {
        DirStep::Shallow(DirShallow { glob })
    } else {
        DirStep::Join(DirJoin { glob, pending })
    }
}

impl DirListing {
    /// The listing that is waited for.
    pub fn awaited(&self) -> (glob: u64)
        ensures
            glob == self@,
    {
        self.glob
    }

    /// Takes the listing, or the failure to read it. A task for each listing below
    /// is begun before any of them is waited for.
    pub fn listed<F>(self, listing: Result<ReadGlobResult, F>) -> (listed: Result<DirListed, F>)
        ensures
            match listing {
                Ok(l) => {
                    &&& listed matches Ok(r)
                    &&& r.begin@ == tasks_below(l)
                    &&& r.begin@.len() == l.inner@.len()
                    &&& forall|i: int|
                        0 <= i < l.inner@.len() ==> r.begin@[i] == DirTask::Whole(
                            #[trigger] l.inner@[i],
                        )
                    &&& r.next@ == joining(self@, l.inner@)
                    &&& r.next is Shallow <==> l.inner@.len() == 0
                    &&& r.next matches DirStep::Join(join) ==> join@.pending == l.inner@
                        && join@.glob == self@
                    &&& r.next matches DirStep::Shallow(shallow) ==> shallow@ == self@
                },
                Err(failure) => listed == Err::<DirListed, F>(failure),
            },
    {
        let listing = match listing {
            Ok(listing) => listing,
            Err(failure) => return Err(failure),
        };
        let mut begin: Vec<DirTask> = Vec::new();
        let mut i: usize = 0;
        while i < listing.inner.len()
            invariant
                i <= listing.inner.len(),
                begin@ == tasks_below(listing).take(i as int),
            decreases listing.inner.len() - i,
        {
            begin.push(DirTask::Whole(listing.inner[i]));
            proof {
                assert(begin@ =~= tasks_below(listing).take(i + 1));
            }
            i += 1;
        }
        proof {
            assert(begin@ =~= tasks_below(listing));
        }
        Ok(DirListed { begin, next: join_step(self.glob, listing.inner) })
    }
}

impl DirJoin {
    /// The listings below whose tasks have not finished.
    pub fn pending(&self) -> (pending: &[u64])
        ensures
            pending@ == self@.pending,
    {
        self.pending.as_slice()
    }

    /// Goes on after the task at `index` among those that had not finished has
    /// finished, or fails with it.
    pub fn resolve<F>(self, index: usize, done: Result<(), F>) -> (step: Result<DirStep, F>)
        requires
            index < self@.pending.len(),
        ensures
            match done {
                Ok(()) => {
                    &&& step matches Ok(s)
                    &&& s@ == joining(self@.glob, self@.pending.remove(index as int))
                    &&& s is Shallow <==> self@.pending.len() == 1
                    &&& s matches DirStep::Join(join) ==> join@.pending == self@.pending.remove(
                        index as int,
                    ) && join@.glob == self@.glob
                    &&& s matches DirStep::Shallow(shallow) ==> shallow@ == self@.glob
                },
                Err(failure) => step == Err::<DirStep, F>(failure),
            },
    {
        match done {
            Ok(()) => {
                let mut pending = self.pending;
                pending.remove(index);
                Ok(join_step(self.glob, pending))
            },
            Err(failure) => Err(failure),
        }
    }
}

impl DirShallow {
    /// The listing whose own entries are looked at.
    pub fn awaited(&self) -> (glob: u64)
        ensures
            glob == self@,
    {
        self.glob
    }

    /// Finishes the whole task with the look at the own entries.
    pub fn resolve<F>(self, done: Result<(), F>) -> (finished: Result<(), F>)
        ensures
            finished == done,
    {
        done
    }
}

/// Waiting for a listing, as a shallow task.
#[derive(Debug)]
pub struct ShallowListing {
    glob: u64,
}

impl View for ShallowListing {
    type V = u64;

    /// The handle of the listing.
    closed spec fn view(&self) -> u64 {
        self.glob
    }
}

/// Waiting for an entry to be looked at.
#[derive(Debug)]
pub struct ShallowAwait {
    current: Tracking,
    pending: VecDeque<Tracking>,
}

impl View for ShallowAwait {
    type V = Seq<TrackingView>;

    /// All that is left to be looked at, beginning with what is waited for.
    closed spec fn view(&self) -> Seq<TrackingView> {
        seq![self.current@] + tracking_views(self.pending@)
    }
}

/// What comes next in a shallow task.
#[derive(Debug)]
pub enum ShallowStep {
    /// Wait for an entry to be looked at. The entries after it are not touched yet.
    Await(ShallowAwait),
    /// Every entry has been looked at.
    Done,
}

impl View for ShallowStep {
    type V = Seq<TrackingView>;

    /// All that is left to be looked at.
    open spec fn view(&self) -> Seq<TrackingView> {
        match self {
            ShallowStep::Await(waiting) => waiting@,
            ShallowStep::Done => seq![],
        }
    }
}

/// The step that looks at `queue`.
fn look_at(mut queue: VecDeque<Tracking>) -> (step: ShallowStep)
    ensures
        step@ == tracking_views(queue@),
        step is Done <==> queue@.len() == 0,
{
    let ghost whole = queue@;
    match queue.pop_front() {
        Some(current) => {
            proof {
                assert(seq![current@] + tracking_views(queue@) =~= tracking_views(whole));
            }
            ShallowStep::Await(ShallowAwait { current, pending: queue })
        },
        None => {
            proof {
                assert(tracking_views(whole) =~= seq![]);
            }
            ShallowStep::Done
        },
    }
}

/// Starts a shallow task on a listing.
pub fn dir_dependency_shallow(glob: u64) -> (started: ShallowListing)
    ensures
        started@ == glob,
{
    ShallowListing { glob }
}

impl ShallowListing {
    /// The listing that is waited for.
    pub fn awaited(&self) -> (glob: u64)
        ensures
            glob == self@,
    {
        self.glob
    }

    /// Takes the listing, or the failure to read it.
    pub fn listed<F>(self, listing: Result<ReadGlobResult, F>) -> (step: Result<ShallowStep, F>)
        ensures
            match listing {
                Ok(l) => {
                    &&& step matches Ok(s)
                    &&& s@ == tracking_of_listing(l)
                    &&& s is Done <==> s@.len() == 0
                    &&& s@.len() == l.results@.filter(|e: DirectoryEntry| !(e is Error)).len()
                    &&& forall|j: int|
                        0 <= j < s@.len() ==> fits(
                            l.results@.filter(|e: DirectoryEntry| !(e is Error))[j],
                            #[trigger] s@[j],
                        )
                },
                Err(failure) => step == Err::<ShallowStep, F>(failure),
            },
    {
        let glob = match listing {
            Ok(listing) => listing,
            Err(failure) => return Err(failure),
        };
        let mut queue: VecDeque<Tracking> = VecDeque::new();
        let mut i: usize = 0;
        proof {
            assert(tracking_views(queue@) =~= seq![]);
        }
        while i < glob.results.len()
            invariant
                i <= glob.results.len(),
                tracking_views(queue@) == tracking_of_entries(glob.results@, i as nat),
            decreases glob.results.len() - i,
        {
            let ghost before = queue@;
            match &glob.results[i] {
                DirectoryEntry::File(file) => {
                    queue.push_back(Tracking::Track(file.clone()));
                },
                DirectoryEntry::Directory(dir) => {
                    queue.push_back(
                        Tracking::ReadGlob(
                            GlobRequest {
                                path: dir.clone(),
                                glob: "**".to_owned(),
                                dot_files: false,
                            },
                        ),
                    );
                },
                DirectoryEntry::Symlink(symlink) => {
                    queue.push_back(Tracking::ReadLink(symlink.clone()));
                },
                DirectoryEntry::Other(other) => {
                    queue.push_back(Tracking::GetType(other.clone()));
                },
                DirectoryEntry::Error => {},
            }
            proof {
                assert(tracking_views(queue@) =~= tracking_views(before) + tracking_of(
                    glob.results@[i as int],
                ));
            }
            i += 1;
        }
        proof {
            law_entries_are_looked_at_in_their_way(glob);
        }
        Ok(look_at(queue))
    }
}

impl ShallowAwait {
    /// What is waited for.
    pub fn current(&self) -> (current: &Tracking)
        ensures
            self@.len() > 0,
            current@ == self@[0],
    {
        &self.current
    }

    /// Goes on after the current entry was looked at, or fails with it. A directory
    /// was looked at when the whole task on its listing has finished.
    pub fn resolve<F>(self, looked: Result<(), F>) -> (step: Result<ShallowStep, F>)
        ensures
            match looked {
                Ok(()) => {
                    &&& step matches Ok(s)
                    &&& s@ == self@.drop_first()
                    &&& s is Done <==> s@.len() == 0
                },
                Err(failure) => step == Err::<ShallowStep, F>(failure),
            },
    {
        proof {
            assert(self@.drop_first() =~= tracking_views(self.pending@));
        }
        match looked {
            Ok(()) => Ok(look_at(self.pending)),
            Err(failure) => Err(failure),
        }
    }
}

proof fn lemma_entries(entries: Seq<DirectoryEntry>, n: nat)
    requires
        n <= entries.len(),
    ensures
        forall|i: int|
            0 <= i < n && !(#[trigger] entries[i] is Error) ==> tracking_of_entries(
                entries,
                n,
            ).contains(tracking_of(entries[i])[0]),
        forall|t: TrackingView| #[trigger]
            tracking_of_entries(entries, n).contains(t) ==> exists|i: int|
                0 <= i < n && tracking_of(#[trigger] entries[i]).contains(t),
        tracking_of_entries(entries, n).len() == entries.take(n as int).filter(
            |e: DirectoryEntry| !(e is Error),
        ).len(),
    decreases n,
{
    let pred = |e: DirectoryEntry| !(e is Error);
    if n == 0 {
        assert(entries.take(0) =~= seq![]);
        reveal(Seq::filter);
    } else {
        let m = (n - 1) as nat;
        lemma_entries(entries, m);
        let earlier = tracking_of_entries(entries, m);
        let last = tracking_of(entries[m as int]);
        let whole = tracking_of_entries(entries, n);
        assert forall|i: int| 0 <= i < n && !(#[trigger] entries[i] is Error) implies whole.contains(
            tracking_of(entries[i])[0],
        ) by {
            let wanted = tracking_of(entries[i])[0];
            if i == m {
                assert(whole[earlier.len() as int] == wanted);
            } else {
                assert(earlier.contains(wanted));
                let j = earlier.index_of(wanted);
                assert(whole[j] == wanted);
            }
        }
        assert forall|t: TrackingView| #[trigger] whole.contains(t) implies exists|i: int|
            0 <= i < n && tracking_of(#[trigger] entries[i]).contains(t) by {
            let j = whole.index_of(t);
            if j < earlier.len() {
                assert(earlier[j] == t);
                assert(earlier.contains(t));
            } else {
                assert(last[j - earlier.len()] == t);
                assert(tracking_of(entries[m as int]).contains(t));
            }
        }
        let taken = entries.take(n as int);
        assert(taken.drop_last() =~= entries.take(m as int));
        assert(taken.last() == entries[m as int]);
        reveal(Seq::filter);
        assert(taken.filter(pred) == if pred(taken.last()) {
            taken.drop_last().filter(pred).push(taken.last())
        } else {
            taken.drop_last().filter(pred)
        });
    }
}

/// Every entry of a listing is looked at, in the way that fits it.
pub proof fn law_every_entry_is_looked_at(listing: ReadGlobResult, entry: DirectoryEntry)
    requires
        listing.results@.contains(entry),
        !(entry is Error),
    ensures
        tracking_of_listing(listing).contains(tracking_of(entry)[0]),
{
    lemma_entries(listing.results@, listing.results@.len());
    let i = listing.results@.index_of(entry);
    assert(listing.results@[i] == entry);
}

/// Nothing is looked at but the entries of the listing.
pub proof fn law_only_entries_are_looked_at(listing: ReadGlobResult, t: TrackingView)
    requires
        tracking_of_listing(listing).contains(t),
    ensures
        exists|i: int|
            0 <= i < listing.results@.len() && tracking_of(
                #[trigger] listing.results@[i],
            ).contains(t),
{
    lemma_entries(listing.results@, listing.results@.len());
}

/// Each entry is looked at once: there are as many looks as entries that are no
/// errors.
pub proof fn law_each_entry_is_looked_at_once(listing: ReadGlobResult)
    ensures
        tracking_of_listing(listing).len() == listing.results@.filter(
            |e: DirectoryEntry| !(e is Error),
        ).len(),
{
    lemma_entries(listing.results@, listing.results@.len());
    assert(listing.results@.take(listing.results@.len() as int) =~= listing.results@);
}

/// What is left of a shallow task after a number of answers, or the first failure.
pub open spec fn looked_through<F>(queue: Seq<TrackingView>, answers: Seq<Result<(), F>>) -> Result<
    Seq<TrackingView>,
    F,
>
    decreases answers.len(),
{
    if queue.len() == 0 || answers.len() == 0 {
        Ok(queue)
    } else {
        match answers[0] {
            Ok(()) => looked_through(queue.drop_first(), answers.drop_first()),
            Err(failure) => Err(failure),
        }
    }
}

/// A shallow task looks at one entry after the other: after a number of successful
/// looks, exactly the entries behind them are left, and the task is done when there
/// were as many as entries.
pub proof fn law_entries_are_looked_at_in_order<F>(
    queue: Seq<TrackingView>,
    answers: Seq<Result<(), F>>,
)
    requires
        answers.len() <= queue.len(),
        forall|i: int| 0 <= i < answers.len() ==> #[trigger] answers[i] is Ok,
    ensures
        looked_through(queue, answers) == Ok::<Seq<TrackingView>, F>(
            queue.skip(answers.len() as int),
        ),
    decreases answers.len(),
{
    if answers.len() == 0 {
        assert(queue.skip(0) =~= queue);
    } else {
        let rest = answers.drop_first();
        assert(answers[0] is Ok);
        assert forall|i: int| 0 <= i < rest.len() implies #[trigger] rest[i] is Ok by {
            assert(rest[i] == answers[i + 1]);
        }
        law_entries_are_looked_at_in_order(queue.drop_first(), rest);
        assert(queue.drop_first().skip(rest.len() as int) =~= queue.skip(answers.len() as int));
    }
}

/// The first failure ends a shallow task; the entries behind it are not looked at.
pub proof fn law_first_failed_look_ends_the_task<F>(
    queue: Seq<TrackingView>,
    answers: Seq<Result<(), F>>,
    k: int,
)
    requires
        0 <= k < answers.len(),
        k < queue.len(),
        answers[k] is Err,
        forall|i: int| 0 <= i < k ==> #[trigger] answers[i] is Ok,
    ensures
        looked_through(queue, answers) == Err::<Seq<TrackingView>, F>(answers[k]->Err_0),
    decreases k,
{
    if k > 0 {
        let rest = answers.drop_first();
        assert(answers[0] is Ok);
        assert forall|i: int| 0 <= i < k - 1 implies #[trigger] rest[i] is Ok by {
            assert(rest[i] == answers[i + 1]);
        }
        assert(rest[k - 1] == answers[k]);
        law_first_failed_look_ends_the_task(queue.drop_first(), rest, k - 1);
    }
}

/// Whatever fails later, the look at the own entries and a task for each listing
/// below have been begun by the time that the first of them is waited for.
pub proof fn law_everything_is_begun_before_waiting(glob: u64, listing: ReadGlobResult)
    ensures
        begun_for(glob, listing).contains(DirTask::Shallow(glob)),
        forall|i: int|
            0 <= i < listing.inner@.len() ==> begun_for(glob, listing).contains(
                DirTask::Whole(#[trigger] listing.inner@[i]),
            ),
        begun_for(glob, listing).len() == listing.inner@.len() + 1,
{
    let begun = begun_for(glob, listing);
    assert(begun[0] == DirTask::Shallow(glob));
    assert forall|i: int| 0 <= i < listing.inner@.len() implies begun.contains(
        DirTask::Whole(#[trigger] listing.inner@[i]),
    ) by {
        assert(begun[i + 1] == DirTask::Whole(listing.inner@[i]));
    }
}

/// What a whole task waits for after tasks on listings below have ended, each given
/// by its place among those that had not and by what came of it, or the first
/// failure.
pub open spec fn joined<F>(
    glob: u64,
    pending: Seq<u64>,
    ended: Seq<(int, Result<(), F>)>,
) -> Result<DirStepView, F>
    decreases ended.len(),
{
    if ended.len() == 0 {
        Ok(joining(glob, pending))
    } else {
        match ended[0].1 {
            Ok(()) => joined(glob, pending.remove(ended[0].0), ended.drop_first()),
            Err(failure) => Err(failure),
        }
    }
}

/// Whether each place in `places` is one among `count` tasks of which one ends
/// after the other.
pub open spec fn valid_places(places: Seq<int>, count: nat) -> bool {
    &&& places.len() <= count
    &&& forall|i: int| 0 <= i < places.len() ==> 0 <= #[trigger] places[i] < count - i
}

/// In whatever order the tasks on the listings below finish, the look at the own
/// entries is waited for once all of them have, and not before.
pub proof fn law_every_listing_below_is_waited_for<F>(
    glob: u64,
    pending: Seq<u64>,
    ended: Seq<(int, Result<(), F>)>,
)
    requires
        valid_places(ended.map_values(|e: (int, Result<(), F>)| e.0), pending.len()),
        forall|i: int| 0 <= i < ended.len() ==> (#[trigger] ended[i]).1 is Ok,
    ensures
        joined(glob, pending, ended) matches Ok(step) && (step is Shallow <==> ended.len()
            == pending.len()),
    decreases ended.len(),
{
    if ended.len() > 0 {
        let rest = ended.drop_first();
        let left = pending.remove(ended[0].0);
        let places = ended.map_values(|e: (int, Result<(), F>)| e.0);
        let places_left = rest.map_values(|e: (int, Result<(), F>)| e.0);
        assert(places[0] == ended[0].0);
        assert(ended[0].1 is Ok);
        assert forall|i: int| 0 <= i < places_left.len() implies 0 <= #[trigger] places_left[i]
            < left.len() - i by {
            assert(places_left[i] == places[i + 1]);
        }
        assert forall|i: int| 0 <= i < rest.len() implies (#[trigger] rest[i]).1 is Ok by {
            assert(rest[i] == ended[i + 1]);
        }
        law_every_listing_below_is_waited_for(glob, left, rest);
    }
}

/// The first task on a listing below that fails ends the whole task with its
/// failure.
pub proof fn law_first_failed_listing_ends_the_task<F>(
    glob: u64,
    pending: Seq<u64>,
    ended: Seq<(int, Result<(), F>)>,
    k: int,
)
    requires
        0 <= k < ended.len(),
        ended[k].1 is Err,
        forall|i: int| 0 <= i < k ==> (#[trigger] ended[i]).1 is Ok,
    ensures
        joined(glob, pending, ended) == Err::<DirStepView, F>(ended[k].1->Err_0),
    decreases k,
{
    if k > 0 {
        let rest = ended.drop_first();
        assert(ended[0].1 is Ok);
        assert forall|i: int| 0 <= i < k - 1 implies (#[trigger] rest[i]).1 is Ok by {
            assert(rest[i] == ended[i + 1]);
        }
        assert(rest[k - 1] == ended[k]);
        law_first_failed_listing_ends_the_task(
            glob,
            pending.remove(ended[0].0),
            rest,
            k - 1,
        );
    }
}

/// A file system as tasks find it: which listing a handle stands for, if it can be
/// read, which handle a request for a listing gives, and which looks succeed.
pub struct World {
    pub listing: spec_fn(u64) -> Option<ReadGlobResult>,
    pub opened: spec_fn(GlobRequestView) -> u64,
    pub looked: spec_fn(TrackingView) -> bool,
}

/// The answer to a task or a look that succeeds or not.
pub open spec fn answer(success: bool) -> Result<(), ()> {
    if success {
        Ok(())
    } else {
        Err(())
    }
}

impl World {
    /// Whether the whole task on a listing finishes without a failure, when listings
    /// are followed at most `depth` deep.
    pub open spec fn finishes(self, glob: u64, depth: nat) -> bool
        decreases depth,
    {
        &&& depth > 0
        &&& (self.listing)(glob) matches Some(listing)
        &&& forall|i: int|
            0 <= i < listing.inner@.len() ==> self.finishes(
                #[trigger] listing.inner@[i],
                (depth - 1) as nat,
            )
        &&& forall|i: int|
            0 <= i < tracking_of_listing(listing).len() ==> match #[trigger] tracking_of_listing(
                listing,
            )[i] {
                TrackingView::ReadGlob(request) => self.finishes(
                    (self.opened)(request),
                    (depth - 1) as nat,
                ),
                t => (self.looked)(t),
            }
    }

    /// Whether looking at something succeeds. A directory is looked at by the whole
    /// task on its listing.
    pub open spec fn succeeds(self, t: TrackingView, depth: nat) -> bool {
        match t {
            TrackingView::ReadGlob(request) => self.finishes((self.opened)(request), depth),
            _ => (self.looked)(t),
        }
    }

    /// What a shallow task on a listing comes to when each look is answered.
    pub open spec fn looks_through(self, listing: ReadGlobResult, depth: nat) -> Result<
        Seq<TrackingView>,
        (),
    > {
        looked_through(
            tracking_of_listing(listing),
            tracking_of_listing(listing).map_values(
                |t: TrackingView| answer(self.succeeds(t, depth)),
            ),
        )
    }

    /// What comes of the whole tasks on `pending` when they end in the order that
    /// `places` gives.
    pub open spec fn ended(self, pending: Seq<u64>, places: Seq<int>, depth: nat) -> Seq<
        (int, Result<(), ()>),
    >
        decreases places.len(),
    {
        if places.len() == 0 {
            seq![]
        } else {
            seq![(places[0], answer(self.finishes(pending[places[0]], depth)))] + self.ended(
                pending.remove(places[0]),
                places.drop_first(),
                depth,
            )
        }
    }

    /// Whether the listing `found` lies below the listing `glob` or is that one:
    /// as one of the listings below it, or as the listing of one of its directories,
    /// in fewer than `depth` steps.
    pub open spec fn reaches(self, glob: u64, found: u64, depth: nat) -> bool
        decreases depth,
    {
        &&& depth > 0
        &&& {
            ||| glob == found
            ||| {
                &&& (self.listing)(glob) matches Some(listing)
                &&& {
                    ||| exists|i: int|
                        0 <= i < listing.inner@.len() && self.reaches(
                            #[trigger] listing.inner@[i],
                            found,
                            (depth - 1) as nat,
                        )
                    ||| exists|i: int|
                        0 <= i < tracking_of_listing(listing).len() && (
                        #[trigger] tracking_of_listing(listing)[i] matches TrackingView::ReadGlob(
                            request,
                        ) && self.reaches((self.opened)(request), found, (depth - 1) as nat))
                }
            }
        }
    }
}

/// A shallow task runs to its end exactly when every look succeeds.
pub proof fn law_shallow_task_ends_when_every_look_succeeds(
    world: World,
    listing: ReadGlobResult,
    depth: nat,
)
    ensures
        world.looks_through(listing, depth) == Ok::<Seq<TrackingView>, ()>(seq![]) <==> forall|
            i: int,
        |
            0 <= i < tracking_of_listing(listing).len() ==> world.succeeds(
                #[trigger] tracking_of_listing(listing)[i],
                depth,
            ),
{
    let queue = tracking_of_listing(listing);
    let answers = queue.map_values(|t: TrackingView| answer(world.succeeds(t, depth)));
    if forall|i: int| 0 <= i < queue.len() ==> world.succeeds(#[trigger] queue[i], depth) {
        assert forall|i: int| 0 <= i < answers.len() implies #[trigger] answers[i] is Ok by {
            assert(world.succeeds(queue[i], depth));
        }
        law_entries_are_looked_at_in_order(queue, answers);
        assert(queue.skip(queue.len() as int) =~= seq![]);
    } else {
        let bad = choose|i: int|
            0 <= i < queue.len() && !world.succeeds(#[trigger] queue[i], depth);
        lemma_some_failure(queue, answers, bad);
    }
}

proof fn lemma_some_failure(queue: Seq<TrackingView>, answers: Seq<Result<(), ()>>, bad: int)
    requires
        answers.len() == queue.len(),
        0 <= bad < answers.len(),
        answers[bad] is Err,
    ensures
        looked_through(queue, answers) is Err,
    decreases bad,
{
    if answers[0] is Ok {
        assert(answers.drop_first()[bad - 1] == answers[bad]);
        lemma_some_failure(queue.drop_first(), answers.drop_first(), bad - 1);
    }
}

/// A whole task runs to its end exactly when its listing can be read, the tasks on
/// the listings below succeed, in whatever order they end, and the look at its own
/// entries succeeds.
pub proof fn law_whole_task_ends_when_every_task_succeeds(
    world: World,
    glob: u64,
    listing: ReadGlobResult,
    places: Seq<int>,
    depth: nat,
)
    requires
        (world.listing)(glob) == Some(listing),
        places.len() == listing.inner@.len(),
        valid_places(places, listing.inner@.len()),
    ensures
        world.finishes(glob, depth + 1) <==> {
            &&& joined(glob, listing.inner@, world.ended(listing.inner@, places, depth)) == Ok::<
                DirStepView,
                (),
            >(DirStepView::Shallow(glob))
            &&& world.looks_through(listing, depth) == Ok::<Seq<TrackingView>, ()>(seq![])
        },
{
    let queue = tracking_of_listing(listing);
    lemma_join_succeeds(world, glob, listing.inner@, places, depth);
    law_shallow_task_ends_when_every_look_succeeds(world, listing, depth);
    assert((depth + 1 - 1) as nat == depth);
    if world.finishes(glob, depth + 1) {
        assert forall|i: int| 0 <= i < queue.len() implies world.succeeds(
            #[trigger] queue[i],
            depth,
        ) by {}
    } else if forall|i: int| 0 <= i < queue.len() ==> world.succeeds(#[trigger] queue[i], depth) {
        assert forall|i: int| 0 <= i < queue.len() implies match #[trigger] queue[i] {
            TrackingView::ReadGlob(request) => world.finishes((world.opened)(request), depth),
            t => (world.looked)(t),
        } by {
            assert(world.succeeds(queue[i], depth));
        }
    }
}

proof fn lemma_join_succeeds(
    world: World,
    glob: u64,
    pending: Seq<u64>,
    places: Seq<int>,
    depth: nat,
)
    requires
        places.len() == pending.len(),
        valid_places(places, pending.len()),
    ensures
        joined(glob, pending, world.ended(pending, places, depth)) == Ok::<DirStepView, ()>(
            DirStepView::Shallow(glob),
        ) <==> forall|i: int|
            0 <= i < pending.len() ==> world.finishes(#[trigger] pending[i], depth),
    decreases pending.len(),
{
    if pending.len() > 0 {
        let place = places[0];
        let left = pending.remove(place);
        let rest = places.drop_first();
        let ended = world.ended(pending, places, depth);
        assert forall|i: int| 0 <= i < rest.len() implies 0 <= #[trigger] rest[i] < left.len()
            - i by {
            assert(rest[i] == places[i + 1]);
        }
        lemma_join_succeeds(world, glob, left, rest, depth);
        assert(ended.drop_first() =~= world.ended(left, rest, depth));
        if forall|i: int| 0 <= i < left.len() ==> world.finishes(#[trigger] left[i], depth) {
            assert forall|i: int| 0 <= i < pending.len() && i != place implies world.finishes(
                #[trigger] pending[i],
                depth,
            ) by {
                if i < place {
                    assert(left[i] == pending[i]);
                } else {
                    assert(left[i - 1] == pending[i]);
                }
            }
        }
        if forall|i: int| 0 <= i < pending.len() ==> world.finishes(#[trigger] pending[i], depth) {
            assert(world.finishes(pending[place], depth));
            assert forall|i: int| 0 <= i < left.len() implies world.finishes(
                #[trigger] left[i],
                depth,
            ) by {
                if i < place {
                    assert(left[i] == pending[i]);
                } else {
                    assert(left[i] == pending[i + 1]);
                }
            }
        }
    }
}

/// When a whole task has finished, all that was listed on the way has been looked
/// at, at every depth: each listing that was reached could be read, each of its
/// entries was looked at in its way, and each of its directories was listed.
pub proof fn law_finished_task_has_looked_at_everything(
    world: World,
    glob: u64,
    found: u64,
    depth: nat,
)
    requires
        world.finishes(glob, depth),
        world.reaches(glob, found, depth),
    ensures
        (world.listing)(found) matches Some(listing) && forall|entry: DirectoryEntry| #[trigger]
            listing.results@.contains(entry) && !(entry is Error) ==> match tracking_of(entry)[0] {
                TrackingView::ReadGlob(request) => (world.listing)((world.opened)(request)) is Some,
                t => (world.looked)(t),
            },
    decreases depth,
{
    let listing = (world.listing)(glob)->0;
    let queue = tracking_of_listing(listing);
    let below = (depth - 1) as nat;
    if glob == found {
        assert forall|entry: DirectoryEntry| #[trigger]
            listing.results@.contains(entry) && !(entry is Error) implies match tracking_of(
            entry,
        )[0] {
            TrackingView::ReadGlob(request) => (world.listing)((world.opened)(request)) is Some,
            t => (world.looked)(t),
        } by {
            law_every_entry_is_looked_at(listing, entry);
            let i = queue.index_of(tracking_of(entry)[0]);
            assert(queue[i] == tracking_of(entry)[0]);
            if let TrackingView::ReadGlob(request) = queue[i] {
                assert(world.finishes((world.opened)(request), below));
            }
        }
    } else if exists|i: int|
        0 <= i < listing.inner@.len() && world.reaches(#[trigger] listing.inner@[i], found, below) {
        let i = choose|i: int|
            0 <= i < listing.inner@.len() && world.reaches(
                #[trigger] listing.inner@[i],
                found,
                below,
            );
        assert(world.finishes(listing.inner@[i], below));
        law_finished_task_has_looked_at_everything(world, listing.inner@[i], found, below);
    } else {
        let i = choose|i: int|
            0 <= i < queue.len() && (#[trigger] queue[i] matches TrackingView::ReadGlob(request)
                && world.reaches((world.opened)(request), found, below));
        let opened = (world.opened)(queue[i]->ReadGlob_0);
        assert(world.finishes(opened, below));
        law_finished_task_has_looked_at_everything(world, opened, found, below);
    }
}

/// A look fits a file, a directory, a symbolic link or something else only by its
/// kind and by its very path. Nothing fits an error.
pub proof fn law_look_fits_the_kind_and_the_path(entry: DirectoryEntry, t: TrackingView)
    ensures
        entry matches DirectoryEntry::File(path) ==> (fits(entry, t) <==> t == TrackingView::Track(
            path@,
        )),
        entry matches DirectoryEntry::Symlink(path) ==> (fits(entry, t) <==> t
            == TrackingView::ReadLink(path@)),
        entry matches DirectoryEntry::Other(path) ==> (fits(entry, t) <==> t
            == TrackingView::GetType(path@)),
        entry matches DirectoryEntry::Directory(path) ==> (fits(entry, t) <==> (
        t matches TrackingView::ReadGlob(request) && request.path == path@ && request.glob == "**"@
            && !request.dot_files)),
        entry is Error ==> !fits(entry, t),
{
}

proof fn lemma_entries_fit(entries: Seq<DirectoryEntry>, n: nat)
    requires
        n <= entries.len(),
    ensures
        ({
            let readable = entries.take(n as int).filter(|e: DirectoryEntry| !(e is Error));
            &&& tracking_of_entries(entries, n).len() == readable.len()
            &&& forall|j: int|
                0 <= j < readable.len() ==> fits(
                    readable[j],
                    #[trigger] tracking_of_entries(entries, n)[j],
                )
        }),
    decreases n,
{
    let pred = |e: DirectoryEntry| !(e is Error);
    reveal(Seq::filter);
    if n == 0 {
        assert(entries.take(0) =~= seq![]);
    } else {
        let m = (n - 1) as nat;
        lemma_entries_fit(entries, m);
        let taken = entries.take(n as int);
        assert(taken.drop_last() =~= entries.take(m as int));
        assert(taken.last() == entries[m as int]);
        let before = entries.take(m as int).filter(pred);
        assert(taken.filter(pred) == if pred(taken.last()) {
            before.push(taken.last())
        } else {
            before
        });
        let earlier = tracking_of_entries(entries, m);
        let whole = tracking_of_entries(entries, n);
        assert forall|j: int| 0 <= j < taken.filter(pred).len() implies fits(
            taken.filter(pred)[j],
            #[trigger] whole[j],
        ) by {
            if j < earlier.len() {
                assert(whole[j] == earlier[j]);
                assert(fits(before[j], earlier[j]));
            }
        }
    }
}

/// What is looked at are the entries that are no errors, each once, in their order
/// and in the way that fits: look number `j` is at such an entry number `j`.
pub proof fn law_entries_are_looked_at_in_their_way(listing: ReadGlobResult)
    ensures
        ({
            let readable = listing.results@.filter(|e: DirectoryEntry| !(e is Error));
            &&& tracking_of_listing(listing).len() == readable.len()
            &&& forall|j: int|
                0 <= j < readable.len() ==> match readable[j] {
                    DirectoryEntry::File(path) => #[trigger] tracking_of_listing(listing)[j]
                        == TrackingView::Track(path@),
                    DirectoryEntry::Directory(path) => tracking_of_listing(listing)[j]
                        == TrackingView::ReadGlob(
                        GlobRequestView { path: path@, glob: "**"@, dot_files: false },
                    ),
                    DirectoryEntry::Symlink(path) => tracking_of_listing(listing)[j]
                        == TrackingView::ReadLink(path@),
                    DirectoryEntry::Other(path) => tracking_of_listing(listing)[j]
                        == TrackingView::GetType(path@),
                    DirectoryEntry::Error => false,
                }
            &&& forall|j: int|
                0 <= j < readable.len() ==> fits(
                    readable[j],
                    #[trigger] tracking_of_listing(listing)[j],
                )
        }),
{
    lemma_entries_fit(listing.results@, listing.results@.len());
    assert(listing.results@.take(listing.results@.len() as int) =~= listing.results@);
    let readable = listing.results@.filter(|e: DirectoryEntry| !(e is Error));
    assert forall|j: int| 0 <= j < readable.len() implies match readable[j] {
        DirectoryEntry::File(path) => #[trigger] tracking_of_listing(listing)[j]
            == TrackingView::Track(path@),
        DirectoryEntry::Directory(path) => tracking_of_listing(listing)[j]
            == TrackingView::ReadGlob(
            GlobRequestView { path: path@, glob: "**"@, dot_files: false },
        ),
        DirectoryEntry::Symlink(path) => tracking_of_listing(listing)[j] == TrackingView::ReadLink(
            path@,
        ),
        DirectoryEntry::Other(path) => tracking_of_listing(listing)[j] == TrackingView::GetType(
            path@,
        ),
        DirectoryEntry::Error => false,
    } by {
        assert(fits(readable[j], tracking_of_listing(listing)[j]));
    }
}

/// A whole task waits for exactly the listings below that have not finished, and
/// for its own entries exactly when there is none.
pub proof fn law_unfinished_listings_are_waited_for(glob: u64, unfinished: Seq<u64>)
    ensures
        joining(glob, unfinished) is Shallow <==> unfinished.len() == 0,
        joining(glob, unfinished) matches DirStepView::Join(join) ==> join.pending == unfinished
            && join.glob == glob,
        joining(glob, unfinished) matches DirStepView::Shallow(own) ==> own == glob,
{
}

/// As many tasks as there are listings below have to finish, and no fewer, before a
/// whole task waits for its own entries. Here `steps[i]` is what is waited for after
/// `i` tasks have finished, and `places[i]` is the place of the next one that
/// finishes among the listings that this step holds.
pub proof fn law_no_listing_below_is_left_out(
    glob: u64,
    inner: Seq<u64>,
    steps: Seq<DirStepView>,
    places: Seq<int>,
    m: int,
)
    requires
        0 <= m < steps.len(),
        places.len() == steps.len() - 1,
        steps[0] == joining(glob, inner),
        forall|i: int|
            0 <= i < places.len() ==> ((#[trigger] steps[i]) matches DirStepView::Join(join) && 0
                <= places[i] < join.pending.len() && steps[i + 1] == joining(
                join.glob,
                join.pending.remove(places[i]),
            )),
    ensures
        m <= inner.len(),
        steps[m] is Shallow <==> m == inner.len(),
        steps[m] matches DirStepView::Join(join) ==> join.glob == glob && join.pending.len()
            == inner.len() - m && forall|k: int|
            0 <= k < join.pending.len() ==> inner.contains(#[trigger] join.pending[k]),
        steps[m] matches DirStepView::Shallow(own) ==> own == glob,
    decreases m,
{
    if m > 0 {
        law_no_listing_below_is_left_out(glob, inner, steps, places, m - 1);
        let before = steps[m - 1]->Join_0;
        let left = before.pending.remove(places[m - 1]);
        assert(steps[m - 1 + 1] == joining(before.glob, left));
        assert forall|k: int| 0 <= k < left.len() implies inner.contains(#[trigger] left[k]) by {
            if k < places[m - 1] {
                assert(left[k] == before.pending[k]);
            } else {
                assert(left[k] == before.pending[k + 1]);
            }
        }
    } else {
        assert forall|k: int| 0 <= k < inner.len() implies inner.contains(#[trigger] inner[k]) by {}
    }
}

/// The tasks that are begun for a listing are those on the listings below, each in
/// its place and none besides.
pub proof fn law_each_listing_below_gets_its_task(listing: ReadGlobResult)
    ensures
        tasks_below(listing).len() == listing.inner@.len(),
        forall|i: int|
            0 <= i < listing.inner@.len() ==> tasks_below(listing)[i] == DirTask::Whole(
                #[trigger] listing.inner@[i],
            ),
{
}

/// Requests, looks and steps show what they hold.
pub proof fn law_directory_steps_show_what_they_hold(
    request: GlobRequest,
    tracking: Tracking,
    whole: DirStep,
    shallow: ShallowStep,
)
    ensures
        request@ == (GlobRequestView {
            path: request.path@,
            glob: request.glob@,
            dot_files: request.dot_files,
        }),
        tracking matches Tracking::Track(path) ==> tracking@ == TrackingView::Track(path@),
        tracking matches Tracking::ReadLink(path) ==> tracking@ == TrackingView::ReadLink(path@),
        tracking matches Tracking::GetType(path) ==> tracking@ == TrackingView::GetType(path@),
        tracking matches Tracking::ReadGlob(listing) ==> tracking@ == TrackingView::ReadGlob(
            listing@,
        ),
        whole matches DirStep::Join(join) ==> whole@ == DirStepView::Join(join@),
        whole matches DirStep::Shallow(own) ==> whole@ == DirStepView::Shallow(own@),
        shallow matches ShallowStep::Await(waiting) ==> shallow@ == waiting@,
        shallow is Done ==> shallow@.len() == 0,
{
}

} // verus!
