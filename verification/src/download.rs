//! The download run: which links to fetch, and what to do next after each
//! thing that happened.
//!
//! The run itself touches neither disk, network nor store. It is a state
//! machine: the caller starts it, carries out each action it asks for, and
//! reports the event that followed. Links are handled strictly one after
//! another, and a link's outcome is recorded before the next link is looked
//! at.

use vstd::prelude::*;
use crate::config::{FilenamePatterns, Patterns};
use crate::filenames::{get_download_path, resolved};
use crate::model::{
    opt_text, post_values, LinkState, Outcome, Post, PostType, PostValue, StatusUpdate,
};
use crate::paths::{file_name_of, parent_of, path_file_name, path_parent};

verus! {

broadcast use vstd::string::group_string_axioms;

/// The origin that link URLs are relative to.
pub const BASE_URL: &'static str = "https://hutt.co";

/// The user agent sent with every request.
pub const USER_AGENT: &'static str =
    "Mozilla/5.0 (Windows NT 10.0; Win64; x64) AppleWebKit/537.36 (KHTML, like Gecko) Chrome/124.0.0.0 Safari/537.36";

/// The options of a download run.
#[derive(Debug)]
pub struct DownloadArgs {
    pub filename_pattern: FilenamePatterns,
    pub path: String,
    pub dry_run: bool,
    pub progress: bool,
    pub fail_fast: bool,
}

/// One link to download, with the destination resolved for it.
#[derive(Debug)]
pub struct WorkItem {
    pub post_id: i64,
    pub link_id: i64,
    pub post_type: PostType,
    pub url: String,
    pub destination: String,
    /// The directory of the destination, where it has one.
    pub directory: Option<String>,
    /// The file name of the destination, where it has one.
    pub file_name: Option<String>,
    pub pattern: String,
}

/// The mathematical value of a work item.
pub struct Work {
    pub post_id: int,
    pub link_id: int,
    pub post_type: PostType,
    pub url: Seq<char>,
    pub destination: Seq<char>,
    pub directory: Option<Seq<char>>,
    pub file_name: Option<Seq<char>>,
    pub pattern: Seq<char>,
}

impl View for WorkItem {
    type V = Work;

    open spec fn view(&self) -> Work {
        Work {
            post_id: self.post_id as int,
            link_id: self.link_id as int,
            post_type: self.post_type,
            url: self.url@,
            destination: self.destination@,
            directory: opt_text(self.directory),
            file_name: opt_text(self.file_name),
            pattern: self.pattern@,
        }
    }
}

/// The values of a list of work items.
pub open spec fn views(items: Seq<WorkItem>) -> Seq<Work> {
    items.map_values(|item: WorkItem| item@)
}

/// The work that a link calls for: none if it is downloaded already, else
/// a download to the path that the pattern of its post's type resolves to.
pub open spec fn work_for(
    post: PostValue,
    link: LinkState,
    patterns: Patterns,
    base_dir: Seq<char>,
) -> Option<Work> {
    if link.needs_download() {
        let destination = resolved(post, link.id, patterns.of(post.post_type), base_dir);
        Some(
            Work {
                post_id: post.id,
                link_id: link.id,
                post_type: post.post_type,
                url: link.url,
                destination,
                directory: parent_of(destination),
                file_name: file_name_of(destination),
                pattern: patterns.of(post.post_type),
            },
        )
    } else {
        None
    }
}

/// The work that the links of one post call for, in the order of the links.
pub open spec fn post_work(post: PostValue, patterns: Patterns, base_dir: Seq<char>) -> Seq<Work> {
    post.links.filter_map(|link: LinkState| work_for(post, link, patterns, base_dir))
}

/// The work that all posts call for, post by post.
pub open spec fn all_work(posts: Seq<PostValue>, patterns: Patterns, base_dir: Seq<char>) -> Seq<
    Work,
>
    decreases posts.len(),
{
    if posts.len() == 0 {
        Seq::empty()
    } else {
        all_work(posts.drop_last(), patterns, base_dir) + post_work(
            posts.last(),
            patterns,
            base_dir,
        )
    }
}

/// Selects every link that is not downloaded yet and resolves its
/// destination.
pub fn select_work(posts: &Vec<Post>, args: &DownloadArgs) -> (items: Vec<WorkItem>)
    ensures
        views(items@) == all_work(post_values(posts@), args.filename_pattern@, args.path@),
{
    let ghost all = post_values(posts@);
    let ghost patterns = args.filename_pattern@;
    let mut items: Vec<WorkItem> = Vec::new();
    let mut p: usize = 0;
    assert(views(items@) =~= Seq::<Work>::empty());
    while p < posts.len()
        invariant
            p <= posts.len(),
            all == post_values(posts@),
            patterns == args.filename_pattern@,
            views(items@) == all_work(all.take(p as int), patterns, args.path@),
        decreases posts.len() - p,
    {
        let post = &posts[p];
        let pattern = args.filename_pattern.pattern(post.post_type);
        let ghost done = views(items@);
        let ghost pick = |link: LinkState| work_for(post@, link, patterns, args.path@);
        let mut l: usize = 0;
        while l < post.links.len()
            invariant
                l <= post.links.len(),
                post == &posts@[p as int],
                patterns == args.filename_pattern@,
                pattern@ == patterns.of(post.post_type),
                pick == |link: LinkState| work_for(post@, link, patterns, args.path@),
                views(items@) == done + post@.links.take(l as int).filter_map(pick),
            decreases post.links.len() - l,
        {
            let link = &post.links[l];
            let ghost before = views(items@);
            proof {
                post@.links.lemma_filter_map_take_succ(pick, l as int);
                assert(post@.links[l as int] == link@);
            }
            if link.needs_download() {
                let destination = get_download_path(post, link.id, pattern, args.path.as_str());
                let directory = path_parent(destination.as_str());
                let file_name = path_file_name(destination.as_str());
                let item = WorkItem {
                    post_id: post.id,
                    link_id: link.id,
                    post_type: post.post_type,
                    url: link.url.clone(),
                    destination,
                    directory,
                    file_name,
                    pattern: pattern.to_owned(),
                };
                items.push(item);
                assert(views(items@) =~= before.push(item@));
            }
            l += 1;
        }
        proof {
            assert(post@.links.take(post.links.len() as int) =~= post@.links);
            assert(all.take(p + 1).drop_last() =~= all.take(p as int));
            assert(all.take(p + 1).last() == post@);
        }
        p += 1;
    }
    assert(all.take(posts.len() as int) =~= all);
    items
}

/// Where a run stands.
#[derive(Debug, Clone, Copy, PartialEq, Eq, Structural)]
pub enum Phase {
    /// Not started yet.
    Ready,
    /// Waiting to hear about a dry-run announcement.
    Announcing,
    /// Waiting to hear whether the destination exists.
    Probing,
    /// Waiting for a fetch to end.
    Fetching,
    /// Waiting for what a failed fetch left behind to be removed.
    Discarding,
    /// Waiting for the store to take an outcome.
    Recording,
    /// All links handled.
    Finished,
    /// Ended early with an error.
    Aborted,
}

/// What the caller reports to the run.
#[derive(Debug)]
pub enum Event {
    /// The caller is ready to begin.
    Started,
    /// The intended download was announced.
    Announced,
    /// Whether the destination is a regular file already.
    Exists(bool),
    /// The fetch succeeded and the file is in place.
    Fetched,
    /// The fetch failed; it may have left part of the file behind.
    FetchFailed { error: String },
    /// Nothing of the failed fetch is left at the destination.
    Discarded,
    /// What the failed fetch left behind could not be removed.
    DiscardFailed { error: String },
    /// The store took the outcome.
    Recorded,
    /// The store did not take the outcome.
    StoreFailed { error: String },
}

/// What the run asks the caller to do. `index` counts the work items.
#[derive(Debug)]
pub enum Action {
    /// Dry run: say where the item would go, change nothing.
    Announce { index: usize },
    /// Find out whether the item's destination is a regular file.
    Probe { index: usize },
    /// Fetch the item to its destination.
    Fetch { index: usize },
    /// Remove the item's destination, if the failed fetch left one.
    Discard { index: usize },
    /// Write the outcome of the item's link to the store.
    Record { index: usize, update: StatusUpdate },
    /// Nothing is left to do.
    Finish,
    /// Stop: the run failed with this error.
    Abort { error: String },
}

/// The mathematical value of an event.
pub enum Signal {
    Started,
    Announced,
    Exists(bool),
    Fetched,
    FetchFailed { error: Seq<char> },
    Discarded,
    DiscardFailed { error: Seq<char> },
    Recorded,
    StoreFailed { error: Seq<char> },
}

/// The mathematical value of an action.
pub enum Request {
    Announce { index: int },
    Probe { index: int },
    Fetch { index: int },
    Discard { index: int },
    Record { index: int, outcome: Outcome },
    Finish,
    Abort { error: Seq<char> },
}

impl View for Event {
    type V = Signal;

    open spec fn view(&self) -> Signal {
        match *self {
            Event::Started => Signal::Started,
            Event::Announced => Signal::Announced,
            Event::Exists(found) => Signal::Exists(found),
            Event::Fetched => Signal::Fetched,
            Event::FetchFailed { error } => Signal::FetchFailed { error: error@ },
            Event::Discarded => Signal::Discarded,
            Event::DiscardFailed { error } => Signal::DiscardFailed { error: error@ },
            Event::Recorded => Signal::Recorded,
            Event::StoreFailed { error } => Signal::StoreFailed { error: error@ },
        }
    }
}

impl View for Action {
    type V = Request;

    open spec fn view(&self) -> Request {
        match *self {
            Action::Announce { index } => Request::Announce { index: index as int },
            Action::Probe { index } => Request::Probe { index: index as int },
            Action::Fetch { index } => Request::Fetch { index: index as int },
            Action::Discard { index } => Request::Discard { index: index as int },
            Action::Record { index, update } => Request::Record {
                index: index as int,
                outcome: update@,
            },
            Action::Finish => Request::Finish,
            Action::Abort { error } => Request::Abort { error: error@ },
        }
    }
}

/// The mathematical value of a run.
pub struct RunState {
    pub items: Seq<Work>,
    /// The item in hand; all before it are done.
    pub cursor: int,
    pub phase: Phase,
    /// While discarding: the error of the failed fetch. While recording:
    /// the error to abort with once the store has the outcome. After an
    /// abort: the error the run ended with.
    pub error: Option<Seq<char>>,
    pub dry_run: bool,
    pub fail_fast: bool,
}

impl RunState {
    /// A run never points past its items, and while it waits for news of an
    /// item it points at one.
    pub open spec fn wf(self) -> bool {
        &&& 0 <= self.cursor <= self.items.len()
        &&& (self.phase == Phase::Announcing || self.phase == Phase::Probing || self.phase
            == Phase::Fetching || self.phase == Phase::Discarding || self.phase
            == Phase::Recording) ==> self.cursor < self.items.len()
        &&& (self.phase == Phase::Aborted || self.phase == Phase::Discarding)
            ==> self.error is Some
    }

    /// The outcome that records the item in hand as downloaded.
    pub open spec fn success(self) -> Outcome {
        Outcome::Success {
            file_path: self.items[self.cursor].destination,
            file_path_pattern: self.items[self.cursor].pattern,
        }
    }

    /// Turns to the item at `cursor`: the run is finished if there is none;
    /// a dry run announces it; any other run probes its destination.
    pub open spec fn turn_to(self, cursor: int) -> (RunState, Request) {
        if cursor >= self.items.len() {
            (RunState { cursor, phase: Phase::Finished, error: None, ..self }, Request::Finish)
        } else if self.dry_run {
            (
                RunState { cursor, phase: Phase::Announcing, error: None, ..self },
                Request::Announce { index: cursor },
            )
        } else {
            (
                RunState { cursor, phase: Phase::Probing, error: None, ..self },
                Request::Probe { index: cursor },
            )
        }
    }

    /// Ends the run with `error`.
    pub open spec fn abort(self, error: Seq<char>) -> (RunState, Request) {
        (RunState { phase: Phase::Aborted, error: Some(error), ..self }, Request::Abort { error })
    }

    /// Asks for `outcome` to be recorded for the item in hand; once that is
    /// done the run aborts with `then_abort`, if there is one.
    pub open spec fn record(self, outcome: Outcome, then_abort: Option<Seq<char>>) -> (
        RunState,
        Request,
    ) {
        (
            RunState { phase: Phase::Recording, error: then_abort, ..self },
            Request::Record { index: self.cursor, outcome },
        )
    }

    /// The run after `signal`, and what it asks for next.
    ///
    /// A destination that exists is recorded as a success without a fetch.
    /// After a failed fetch the run first asks for what is left of the file
    /// to be removed, then for the failure to be recorded; after that a
    /// fail-fast run aborts with the fetch's error and any other run goes on
    /// to the next item. Should the remains not be removable, the failure
    /// is recorded all the same and the run ends with that error. A store
    /// that fails ends the run. A run that has ended stays ended, and a
    /// signal that the run did not ask for ends it.
    pub open spec fn step(self, signal: Signal) -> (RunState, Request) {
        match self.phase {
            Phase::Finished => (self, Request::Finish),
            Phase::Aborted => (self, Request::Abort { error: self.error->0 }),
            Phase::Ready => match signal {
                Signal::Started => self.turn_to(self.cursor),
                _ => self.abort(unexpected()),
            },
            Phase::Announcing => match signal {
                Signal::Announced => self.turn_to(self.cursor + 1),
                _ => self.abort(unexpected()),
            },
            Phase::Probing => match signal {
                Signal::Exists(true) => self.record(self.success(), None),
                Signal::Exists(false) => (
                    RunState { phase: Phase::Fetching, ..self },
                    Request::Fetch { index: self.cursor },
                ),
                _ => self.abort(unexpected()),
            },
            Phase::Fetching => match signal {
                Signal::Fetched => self.record(self.success(), None),
                Signal::FetchFailed { error } => (
                    RunState { phase: Phase::Discarding, error: Some(error), ..self },
                    Request::Discard { index: self.cursor },
                ),
                _ => self.abort(unexpected()),
            },
            Phase::Discarding => match signal {
                Signal::Discarded => self.record(
                    Outcome::Error { error: self.error->0 },
                    if self.fail_fast {
                        self.error
                    } else {
                        None
                    },
                ),
                Signal::DiscardFailed { error } => self.record(
                    Outcome::Error { error: self.error->0 },
                    Some(error),
                ),
                _ => self.abort(unexpected()),
            },
            Phase::Recording => match signal {
                Signal::Recorded => match self.error {
                    Some(error) => self.abort(error),
                    None => self.turn_to(self.cursor + 1),
                },
                Signal::StoreFailed { error } => self.abort(error),
                _ => self.abort(unexpected()),
            },
        }
    }
}

/// The error of a run that was told of something it had not asked for.
pub open spec fn unexpected() -> Seq<char> {
    "unexpected event"@
}

/// A download run over a list of work items.
#[derive(Debug)]
pub struct DownloadRun {
    items: Vec<WorkItem>,
    cursor: usize,
    phase: Phase,
    error: Option<String>,
    dry_run: bool,
    fail_fast: bool,
}

impl View for DownloadRun {
    type V = RunState;

    closed spec fn view(&self) -> RunState {
        RunState {
            items: views(self.items@),
            cursor: self.cursor as int,
            phase: self.phase,
            error: opt_text(self.error),
            dry_run: self.dry_run,
            fail_fast: self.fail_fast,
        }
    }
}

impl DownloadRun {
    #[verifier::type_invariant]
    spec fn well_formed(self) -> bool {
        self@.wf()
    }

    /// A run over `items` that has not started.
    pub fn new(items: Vec<WorkItem>, dry_run: bool, fail_fast: bool) -> (run: DownloadRun)
        ensures
            run@ == (RunState {
                items: views(items@),
                cursor: 0,
                phase: Phase::Ready,
                error: None,
                dry_run,
                fail_fast,
            }),
            run@.wf(),
    {
        DownloadRun { items, cursor: 0, phase: Phase::Ready, error: None, dry_run, fail_fast }
    }

    /// The work items of the run.
    pub fn items(&self) -> (items: &Vec<WorkItem>)
        ensures
            views(items@) == self@.items,
    {
        &self.items
    }

    /// Where the run stands.
    pub fn phase(&self) -> (phase: Phase)
        ensures
            phase == self@.phase,
    {
        self.phase
    }

    /// How many items are done.
    pub fn completed(&self) -> (count: usize)
        ensures
            count == self@.cursor,
    {
        self.cursor
    }

    fn turn_to(&mut self, cursor: usize) -> (action: Action)
        requires
            cursor <= old(self).items.len(),
            old(self).phase != Phase::Aborted,
            old(self).phase != Phase::Discarding,
        ensures
            (final(self)@, action@) == old(self)@.turn_to(cursor as int),
    {
        proof {
            use_type_invariant(&*self);
        }
        if cursor >= self.items.len() {
            self.phase = Phase::Finished;
            self.error = None;
            self.cursor = cursor;
            Action::Finish
        } else if self.dry_run {
            self.error = None;
            self.cursor = cursor;
            self.phase = Phase::Announcing;
            Action::Announce { index: cursor }
        } else {
            self.error = None;
            self.cursor = cursor;
            self.phase = Phase::Probing;
            Action::Probe { index: cursor }
        }
    }

    fn abort(&mut self, error: String) -> (action: Action)
        ensures
            (final(self)@, action@) == old(self)@.abort(error@),
    {
        proof {
            use_type_invariant(&*self);
        }
        self.error = Some(error.clone());
        self.phase = Phase::Aborted;
        Action::Abort { error }
    }

    fn stored_error(&self) -> (error: String)
        ensures
            self@.error is Some ==> error@ == self@.error->0,
    {
        match &self.error {
            Some(error) => error.clone(),
            None => String::new(),
        }
    }

    fn record_success(&mut self) -> (action: Action)
        requires
            old(self).cursor < old(self).items.len(),
            old(self).phase != Phase::Aborted,
            old(self).phase != Phase::Discarding,
        ensures
            (final(self)@, action@) == old(self)@.record(old(self)@.success(), None),
    {
        proof {
            use_type_invariant(&*self);
        }
        let item = &self.items[self.cursor];
        let update = StatusUpdate::Success {
            file_path: item.destination.clone(),
            file_path_pattern: item.pattern.clone(),
        };
        self.phase = Phase::Recording;
        self.error = None;
        Action::Record { index: self.cursor, update }
    }

    /// Takes the event that followed the last action and says what to do
    /// next.
    pub fn advance(&mut self, event: Event) -> (action: Action)
        ensures
            (final(self)@, action@) == old(self)@.step(event@),
            final(self)@.wf(),
    {
        proof {
            use_type_invariant(&*self);
        }
        let count: usize = self.items.len();
        assert(views(self.items@).len() == count);
        match self.phase {
            Phase::Finished => Action::Finish,
            Phase::Aborted => Action::Abort { error: self.stored_error() },
            Phase::Ready => match event {
                Event::Started => self.turn_to(self.cursor),
                _ => self.abort("unexpected event".to_owned()),
            },
            Phase::Announcing => match event {
                Event::Announced => self.turn_to(self.cursor + 1),
                _ => self.abort("unexpected event".to_owned()),
            },
            Phase::Probing => match event {
                Event::Exists(true) => self.record_success(),
                Event::Exists(false) => {
                    self.phase = Phase::Fetching;
                    Action::Fetch { index: self.cursor }
                },
                _ => self.abort("unexpected event".to_owned()),
            },
            Phase::Fetching => match event {
                Event::Fetched => self.record_success(),
                Event::FetchFailed { error } => {
                    self.error = Some(error);
                    self.phase = Phase::Discarding;
                    Action::Discard { index: self.cursor }
                },
                _ => self.abort("unexpected event".to_owned()),
            },
            Phase::Discarding => match event {
                Event::Discarded => {
                    let error = self.stored_error();
                    self.phase = Phase::Recording;
                    self.error = if self.fail_fast {
                        Some(error.clone())
                    } else {
                        None
                    };
                    Action::Record { index: self.cursor, update: StatusUpdate::Error { error } }
                },
                Event::DiscardFailed { error } => {
                    let failure = self.stored_error();
                    self.phase = Phase::Recording;
                    self.error = Some(error);
                    Action::Record {
                        index: self.cursor,
                        update: StatusUpdate::Error { error: failure },
                    }
                },
                _ => self.abort("unexpected event".to_owned()),
            },
            Phase::Recording => match event {
                Event::Recorded => {
                    if self.error.is_some() {
                        let error = self.stored_error();
                        self.abort(error)
                    } else {
                        self.turn_to(self.cursor + 1)
                    }
                },
                Event::StoreFailed { error } => self.abort(error),
                _ => self.abort("unexpected event".to_owned()),
            },
        }
    }
}

/// A step keeps a run well formed, keeps its items and its policy, and
/// never turns back to an earlier item.
pub proof fn lemma_step_wf(run: RunState, signal: Signal)
    requires
        run.wf(),
    ensures
        run.step(signal).0.wf(),
        run.step(signal).0.cursor >= run.cursor,
        run.step(signal).0.items == run.items,
        run.step(signal).0.dry_run == run.dry_run,
        run.step(signal).0.fail_fast == run.fail_fast,
{
}

/// A destination that is in place already is recorded as a success without
/// any fetch, and once the store has it the run turns to the next item.
pub proof fn lemma_existing_file_is_not_fetched(run: RunState)
    requires
        run.wf(),
        run.phase == Phase::Probing,
    ensures
        run.step(Signal::Exists(true)).1 == (Request::Record {
            index: run.cursor,
            outcome: run.success(),
        }),
        run.step(Signal::Exists(true)).0.step(Signal::Recorded) == run.turn_to(run.cursor + 1),
{
}

/// Fail-fast: after a failed fetch the remains of the file are removed and
/// the failure is recorded as an error, then the run aborts with the
/// fetch's error; whatever it is told afterwards, it asks for nothing but
/// to stop, so no further link is handled.
pub proof fn lemma_fail_fast_aborts(run: RunState, error: Seq<char>, later: Signal)
    requires
        run.wf(),
        run.phase == Phase::Fetching,
        run.fail_fast,
    ensures
        ({
            let (discarding, removal) = run.step(Signal::FetchFailed { error });
            let (recording, first) = discarding.step(Signal::Discarded);
            let (ended, second) = recording.step(Signal::Recorded);
            &&& removal == Request::Discard { index: run.cursor }
            &&& first == Request::Record { index: run.cursor, outcome: Outcome::Error { error } }
            &&& second == Request::Abort { error }
            &&& ended.phase == Phase::Aborted
            &&& ended.cursor == run.cursor
            &&& ended.step(later) == (ended, Request::Abort { error })
        }),
{
}

/// Without fail-fast: after a failed fetch the remains of the file are
/// removed and the failure is recorded as an error, then the run turns to
/// the next item as after a success, and a later item that is fetched is
/// recorded as a success.
pub proof fn lemma_run_goes_on_without_fail_fast(run: RunState, error: Seq<char>)
    requires
        run.wf(),
        run.phase == Phase::Fetching,
        !run.fail_fast,
        !run.dry_run,
    ensures
        ({
            let (discarding, removal) = run.step(Signal::FetchFailed { error });
            let (recording, first) = discarding.step(Signal::Discarded);
            let (next, second) = recording.step(Signal::Recorded);
            &&& removal == Request::Discard { index: run.cursor }
            &&& first == Request::Record { index: run.cursor, outcome: Outcome::Error { error } }
            &&& run.cursor + 1 < run.items.len() ==> {
                &&& second == Request::Probe { index: run.cursor + 1 }
                &&& next.step(Signal::Exists(false)).1 == Request::Fetch { index: run.cursor + 1 }
                &&& next.step(Signal::Exists(false)).0.step(Signal::Fetched).1
                    == Request::Record {
                    index: run.cursor + 1,
                    outcome: Outcome::Success {
                        file_path: run.items[run.cursor + 1].destination,
                        file_path_pattern: run.items[run.cursor + 1].pattern,
                    },
                }
            }
            &&& run.cursor + 1 >= run.items.len() ==> second == Request::Finish
        }),
{
}

/// A dry run asks for announcements only: it never probes, fetches or
/// records.
pub proof fn lemma_dry_run_changes_nothing(run: RunState, signal: Signal)
    requires
        run.wf(),
        run.dry_run,
        run.phase == Phase::Ready || run.phase == Phase::Announcing,
    ensures
        ({
            let (next, request) = run.step(signal);
            &&& request is Announce || request is Finish || request is Abort
            &&& next.phase == Phase::Announcing || next.phase == Phase::Finished || next.phase
                == Phase::Aborted
        }),
{
}

/// The files on disk after a request was carried out and `signal` came
/// back. A fetch that succeeds puts the file at the item's destination; one
/// that fails may leave anything there, which `left` stands for; a removal
/// that is done takes the destination away. Nothing else touches the disk.
pub open spec fn files_after(
    files: Set<Seq<char>>,
    items: Seq<Work>,
    request: Request,
    signal: Signal,
    left: bool,
) -> Set<Seq<char>> {
    match (request, signal) {
        (Request::Fetch { index }, Signal::Fetched) => files.insert(items[index].destination),
        (Request::Fetch { index }, Signal::FetchFailed { .. }) => if left {
            files.insert(items[index].destination)
        } else {
            files
        },
        (Request::Discard { index }, Signal::Discarded) => files.remove(
            items[index].destination,
        ),
        _ => files,
    }
}

/// A failed fetch leaves nothing that a later run could take for the file:
/// whatever the fetch left behind, once the remains are removed the
/// destination holds no file, and only then is the failure recorded.
pub proof fn lemma_failed_fetch_leaves_no_file(
    run: RunState,
    files: Set<Seq<char>>,
    error: Seq<char>,
    left: bool,
)
    requires
        run.wf(),
        run.phase == Phase::Fetching,
    ensures
        ({
            let fetch = Request::Fetch { index: run.cursor };
            let failed = Signal::FetchFailed { error };
            let after_fetch = files_after(files, run.items, fetch, failed, left);
            let (discarding, removal) = run.step(failed);
            let after_removal = files_after(
                after_fetch,
                run.items,
                removal,
                Signal::Discarded,
                left,
            );
            let (recording, record) = discarding.step(Signal::Discarded);
            &&& removal == Request::Discard { index: run.cursor }
            &&& !after_removal.contains(run.items[run.cursor].destination)
            &&& record == Request::Record { index: run.cursor, outcome: Outcome::Error { error } }
        }),
{
}

/// A fetch that succeeds puts the file in place before the success is
/// recorded, so a link is recorded as downloaded only with its file on disk.
pub proof fn lemma_success_is_recorded_with_file(run: RunState, files: Set<Seq<char>>)
    requires
        run.wf(),
        run.phase == Phase::Fetching,
    ensures
        ({
            let fetch = Request::Fetch { index: run.cursor };
            let after_fetch = files_after(files, run.items, fetch, Signal::Fetched, false);
            let (recording, record) = run.step(Signal::Fetched);
            &&& after_fetch.contains(run.items[run.cursor].destination)
            &&& record == Request::Record { index: run.cursor, outcome: run.success() }
            &&& run.success() == Outcome::Success {
                file_path: run.items[run.cursor].destination,
                file_path_pattern: run.items[run.cursor].pattern,
            }
        }),
{
}

/// The run after a series of signals, and the requests it made on the way.
pub open spec fn drive(run: RunState, signals: Seq<Signal>) -> (RunState, Seq<Request>)
    decreases signals.len(),
{
    if signals.len() == 0 {
        (run, Seq::empty())
    } else {
        let (before, requests) = drive(run, signals.drop_last());
        let (after, request) = before.step(signals.last());
        (after, requests.push(request))
    }
}

/// Whether the run has asked to fetch, or to record, the item in hand.
pub open spec fn touched(phase: Phase) -> bool {
    phase == Phase::Fetching || phase == Phase::Discarding || phase == Phase::Recording || phase
        == Phase::Aborted || phase == Phase::Finished
}

/// The item that a request concerns, if it is a fetch.
pub open spec fn fetch_index(request: Request) -> Option<int> {
    match request {
        Request::Fetch { index } => Some(index),
        _ => None,
    }
}

/// The item that a request concerns, if it records an outcome.
pub open spec fn record_index(request: Request) -> Option<int> {
    match request {
        Request::Record { index, .. } => Some(index),
        _ => None,
    }
}

/// Whether all fetches and records among the requests concern items before
/// `bound`.
pub open spec fn all_before(requests: Seq<Request>, bound: int) -> bool {
    forall|k: int|
        0 <= k < requests.len() ==> {
            &&& fetch_index(#[trigger] requests[k]) is Some ==> fetch_index(requests[k])->0 < bound
            &&& record_index(requests[k]) is Some ==> record_index(requests[k])->0 < bound
        }
}

/// Whether the items fetched grow strictly along the requests, and the
/// items recorded too.
pub open spec fn strictly_forward(requests: Seq<Request>) -> bool {
    forall|j: int, k: int|
        0 <= j < k < requests.len() ==> {
            &&& (fetch_index(#[trigger] requests[j]) is Some && fetch_index(
                #[trigger] requests[k],
            ) is Some) ==> fetch_index(requests[j])->0 < fetch_index(requests[k])->0
            &&& (record_index(requests[j]) is Some && record_index(requests[k]) is Some)
                ==> record_index(requests[j])->0 < record_index(requests[k])->0
        }
}

/// Within one run, whatever the caller reports, no link is fetched twice and
/// no link has two outcomes recorded: the fetches, and the records, concern
/// strictly later items each time.
pub proof fn lemma_one_outcome_per_link(items: Seq<Work>, dry_run: bool, fail_fast: bool, signals: Seq<
    Signal,
>)
    ensures
        strictly_forward(
            drive(
                RunState {
                    items,
                    cursor: 0,
                    phase: Phase::Ready,
                    error: None,
                    dry_run,
                    fail_fast,
                },
                signals,
            ).1,
        ),
{
    let fresh = RunState { items, cursor: 0, phase: Phase::Ready, error: None, dry_run, fail_fast };
    lemma_drive_forward(fresh, signals);
}

/// What holds of a run started fresh and of the requests it has made: it is
/// well formed; the requests go strictly forward; they concern the items up
/// to the one in hand; and the item in hand has been fetched at most once
/// and recorded at most once, which only a run past probing has done.
pub open spec fn on_course(run: RunState, requests: Seq<Request>) -> bool {
    &&& run.wf()
    &&& strictly_forward(requests)
    &&& all_before(requests, run.cursor + 1)
    &&& !touched(run.phase) ==> all_before(requests, run.cursor)
    &&& (run.phase == Phase::Fetching || run.phase == Phase::Discarding) ==> forall|k: int|
        0 <= k < requests.len() && record_index(#[trigger] requests[k]) is Some ==> record_index(
            requests[k],
        )->0 < run.cursor
}

proof fn lemma_drive_forward(fresh: RunState, signals: Seq<Signal>)
    requires
        fresh.wf(),
        fresh.phase == Phase::Ready,
    ensures
        on_course(drive(fresh, signals).0, drive(fresh, signals).1),
    decreases signals.len(),
{
    if signals.len() > 0 {
        lemma_drive_forward(fresh, signals.drop_last());
        let (before, requests) = drive(fresh, signals.drop_last());
        let (after, request) = before.step(signals.last());
        let extended = requests.push(request);
        assert(forall|k: int| 0 <= k < requests.len() ==> extended[k] == requests[k]);
        assert(extended[requests.len() as int] == request);
        if before.phase == Phase::Finished || before.phase == Phase::Aborted {
            assert(fetch_index(request) is None && record_index(request) is None);
        }
        assert(strictly_forward(extended));
        assert(on_course(after, extended));
    }
}

/// Posts whose links are all downloaded call for no work: a run over them
/// fetches nothing.
pub proof fn lemma_downloaded_posts_need_no_work(
    posts: Seq<PostValue>,
    patterns: Patterns,
    base_dir: Seq<char>,
)
    requires
        forall|p: int, l: int|
            0 <= p < posts.len() && 0 <= l < posts[p].links.len() ==> !(
            #[trigger] posts[p].links[l]).needs_download(),
    ensures
        all_work(posts, patterns, base_dir) == Seq::<Work>::empty(),
    decreases posts.len(),
{
    if posts.len() > 0 {
        lemma_downloaded_posts_need_no_work(posts.drop_last(), patterns, base_dir);
        let post = posts.last();
        let pick = |link: LinkState| work_for(post, link, patterns, base_dir);
        lemma_filter_map_none(post.links, pick);
        assert(post_work(post, patterns, base_dir) =~= Seq::<Work>::empty());
    }
}

proof fn lemma_filter_map_none<A, B>(s: Seq<A>, f: spec_fn(A) -> Option<B>)
    requires
        forall|i: int| 0 <= i < s.len() ==> f(#[trigger] s[i]) is None,
    ensures
        s.filter_map(f) == Seq::<B>::empty(),
    decreases s.len(),
{
    if s.len() > 0 {
        lemma_filter_map_none(s.drop_last(), f);
    }
}

/// The program that fetches videos.
pub const FETCHER: &'static str = "yt-dlp";

/// One header of a request.
#[derive(Debug)]
pub struct Header {
    pub name: String,
    pub value: String,
}

impl View for Header {
    type V = (Seq<char>, Seq<char>);

    open spec fn view(&self) -> (Seq<char>, Seq<char>) {
        (self.name@, self.value@)
    }
}

/// How to fetch a work item.
#[derive(Debug)]
pub enum FetchPlan {
    /// Run the fetcher program in `directory` with these arguments.
    Video { directory: String, arguments: Vec<String> },
    /// Get `url` with these headers and stream the body to the destination,
    /// which lies in `directory`.
    Image { directory: String, url: String, headers: Vec<Header> },
}

/// The mathematical value of a fetch plan.
pub enum Strategy {
    Video { directory: Seq<char>, arguments: Seq<Seq<char>> },
    Image { directory: Seq<char>, url: Seq<char>, headers: Seq<(Seq<char>, Seq<char>)> },
}

impl View for FetchPlan {
    type V = Strategy;

    open spec fn view(&self) -> Strategy {
        match *self {
            FetchPlan::Video { directory, arguments } => Strategy::Video {
                directory: directory@,
                arguments: arguments.deep_view(),
            },
            FetchPlan::Image { directory, url, headers } => Strategy::Image {
                directory: directory@,
                url: url@,
                headers: headers@.map_values(|header: Header| header@),
            },
        }
    }
}

/// The headers that identify the user: the session's cookie, the user
/// agent, and the creator's profile page as referer.
pub open spec fn identity_headers(cookie: Seq<char>, creator_name: Seq<char>) -> Seq<
    (Seq<char>, Seq<char>),
> {
    seq![
        ("Cookie"@, cookie),
        ("User-Agent"@, USER_AGENT@),
        ("Referer"@, profile_address(creator_name)),
    ]
}

/// How a work item is fetched, by the type of its post: a video by the
/// fetcher program, an image by a request with the identity headers. The
/// directory of the destination is made first in either case, so an item
/// whose destination has none, or a video whose destination has no file
/// name, cannot be fetched.
pub open spec fn strategy(item: Work, cookie: Seq<char>, creator_name: Seq<char>) -> Option<
    Strategy,
> {
    match item.directory {
        None => None,
        Some(directory) => match item.post_type {
            PostType::Video => match item.file_name {
                None => None,
                Some(file_name) => Some(
                    Strategy::Video {
                        directory,
                        arguments: fetcher_arguments(cookie, creator_name, item.url, file_name),
                    },
                ),
            },
            PostType::Image => Some(
                Strategy::Image {
                    directory,
                    url: media_address(item.url),
                    headers: identity_headers(cookie, creator_name),
                },
            ),
        },
    }
}

/// The mathematical value of an optional fetch plan.
pub open spec fn opt_strategy(plan: Option<FetchPlan>) -> Option<Strategy> {
    match plan {
        Some(plan) => Some(plan@),
        None => None,
    }
}

/// Says how to fetch a work item.
pub fn plan_fetch(item: &WorkItem, cookie: &str, creator_name: &str) -> (plan: Option<FetchPlan>)
    ensures
        opt_strategy(plan) == strategy(item@, cookie@, creator_name@),
{
    let directory = match &item.directory {
        Some(directory) => directory.clone(),
        None => {
            return None;
        },
    };
    match item.post_type {
        PostType::Video => match &item.file_name {
            Some(file_name) => Some(
                FetchPlan::Video {
                    directory,
                    arguments: video_fetch_arguments(
                        cookie,
                        creator_name,
                        item.url.as_str(),
                        file_name.as_str(),
                    ),
                },
            ),
            None => None,
        },
        PostType::Image => {
            let mut headers: Vec<Header> = Vec::new();
            headers.push(Header { name: "Cookie".to_owned(), value: cookie.to_owned() });
            headers.push(Header { name: "User-Agent".to_owned(), value: USER_AGENT.to_owned() });
            headers.push(Header { name: "Referer".to_owned(), value: referer(creator_name) });
            let plan = FetchPlan::Image { directory, url: media_url(item.url.as_str()), headers };
            assert(plan@->Image_headers =~= identity_headers(cookie@, creator_name@));
            Some(plan)
        },
    }
}

/// The URL of a link's media: the link's path under the origin.
pub open spec fn media_address(link_url: Seq<char>) -> Seq<char> {
    BASE_URL@ + link_url
}

/// The URL of a link's media.
pub fn media_url(link_url: &str) -> (url: String)
    ensures
        url@ == media_address(link_url@),
{
    BASE_URL.to_owned().concat(link_url)
}

/// The creator's profile page, sent as the referer.
pub open spec fn profile_address(creator_name: Seq<char>) -> Seq<char> {
    "https://hutt.co/"@ + creator_name
}

/// The creator's profile page.
pub fn referer(creator_name: &str) -> (url: String)
    ensures
        url@ == profile_address(creator_name@),
{
    "https://hutt.co/".to_owned().concat(creator_name)
}

/// The arguments of the external video fetcher for one link: the three
/// identity headers; three fragments in parallel, three retries, 120
/// seconds between retries; the output file name; the media URL.
pub open spec fn fetcher_arguments(
    cookie: Seq<char>,
    creator_name: Seq<char>,
    link_url: Seq<char>,
    file_name: Seq<char>,
) -> Seq<Seq<char>> {
    seq![
        "--add-header"@,
        "Cookie: "@ + cookie,
        "--add-header"@,
        "User-Agent: "@ + USER_AGENT@,
        "--add-header"@,
        "Referer: "@ + profile_address(creator_name),
        "-N"@,
        "3"@,
        "-R"@,
        "3"@,
        "--retry-sleep"@,
        "120"@,
        "-o"@,
        file_name,
        media_address(link_url),
    ]
}

/// Builds the arguments of the external video fetcher for one link.
pub fn video_fetch_arguments(
    cookie: &str,
    creator_name: &str,
    link_url: &str,
    file_name: &str,
) -> (arguments: Vec<String>)
    ensures
        arguments.deep_view() == fetcher_arguments(
            cookie@,
            creator_name@,
            link_url@,
            file_name@,
        ),
{
    let mut arguments: Vec<String> = Vec::new();
    arguments.push("--add-header".to_owned());
    arguments.push("Cookie: ".to_owned().concat(cookie));
    arguments.push("--add-header".to_owned());
    arguments.push("User-Agent: ".to_owned().concat(USER_AGENT));
    arguments.push("--add-header".to_owned());
    arguments.push("Referer: ".to_owned().concat(referer(creator_name).as_str()));
    arguments.push("-N".to_owned());
    arguments.push("3".to_owned());
    arguments.push("-R".to_owned());
    arguments.push("3".to_owned());
    arguments.push("--retry-sleep".to_owned());
    arguments.push("120".to_owned());
    arguments.push("-o".to_owned());
    arguments.push(file_name.to_owned());
    arguments.push(media_url(link_url));
    assert(arguments.deep_view() =~= fetcher_arguments(
        cookie@,
        creator_name@,
        link_url@,
        file_name@,
    ));
    arguments
}

} // verus!
