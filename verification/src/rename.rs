//! The rename run: moving downloaded files to where the current patterns
//! put them, without the files and the store ever disagreeing.
//!
//! Like the download run, the rename run is a state machine that the caller
//! drives. For each file it asks to create the destination's directory, to
//! move the file, and to update the store. Should the store fail, it asks
//! to move the file back before it ends with the store's error.

use vstd::prelude::*;
use crate::config::{FilenamePatterns, Patterns};
use crate::filenames::{get_download_path, resolved};
use crate::model::{opt_text, post_values, LinkState, LinkStatus, Post, PostValue};
use crate::paths::{parent_of, path_parent, same_location, same_path};

verus! {

broadcast use vstd::string::group_string_axioms;

/// One file to move.
#[derive(Debug)]
pub struct RenameItem {
    pub link_id: i64,
    pub current_path: String,
    pub new_path: String,
    /// The directory of the new path, where it has one.
    pub directory: Option<String>,
    pub pattern: String,
}

/// The mathematical value of a rename item.
pub struct Relocation {
    pub link_id: int,
    pub current_path: Seq<char>,
    pub new_path: Seq<char>,
    pub directory: Option<Seq<char>>,
    pub pattern: Seq<char>,
}

impl View for RenameItem {
    type V = Relocation;

    open spec fn view(&self) -> Relocation {
        Relocation {
            link_id: self.link_id as int,
            current_path: self.current_path@,
            new_path: self.new_path@,
            directory: opt_text(self.directory),
            pattern: self.pattern@,
        }
    }
}

/// The values of a list of rename items.
pub open spec fn views(items: Seq<RenameItem>) -> Seq<Relocation> {
    items.map_values(|item: RenameItem| item@)
}

/// The move that a link calls for: one for a downloaded link whose recorded
/// path is not the path that the pattern of its post's type resolves to
/// now, none for any other link.
pub open spec fn move_for(
    post: PostValue,
    link: LinkState,
    patterns: Patterns,
    base_dir: Seq<char>,
) -> Option<Relocation> {
    let target = resolved(post, link.id, patterns.of(post.post_type), base_dir);
    if link.status == LinkStatus::Downloaded && link.file_path is Some && !same_location(
        link.file_path->0,
        target,
    ) {
        Some(
            Relocation {
                link_id: link.id,
                current_path: link.file_path->0,
                new_path: target,
                directory: parent_of(target),
                pattern: patterns.of(post.post_type),
            },
        )
    } else {
        None
    }
}

/// The moves that the links of one post call for, in the order of the links.
pub open spec fn post_moves(post: PostValue, patterns: Patterns, base_dir: Seq<char>) -> Seq<
    Relocation,
> {
    post.links.filter_map(|link: LinkState| move_for(post, link, patterns, base_dir))
}

/// The moves that all posts call for, post by post.
pub open spec fn all_moves(posts: Seq<PostValue>, patterns: Patterns, base_dir: Seq<char>) -> Seq<
    Relocation,
>
    decreases posts.len(),
{
    if posts.len() == 0 {
        Seq::empty()
    } else {
        all_moves(posts.drop_last(), patterns, base_dir) + post_moves(
            posts.last(),
            patterns,
            base_dir,
        )
    }
}

/// Finds every downloaded file that the current patterns put elsewhere.
pub fn plan_renames(posts: &Vec<Post>, patterns: &FilenamePatterns, base_dir: &str) -> (items: Vec<
    RenameItem,
>)
    ensures
        views(items@) == all_moves(post_values(posts@), patterns@, base_dir@),
{
    let ghost all = post_values(posts@);
    let mut items: Vec<RenameItem> = Vec::new();
    let mut p: usize = 0;
    assert(views(items@) =~= Seq::<Relocation>::empty());
    while p < posts.len()
        invariant
            p <= posts.len(),
            all == post_values(posts@),
            views(items@) == all_moves(all.take(p as int), patterns@, base_dir@),
        decreases posts.len() - p,
    {
        let post = &posts[p];
        let pattern = patterns.pattern(post.post_type);
        let ghost done = views(items@);
        let ghost pick = |link: LinkState| move_for(post@, link, patterns@, base_dir@);
        let mut l: usize = 0;
        while l < post.links.len()
            invariant
                l <= post.links.len(),
                post == &posts@[p as int],
                pattern@ == patterns@.of(post.post_type),
                pick == |link: LinkState| move_for(post@, link, patterns@, base_dir@),
                views(items@) == done + post@.links.take(l as int).filter_map(pick),
            decreases post.links.len() - l,
        {
            let link = &post.links[l];
            let ghost before = views(items@);
            proof {
                post@.links.lemma_filter_map_take_succ(pick, l as int);
                assert(post@.links[l as int] == link@);
            }
            if link.status == LinkStatus::Downloaded {
                match &link.file_path {
                    Some(current) => {
                        let target = get_download_path(post, link.id, pattern, base_dir);
                        if !same_path(current.as_str(), target.as_str()) {
                            let directory = path_parent(target.as_str());
                            let item = RenameItem {
                                link_id: link.id,
                                current_path: current.clone(),
                                new_path: target,
                                directory,
                                pattern: pattern.to_owned(),
                            };
                            items.push(item);
                            assert(views(items@) =~= before.push(item@));
                        }
                    },
                    None => {},
                }
            }
            l += 1;
        }
        proof {
            assert(post@.links.take(post.links.len() as int) =~= post@.links);
            assert(all.take(p + 1).drop_last() =~= all.take(p as int));
            assert(all.take(p + 1).last() == post@);
        }
        p += 1;
    }
    assert(all.take(posts.len() as int) =~= all);
    items
}

/// Where a rename run stands.
#[derive(Debug, Clone, Copy, PartialEq, Eq, Structural)]
pub enum RenamePhase {
    /// Not started yet.
    Ready,
    /// Waiting to hear whether the file is where the store has it.
    Probing,
    /// Waiting to hear about a dry-run announcement.
    Announcing,
    /// Waiting for the destination's directory.
    CreatingParent,
    /// Waiting for the file to move.
    Moving,
    /// Waiting for the store to take the new path.
    Updating,
    /// Waiting for the file to move back.
    RollingBack,
    /// Waiting for the empty directories to go.
    Cleaning,
    /// All files handled.
    Finished,
    /// Ended early with an error.
    Aborted,
}

/// What the caller reports to a rename run.
#[derive(Debug)]
pub enum RenameEvent {
    /// The caller is ready to begin.
    Started,
    /// Whether the file is at its recorded path.
    Exists(bool),
    /// The intended move was announced.
    Announced,
    /// The action was carried out.
    Done,
    /// The action failed and changed nothing.
    Failed { error: String },
}

/// What a rename run asks the caller to do. `index` counts the rename
/// items.
#[derive(Debug)]
pub enum RenameAction {
    /// Find out whether the item's current path is a regular file.
    Probe { index: usize },
    /// Dry run: say from where to where the file would move.
    Announce { index: usize },
    /// Create the directory of the item's new path.
    CreateParent { index: usize },
    /// Move the file from the current path to the new path.
    Move { index: usize },
    /// Write the new path and its pattern to the store.
    UpdatePath { index: usize },
    /// Move the file from the new path back to the current path.
    MoveBack { index: usize },
    /// Remove the directories left empty under the base directory.
    CleanUp,
    /// Nothing is left to do.
    Finish,
    /// Stop: the run failed with this error.
    Abort { error: String },
}

/// The mathematical value of a rename event.
pub enum RenameSignal {
    Started,
    Exists(bool),
    Announced,
    Done,
    Failed { error: Seq<char> },
}

/// The mathematical value of a rename action.
pub enum RenameRequest {
    Probe { index: int },
    Announce { index: int },
    CreateParent { index: int },
    Move { index: int },
    UpdatePath { index: int },
    MoveBack { index: int },
    CleanUp,
    Finish,
    Abort { error: Seq<char> },
}

impl View for RenameEvent {
    type V = RenameSignal;

    open spec fn view(&self) -> RenameSignal {
        match *self {
            RenameEvent::Started => RenameSignal::Started,
            RenameEvent::Exists(found) => RenameSignal::Exists(found),
            RenameEvent::Announced => RenameSignal::Announced,
            RenameEvent::Done => RenameSignal::Done,
            RenameEvent::Failed { error } => RenameSignal::Failed { error: error@ },
        }
    }
}

impl View for RenameAction {
    type V = RenameRequest;

    open spec fn view(&self) -> RenameRequest {
        match *self {
            RenameAction::Probe { index } => RenameRequest::Probe { index: index as int },
            RenameAction::Announce { index } => RenameRequest::Announce { index: index as int },
            RenameAction::CreateParent { index } => RenameRequest::CreateParent {
                index: index as int,
            },
            RenameAction::Move { index } => RenameRequest::Move { index: index as int },
            RenameAction::UpdatePath { index } => RenameRequest::UpdatePath {
                index: index as int,
            },
            RenameAction::MoveBack { index } => RenameRequest::MoveBack { index: index as int },
            RenameAction::CleanUp => RenameRequest::CleanUp,
            RenameAction::Finish => RenameRequest::Finish,
            RenameAction::Abort { error } => RenameRequest::Abort { error: error@ },
        }
    }
}

/// The mathematical value of a rename run.
pub struct RenameState {
    pub items: Seq<Relocation>,
    /// The item in hand; all before it are done.
    pub cursor: int,
    pub phase: RenamePhase,
    /// While rolling back: the store's error. After an abort: the error the
    /// run ended with.
    pub error: Option<Seq<char>>,
    pub dry_run: bool,
}

/// The error of a run that was told of something it had not asked for.
pub open spec fn unexpected() -> Seq<char> {
    "unexpected event"@
}

/// The error of a run that is to move a file to a path without directory.
pub open spec fn no_directory() -> Seq<char> {
    "destination has no parent directory"@
}

impl RenameState {
    /// Whether the run waits for news of the item in hand.
    pub open spec fn busy(self) -> bool {
        self.phase == RenamePhase::Probing || self.phase == RenamePhase::Announcing || self.phase
            == RenamePhase::CreatingParent || self.phase == RenamePhase::Moving || self.phase
            == RenamePhase::Updating || self.phase == RenamePhase::RollingBack
    }

    /// A run never points past its items; while it waits for news of an item
    /// it points at one; and it knows the error it rolls back for or ended
    /// with.
    pub open spec fn wf(self) -> bool {
        &&& 0 <= self.cursor <= self.items.len()
        &&& self.busy() ==> self.cursor < self.items.len()
        &&& (self.phase == RenamePhase::Aborted || self.phase == RenamePhase::RollingBack)
            ==> self.error is Some
    }

    /// Turns to the item at `cursor`. After the last item a dry run is
    /// finished, and any other run asks for the empty directories to be
    /// removed.
    pub open spec fn turn_to(self, cursor: int) -> (RenameState, RenameRequest) {
        if cursor < self.items.len() {
            (
                RenameState { cursor, phase: RenamePhase::Probing, error: None, ..self },
                RenameRequest::Probe { index: cursor },
            )
        } else if self.dry_run {
            (
                RenameState { cursor, phase: RenamePhase::Finished, error: None, ..self },
                RenameRequest::Finish,
            )
        } else {
            (
                RenameState { cursor, phase: RenamePhase::Cleaning, error: None, ..self },
                RenameRequest::CleanUp,
            )
        }
    }

    /// Ends the run with `error`.
    pub open spec fn abort(self, error: Seq<char>) -> (RenameState, RenameRequest) {
        (
            RenameState { phase: RenamePhase::Aborted, error: Some(error), ..self },
            RenameRequest::Abort { error },
        )
    }

    /// Goes on to `phase` for the item in hand.
    pub open spec fn go(self, phase: RenamePhase) -> RenameState {
        RenameState { phase, ..self }
    }

    /// The run after `signal`, and what it asks for next.
    ///
    /// A file that is not where the store has it is passed over. A file
    /// that is there is moved in three steps: its new directory is made, the
    /// file is moved, the store is updated. A failure of the first two ends
    /// the run, and so does a new path that has no directory. A failure of the store makes the run ask for the file to be
    /// moved back; then it ends with the store's error, or with the error of
    /// the move back should that fail too. A dry run only announces the
    /// moves and removes no directories.
    pub open spec fn step(self, signal: RenameSignal) -> (RenameState, RenameRequest) {
        match self.phase {
            RenamePhase::Finished => (self, RenameRequest::Finish),
            RenamePhase::Aborted => (self, RenameRequest::Abort { error: self.error->0 }),
            RenamePhase::Ready => match signal {
                RenameSignal::Started => self.turn_to(self.cursor),
                _ => self.abort(unexpected()),
            },
            RenamePhase::Probing => match signal {
                RenameSignal::Exists(false) => self.turn_to(self.cursor + 1),
                RenameSignal::Exists(true) => if self.dry_run {
                    (
                        self.go(RenamePhase::Announcing),
                        RenameRequest::Announce { index: self.cursor },
                    )
                } else if self.items[self.cursor].directory is None {
                    self.abort(no_directory())
                } else {
                    (
                        self.go(RenamePhase::CreatingParent),
                        RenameRequest::CreateParent { index: self.cursor },
                    )
                },
                _ => self.abort(unexpected()),
            },
            RenamePhase::Announcing => match signal {
                RenameSignal::Announced => self.turn_to(self.cursor + 1),
                _ => self.abort(unexpected()),
            },
            RenamePhase::CreatingParent => match signal {
                RenameSignal::Done => (
                    self.go(RenamePhase::Moving),
                    RenameRequest::Move { index: self.cursor },
                ),
                RenameSignal::Failed { error } => self.abort(error),
                _ => self.abort(unexpected()),
            },
            RenamePhase::Moving => match signal {
                RenameSignal::Done => (
                    self.go(RenamePhase::Updating),
                    RenameRequest::UpdatePath { index: self.cursor },
                ),
                RenameSignal::Failed { error } => self.abort(error),
                _ => self.abort(unexpected()),
            },
            RenamePhase::Updating => match signal {
                RenameSignal::Done => self.turn_to(self.cursor + 1),
                RenameSignal::Failed { error } => (
                    RenameState { phase: RenamePhase::RollingBack, error: Some(error), ..self },
                    RenameRequest::MoveBack { index: self.cursor },
                ),
                _ => self.abort(unexpected()),
            },
            RenamePhase::RollingBack => match signal {
                RenameSignal::Done => self.abort(self.error->0),
                RenameSignal::Failed { error } => self.abort(error),
                _ => self.abort(unexpected()),
            },
            RenamePhase::Cleaning => match signal {
                RenameSignal::Done => (self.go(RenamePhase::Finished), RenameRequest::Finish),
                RenameSignal::Failed { error } => self.abort(error),
                _ => self.abort(unexpected()),
            },
        }
    }
}

/// A rename run over a list of rename items.
#[derive(Debug)]
pub struct RenameRun {
    items: Vec<RenameItem>,
    cursor: usize,
    phase: RenamePhase,
    error: Option<String>,
    dry_run: bool,
}

impl View for RenameRun {
    type V = RenameState;

    closed spec fn view(&self) -> RenameState {
        RenameState {
            items: views(self.items@),
            cursor: self.cursor as int,
            phase: self.phase,
            error: opt_text(self.error),
            dry_run: self.dry_run,
        }
    }
}

impl RenameRun {
    #[verifier::type_invariant]
    spec fn well_formed(self) -> bool {
        self@.wf()
    }

    /// A run over `items` that has not started.
    pub fn new(items: Vec<RenameItem>, dry_run: bool) -> (run: RenameRun)
        ensures
            run@ == (RenameState {
                items: views(items@),
                cursor: 0,
                phase: RenamePhase::Ready,
                error: None,
                dry_run,
            }),
            run@.wf(),
    {
        RenameRun { items, cursor: 0, phase: RenamePhase::Ready, error: None, dry_run }
    }

    /// The rename items of the run.
    pub fn items(&self) -> (items: &Vec<RenameItem>)
        ensures
            views(items@) == self@.items,
    {
        &self.items
    }

    /// Where the run stands.
    pub fn phase(&self) -> (phase: RenamePhase)
        ensures
            phase == self@.phase,
    {
        self.phase
    }

    /// How many items are done.
    pub fn completed(&self) -> (count: usize)
        ensures
            count == self@.cursor,
    {
        self.cursor
    }

    fn turn_to(&mut self, cursor: usize) -> (action: RenameAction)
        requires
            cursor <= old(self).items.len(),
            old(self).phase != RenamePhase::Aborted,
            old(self).phase != RenamePhase::RollingBack,
        ensures
            (final(self)@, action@) == old(self)@.turn_to(cursor as int),
    {
        proof {
            use_type_invariant(&*self);
        }
        if cursor < self.items.len() {
            self.error = None;
            self.cursor = cursor;
            self.phase = RenamePhase::Probing;
            RenameAction::Probe { index: cursor }
        } else if self.dry_run {
            self.phase = RenamePhase::Finished;
            self.error = None;
            self.cursor = cursor;
            RenameAction::Finish
        } else {
            self.phase = RenamePhase::Cleaning;
            self.error = None;
            self.cursor = cursor;
            RenameAction::CleanUp
        }
    }

    fn abort(&mut self, error: String) -> (action: RenameAction)
        ensures
            (final(self)@, action@) == old(self)@.abort(error@),
    {
        proof {
            use_type_invariant(&*self);
        }
        self.error = Some(error.clone());
        self.phase = RenamePhase::Aborted;
        RenameAction::Abort { error }
    }

    fn stored_error(&self) -> (error: String)
        ensures
            self@.error is Some ==> error@ == self@.error->0,
    {
        match &self.error {
            Some(error) => error.clone(),
            None => String::new(),
        }
    }

    /// Takes the event that followed the last action and says what to do
    /// next.
    pub fn advance(&mut self, event: RenameEvent) -> (action: RenameAction)
        ensures
            (final(self)@, action@) == old(self)@.step(event@),
            final(self)@.wf(),
    {
        proof {
            use_type_invariant(&*self);
        }
        let count: usize = self.items.len();
        assert(views(self.items@).len() == count);
        match self.phase {
            RenamePhase::Finished => RenameAction::Finish,
            RenamePhase::Aborted => RenameAction::Abort { error: self.stored_error() },
            RenamePhase::Ready => match event {
                RenameEvent::Started => self.turn_to(self.cursor),
                _ => self.abort("unexpected event".to_owned()),
            },
            RenamePhase::Probing => match event {
                RenameEvent::Exists(false) => self.turn_to(self.cursor + 1),
                RenameEvent::Exists(true) => {
                    if self.dry_run {
                        self.phase = RenamePhase::Announcing;
                        RenameAction::Announce { index: self.cursor }
                    } else if self.items[self.cursor].directory.is_none() {
                        self.abort("destination has no parent directory".to_owned())
                    } else {
                        self.phase = RenamePhase::CreatingParent;
                        RenameAction::CreateParent { index: self.cursor }
                    }
                },
                _ => self.abort("unexpected event".to_owned()),
            },
            RenamePhase::Announcing => match event {
                RenameEvent::Announced => self.turn_to(self.cursor + 1),
                _ => self.abort("unexpected event".to_owned()),
            },
            RenamePhase::CreatingParent => match event {
                RenameEvent::Done => {
                    self.phase = RenamePhase::Moving;
                    RenameAction::Move { index: self.cursor }
                },
                RenameEvent::Failed { error } => self.abort(error),
                _ => self.abort("unexpected event".to_owned()),
            },
            RenamePhase::Moving => match event {
                RenameEvent::Done => {
                    self.phase = RenamePhase::Updating;
                    RenameAction::UpdatePath { index: self.cursor }
                },
                RenameEvent::Failed { error } => self.abort(error),
                _ => self.abort("unexpected event".to_owned()),
            },
            RenamePhase::Updating => match event {
                RenameEvent::Done => self.turn_to(self.cursor + 1),
                RenameEvent::Failed { error } => {
                    self.error = Some(error);
                    self.phase = RenamePhase::RollingBack;
                    RenameAction::MoveBack { index: self.cursor }
                },
                _ => self.abort("unexpected event".to_owned()),
            },
            RenamePhase::RollingBack => match event {
                RenameEvent::Done => {
                    let error = self.stored_error();
                    self.abort(error)
                },
                RenameEvent::Failed { error } => self.abort(error),
                _ => self.abort("unexpected event".to_owned()),
            },
            RenamePhase::Cleaning => match event {
                RenameEvent::Done => {
                    self.phase = RenamePhase::Finished;
                    RenameAction::Finish
                },
                RenameEvent::Failed { error } => self.abort(error),
                _ => self.abort("unexpected event".to_owned()),
            },
        }
    }
}

/// What a rename run acts on: the files on disk, and the links in the store
/// by their ids.
pub struct World {
    pub files: Set<Seq<char>>,
    pub links: Map<int, LinkState>,
}

/// The world after a request was carried out and `signal` came back.
/// A move that is done takes the file from one path to the other; an update
/// that is done re-stamps the link; nothing else, and no failure, changes
/// anything.
pub open spec fn effect(
    world: World,
    items: Seq<Relocation>,
    request: RenameRequest,
    signal: RenameSignal,
) -> World {
    if signal is Done {
        match request {
            RenameRequest::Move { index } => World {
                files: world.files.remove(items[index].current_path).insert(
                    items[index].new_path,
                ),
                ..world
            },
            RenameRequest::MoveBack { index } => World {
                files: world.files.remove(items[index].new_path).insert(
                    items[index].current_path,
                ),
                ..world
            },
            RenameRequest::UpdatePath { index } => World {
                links: world.links.insert(
                    items[index].link_id,
                    world.links[items[index].link_id].relocate(
                        items[index].new_path,
                        items[index].pattern,
                    ),
                ),
                ..world
            },
            _ => world,
        }
    } else {
        world
    }
}

/// Whether files and store agree on a link: the file is at the recorded
/// path.
pub open spec fn agree(world: World, link_id: int) -> bool {
    world.links.dom().contains(link_id) && world.links[link_id].file_path is Some
        && world.files.contains(world.links[link_id].file_path->0)
}

/// A step keeps a rename run well formed, keeps its items and never turns
/// back to an earlier item.
pub proof fn lemma_step_wf(run: RenameState, signal: RenameSignal)
    requires
        run.wf(),
    ensures
        run.step(signal).0.wf(),
        run.step(signal).0.cursor >= run.cursor,
        run.step(signal).0.items == run.items,
        run.step(signal).0.dry_run == run.dry_run,
{
}

/// Rollback: when the store fails after the file has moved, the run asks for
/// the file to be moved back and then ends with the store's error; once
/// that is done the file is at its original path again and the link is as
/// it was, so files and store agree as before.
pub proof fn lemma_failed_update_is_rolled_back(
    run: RenameState,
    world: World,
    error: Seq<char>,
)
    requires
        run.wf(),
        run.phase == RenamePhase::Moving,
        world.files.contains(run.items[run.cursor].current_path),
        !world.files.contains(run.items[run.cursor].new_path),
    ensures
        ({
            let item = run.items[run.cursor];
            let moved = effect(
                world,
                run.items,
                RenameRequest::Move { index: run.cursor },
                RenameSignal::Done,
            );
            let (updating, update) = run.step(RenameSignal::Done);
            let failed = effect(moved, run.items, update, RenameSignal::Failed { error });
            let (rolling, back) = updating.step(RenameSignal::Failed { error });
            let restored = effect(failed, run.items, back, RenameSignal::Done);
            let (ended, last) = rolling.step(RenameSignal::Done);
            &&& update == RenameRequest::UpdatePath { index: run.cursor }
            &&& back == RenameRequest::MoveBack { index: run.cursor }
            &&& last == RenameRequest::Abort { error }
            &&& ended.phase == RenamePhase::Aborted
            &&& restored.files == world.files
            &&& restored.links == world.links
            &&& restored.files.contains(item.current_path)
            &&& !restored.files.contains(item.new_path)
        }),
{
    let item = run.items[run.cursor];
    let moved = world.files.remove(item.current_path).insert(item.new_path);
    assert(moved.remove(item.new_path).insert(item.current_path) =~= world.files);
}

/// A rename that goes through: once the directory is made, the file moved
/// and the store updated, the file is at the new path, the link records the
/// new path and its pattern, and files and store agree.
pub proof fn lemma_completed_rename_agrees(run: RenameState, world: World)
    requires
        run.wf(),
        run.phase == RenamePhase::CreatingParent,
        world.links.dom().contains(run.items[run.cursor].link_id),
        world.links[run.items[run.cursor].link_id].status == LinkStatus::Downloaded,
        world.links[run.items[run.cursor].link_id].consistent(),
    ensures
        ({
            let item = run.items[run.cursor];
            let (moving, first) = run.step(RenameSignal::Done);
            let moved = effect(world, run.items, first, RenameSignal::Done);
            let (updating, second) = moving.step(RenameSignal::Done);
            let updated = effect(moved, run.items, second, RenameSignal::Done);
            let (next, third) = updating.step(RenameSignal::Done);
            &&& first == RenameRequest::Move { index: run.cursor }
            &&& second == RenameRequest::UpdatePath { index: run.cursor }
            &&& (next, third) == run.turn_to(run.cursor + 1)
            &&& updated.files.contains(item.new_path)
            &&& updated.links[item.link_id].file_path == Some(item.new_path)
            &&& updated.links[item.link_id].file_path_pattern == Some(item.pattern)
            &&& updated.links[item.link_id].consistent()
            &&& agree(updated, item.link_id)
        }),
{
}

/// A dry run moves nothing and updates nothing: it probes and announces.
pub proof fn lemma_dry_run_changes_nothing(run: RenameState, signal: RenameSignal, world: World)
    requires
        run.wf(),
        run.dry_run,
        run.phase == RenamePhase::Ready || run.phase == RenamePhase::Probing || run.phase
            == RenamePhase::Announcing,
    ensures
        ({
            let (next, request) = run.step(signal);
            &&& request is Probe || request is Announce || request is Finish || request is Abort
            &&& next.phase == RenamePhase::Probing || next.phase == RenamePhase::Announcing
                || next.phase == RenamePhase::Finished || next.phase == RenamePhase::Aborted
            &&& forall|answer: RenameSignal| effect(world, run.items, request, answer) == world
        }),
{
}

} // verus!
