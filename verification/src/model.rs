//! Posts, their links and the per-link status state machine.
//!
//! A link starts `Pending`, becomes `Downloaded` when its file is in place
//! and `Error` when fetching it failed. A link holds a file path exactly
//! while it is `Downloaded`; every transition below keeps it that way.

use vstd::prelude::*;
use crate::text::equal;

verus! {

broadcast use vstd::string::group_string_axioms;

/// Where a link was found in a post's markup. Informational only.
#[derive(Debug, Clone, Copy, PartialEq, Eq, Structural)]
pub enum LinkSource {
    ImageGallery,
    VideoPost,
    HtmlString,
}

/// The download status of a link.
#[derive(Debug, Clone, Copy, PartialEq, Eq, Structural)]
pub enum LinkStatus {
    Pending,
    Downloaded,
    Error,
}

/// The kind of media a post holds. It fixes the fetch strategy and the file
/// extension of all the post's links.
#[derive(Debug, Clone, Copy, PartialEq, Eq, Hash, Structural)]
pub enum PostType {
    Video,
    Image,
}

/// A calendar date, as year, month (1 to 12) and day of the month.
#[derive(Debug, Clone, Copy, PartialEq, Eq, Structural)]
pub struct PostDate {
    pub year: i32,
    pub month: u32,
    pub day: u32,
}

/// One fetchable media asset of a post.
#[derive(Debug, Clone)]
pub struct PostLink {
    pub id: i64,
    pub url: String,
    pub content_type: String,
    pub source: LinkSource,
    pub status: LinkStatus,
    pub error: Option<String>,
    pub file_path: Option<String>,
    pub file_path_pattern: Option<String>,
}

/// A link as harvested, before the store has given it an id.
#[derive(Debug, Clone)]
pub struct CreatePostLink {
    pub url: String,
    pub content_type: String,
    pub source: LinkSource,
}

/// A post as harvested, before it is stored.
#[derive(Debug, Clone)]
pub struct CreatePost {
    pub id: i64,
    pub title: String,
    pub creator: String,
    pub tags: Vec<String>,
    pub post_type: PostType,
    pub like_count: i64,
    pub links: Vec<CreatePostLink>,
}

/// A stored post with its links.
#[derive(Debug, Clone)]
pub struct Post {
    pub id: i64,
    pub title: String,
    pub creator: String,
    pub tags: Vec<String>,
    pub post_type: PostType,
    pub like_count: i64,
    pub links: Vec<PostLink>,
    pub generated_title: Option<String>,
    pub created_at: Option<PostDate>,
}

/// The outcome of processing a link, as written to the store.
#[derive(Debug, Clone)]
pub enum StatusUpdate {
    Success { file_path: String, file_path_pattern: String },
    Error { error: String },
    Pending,
}

/// Why what the store returned could not be read.
#[derive(Debug, Clone, Copy, PartialEq, Eq, Structural)]
pub enum StoreReadError {
    /// A post came without any row.
    NoRows,
    /// The tags of a post are not a JSON list of strings.
    InvalidTags,
    /// A link's source is none of the known ones.
    InvalidLinkSource,
    /// A link's status is none of the known ones.
    InvalidLinkStatus,
    /// A post's type is none of the known ones.
    InvalidPostType,
}

impl StoreReadError {
    /// The text that describes the error.
    pub open spec fn text(self) -> Seq<char> {
        match self {
            StoreReadError::NoRows => "post without rows"@,
            StoreReadError::InvalidTags => "Invalid tags"@,
            StoreReadError::InvalidLinkSource => "Invalid link source"@,
            StoreReadError::InvalidLinkStatus => "Invalid link status"@,
            StoreReadError::InvalidPostType => "Invalid post type"@,
        }
    }

    /// Describes the error.
    pub fn message(self) -> (message: String)
        ensures
            message@ == self.text(),
    {
        match self {
            StoreReadError::NoRows => "post without rows".to_owned(),
            StoreReadError::InvalidTags => "Invalid tags".to_owned(),
            StoreReadError::InvalidLinkSource => "Invalid link source".to_owned(),
            StoreReadError::InvalidLinkStatus => "Invalid link status".to_owned(),
            StoreReadError::InvalidPostType => "Invalid post type".to_owned(),
        }
    }
}

impl LinkSource {
    /// The source that a stored text names, in either of its spellings.
    pub open spec fn named(text: Seq<char>) -> Option<LinkSource> {
        if text == "image-gallery"@ || text == "ImageGallery"@ {
            Some(LinkSource::ImageGallery)
        } else if text == "video-post"@ || text == "VideoPost"@ {
            Some(LinkSource::VideoPost)
        } else if text == "html-string"@ || text == "HtmlString"@ {
            Some(LinkSource::HtmlString)
        } else {
            None
        }
    }

    /// Reads a source from its stored text.
    pub fn parse(text: &str) -> (source: Result<LinkSource, StoreReadError>)
        ensures
            match source {
                Ok(source) => LinkSource::named(text@) == Some(source),
                Err(error) => LinkSource::named(text@) is None && error
                    == StoreReadError::InvalidLinkSource,
            },
    {
        if equal(text, "image-gallery") || equal(text, "ImageGallery") {
            Ok(LinkSource::ImageGallery)
        } else if equal(text, "video-post") || equal(text, "VideoPost") {
            Ok(LinkSource::VideoPost)
        } else if equal(text, "html-string") || equal(text, "HtmlString") {
            Ok(LinkSource::HtmlString)
        } else {
            Err(StoreReadError::InvalidLinkSource)
        }
    }

    /// The text under which the source is stored.
    pub fn name(self) -> (name: &'static str)
        ensures
            name@ == match self {
                LinkSource::ImageGallery => "ImageGallery"@,
                LinkSource::VideoPost => "VideoPost"@,
                LinkSource::HtmlString => "HtmlString"@,
            },
            LinkSource::named(name@) == Some(self),
    {
        proof {
            reveal_strlit("image-gallery");
            reveal_strlit("ImageGallery");
            reveal_strlit("video-post");
            reveal_strlit("VideoPost");
            reveal_strlit("HtmlString");
            assert("image-gallery"@.len() == 13);
            assert("ImageGallery"@.len() == 12);
            assert("video-post"@.len() == 10);
            assert("VideoPost"@.len() == 9);
            assert("HtmlString"@.len() == 10);
            assert("HtmlString"@[0] != "video-post"@[0]);
        }
        match self {
            LinkSource::ImageGallery => "ImageGallery",
            LinkSource::VideoPost => "VideoPost",
            LinkSource::HtmlString => "HtmlString",
        }
    }
}

impl LinkStatus {
    /// The status that a stored text names, in either of its spellings.
    pub open spec fn named(text: Seq<char>) -> Option<LinkStatus> {
        if text == "pending"@ || text == "Pending"@ {
            Some(LinkStatus::Pending)
        } else if text == "downloaded"@ || text == "Downloaded"@ {
            Some(LinkStatus::Downloaded)
        } else if text == "error"@ || text == "Error"@ {
            Some(LinkStatus::Error)
        } else {
            None
        }
    }

    /// Reads a status from its stored text.
    pub fn parse(text: &str) -> (status: Result<LinkStatus, StoreReadError>)
        ensures
            match status {
                Ok(status) => LinkStatus::named(text@) == Some(status),
                Err(error) => LinkStatus::named(text@) is None && error
                    == StoreReadError::InvalidLinkStatus,
            },
    {
        if equal(text, "pending") || equal(text, "Pending") {
            Ok(LinkStatus::Pending)
        } else if equal(text, "downloaded") || equal(text, "Downloaded") {
            Ok(LinkStatus::Downloaded)
        } else if equal(text, "error") || equal(text, "Error") {
            Ok(LinkStatus::Error)
        } else {
            Err(StoreReadError::InvalidLinkStatus)
        }
    }

    /// The text under which the status is stored.
    pub fn name(self) -> (name: &'static str)
        ensures
            name@ == match self {
                LinkStatus::Pending => "pending"@,
                LinkStatus::Downloaded => "downloaded"@,
                LinkStatus::Error => "error"@,
            },
            LinkStatus::named(name@) == Some(self),
    {
        proof {
            reveal_strlit("pending");
            reveal_strlit("Pending");
            reveal_strlit("downloaded");
            reveal_strlit("Downloaded");
            reveal_strlit("error");
            assert("pending"@.len() == 7);
            assert("Pending"@.len() == 7);
            assert("downloaded"@.len() == 10);
            assert("Downloaded"@.len() == 10);
            assert("error"@.len() == 5);
        }
        match self {
            LinkStatus::Pending => "pending",
            LinkStatus::Downloaded => "downloaded",
            LinkStatus::Error => "error",
        }
    }
}

impl PostType {
    /// The post type that a stored text names, in either of its spellings.
    pub open spec fn named(text: Seq<char>) -> Option<PostType> {
        if text == "Video"@ || text == "video"@ {
            Some(PostType::Video)
        } else if text == "Image"@ || text == "image"@ {
            Some(PostType::Image)
        } else {
            None
        }
    }

    /// Reads a post type from its stored text.
    pub fn parse(text: &str) -> (post_type: Result<PostType, StoreReadError>)
        ensures
            match post_type {
                Ok(post_type) => PostType::named(text@) == Some(post_type),
                Err(error) => PostType::named(text@) is None && error
                    == StoreReadError::InvalidPostType,
            },
    {
        if equal(text, "Video") || equal(text, "video") {
            Ok(PostType::Video)
        } else if equal(text, "Image") || equal(text, "image") {
            Ok(PostType::Image)
        } else {
            Err(StoreReadError::InvalidPostType)
        }
    }

    /// The text under which the post type is stored.
    pub fn name(self) -> (name: &'static str)
        ensures
            name@ == match self {
                PostType::Video => "Video"@,
                PostType::Image => "Image"@,
            },
            PostType::named(name@) == Some(self),
    {
        proof {
            reveal_strlit("Video");
            reveal_strlit("video");
            reveal_strlit("Image");
            assert("Image"@[0] != "Video"@[0]);
            assert("Image"@[0] != "video"@[0]);
        }
        match self {
            PostType::Video => "Video",
            PostType::Image => "Image",
        }
    }
}

/// The characters of an optional string.
pub open spec fn opt_text(s: Option<String>) -> Option<Seq<char>> {
    match s {
        Some(t) => Some(t@),
        None => None,
    }
}

/// The mathematical value of a link.
pub struct LinkState {
    pub id: int,
    pub url: Seq<char>,
    pub content_type: Seq<char>,
    pub source: LinkSource,
    pub status: LinkStatus,
    pub error: Option<Seq<char>>,
    pub file_path: Option<Seq<char>>,
    pub file_path_pattern: Option<Seq<char>>,
}

/// The mathematical value of a status update.
pub enum Outcome {
    Success { file_path: Seq<char>, file_path_pattern: Seq<char> },
    Error { error: Seq<char> },
    Pending,
}

impl View for StatusUpdate {
    type V = Outcome;

    open spec fn view(&self) -> Outcome {
        match *self {
            StatusUpdate::Success { file_path, file_path_pattern } => Outcome::Success {
                file_path: file_path@,
                file_path_pattern: file_path_pattern@,
            },
            StatusUpdate::Error { error } => Outcome::Error { error: error@ },
            StatusUpdate::Pending => Outcome::Pending,
        }
    }
}

impl View for PostLink {
    type V = LinkState;

    open spec fn view(&self) -> LinkState {
        LinkState {
            id: self.id as int,
            url: self.url@,
            content_type: self.content_type@,
            source: self.source,
            status: self.status,
            error: opt_text(self.error),
            file_path: opt_text(self.file_path),
            file_path_pattern: opt_text(self.file_path_pattern),
        }
    }
}

/// The mathematical value of a post.
pub struct PostValue {
    pub id: int,
    pub title: Seq<char>,
    pub creator: Seq<char>,
    pub tags: Seq<Seq<char>>,
    pub post_type: PostType,
    pub like_count: int,
    pub links: Seq<LinkState>,
    pub generated_title: Option<Seq<char>>,
    pub created_at: Option<PostDate>,
}

/// The values of a list of links.
pub open spec fn link_states(links: Seq<PostLink>) -> Seq<LinkState> {
    links.map_values(|link: PostLink| link@)
}

impl View for Post {
    type V = PostValue;

    open spec fn view(&self) -> PostValue {
        PostValue {
            id: self.id as int,
            title: self.title@,
            creator: self.creator@,
            tags: self.tags.deep_view(),
            post_type: self.post_type,
            like_count: self.like_count as int,
            links: link_states(self.links@),
            generated_title: opt_text(self.generated_title),
            created_at: self.created_at,
        }
    }
}

/// The values of a list of posts.
pub open spec fn post_values(posts: Seq<Post>) -> Seq<PostValue> {
    posts.map_values(|post: Post| post@)
}

impl LinkState {
    /// The status invariant: a file path is recorded exactly while the link
    /// is `Downloaded`, an error text only while it is `Error`, and a pattern
    /// only together with the path it produced.
    pub open spec fn consistent(self) -> bool {
        &&& self.file_path is Some <==> self.status == LinkStatus::Downloaded
        &&& self.error is Some ==> self.status == LinkStatus::Error
        &&& self.file_path_pattern is Some ==> self.file_path is Some
    }

    /// The link after `outcome` has been recorded for it.
    pub open spec fn record(self, outcome: Outcome) -> LinkState {
        match outcome {
            Outcome::Success { file_path, file_path_pattern } => LinkState {
                status: LinkStatus::Downloaded,
                error: None,
                file_path: Some(file_path),
                file_path_pattern: Some(file_path_pattern),
                ..self
            },
            Outcome::Error { error } => LinkState {
                status: LinkStatus::Error,
                error: Some(error),
                file_path: None,
                file_path_pattern: None,
                ..self
            },
            Outcome::Pending => LinkState {
                status: LinkStatus::Pending,
                error: None,
                file_path: None,
                file_path_pattern: None,
                ..self
            },
        }
    }

    /// The link after its file has moved to `file_path`, which
    /// `file_path_pattern` produced. Only a `Downloaded` link has a file to
    /// move; any other link stays as it is.
    pub open spec fn relocate(self, file_path: Seq<char>, file_path_pattern: Seq<char>) -> LinkState {
        if self.status == LinkStatus::Downloaded {
            LinkState {
                file_path: Some(file_path),
                file_path_pattern: Some(file_path_pattern),
                ..self
            }
        } else {
            self
        }
    }

    /// Whether a download run has work to do for the link.
    pub open spec fn needs_download(self) -> bool {
        self.status != LinkStatus::Downloaded
    }
}

impl PostLink {
    /// A link as the store first holds it: `Pending`, with nothing recorded.
    pub fn new(id: i64, link: CreatePostLink) -> (created: PostLink)
        ensures
            created@ == (LinkState {
                id: id as int,
                url: link.url@,
                content_type: link.content_type@,
                source: link.source,
                status: LinkStatus::Pending,
                error: None,
                file_path: None,
                file_path_pattern: None,
            }),
            created@.consistent(),
    {
        PostLink {
            id,
            url: link.url,
            content_type: link.content_type,
            source: link.source,
            status: LinkStatus::Pending,
            error: None,
            file_path: None,
            file_path_pattern: None,
        }
    }

    /// Whether the link satisfies the status invariant.
    pub fn is_consistent(&self) -> (ok: bool)
        ensures
            ok == self@.consistent(),
    {
        let path_ok = self.file_path.is_some() == (self.status == LinkStatus::Downloaded);
        let error_ok = !self.error.is_some() || self.status == LinkStatus::Error;
        let pattern_ok = !self.file_path_pattern.is_some() || self.file_path.is_some();
        path_ok && error_ok && pattern_ok
    }

    /// Whether a download run has work to do for the link: every link that
    /// is not `Downloaded`, failed ones included.
    pub fn needs_download(&self) -> (needed: bool)
        ensures
            needed == self@.needs_download(),
    {
        self.status != LinkStatus::Downloaded
    }

    /// Records the outcome of processing the link.
    pub fn update_status(&mut self, update: StatusUpdate)
        ensures
            final(self)@ == old(self)@.record(update@),
            final(self)@.consistent(),
    {
        match update {
            StatusUpdate::Success { file_path, file_path_pattern } => {
                self.status = LinkStatus::Downloaded;
                self.error = None;
                self.file_path = Some(file_path);
                self.file_path_pattern = Some(file_path_pattern);
            },
            StatusUpdate::Error { error } => {
                self.status = LinkStatus::Error;
                self.error = Some(error);
                self.file_path = None;
                self.file_path_pattern = None;
            },
            StatusUpdate::Pending => {
                self.status = LinkStatus::Pending;
                self.error = None;
                self.file_path = None;
                self.file_path_pattern = None;
            },
        }
    }

    /// Re-stamps path and pattern after the link's file has moved. Returns
    /// whether the link was `Downloaded`; any other link is left unchanged.
    pub fn update_path(&mut self, file_path: String, file_path_pattern: String) -> (moved: bool)
        ensures
            moved == (old(self).status == LinkStatus::Downloaded),
            final(self)@ == old(self)@.relocate(file_path@, file_path_pattern@),
            old(self)@.consistent() ==> final(self)@.consistent(),
    {
        if self.status == LinkStatus::Downloaded {
            self.file_path = Some(file_path);
            self.file_path_pattern = Some(file_path_pattern);
            true
        } else {
            false
        }
    }

    /// Puts the link back to `Pending` and clears what was recorded.
    pub fn reset(&mut self)
        ensures
            final(self)@ == old(self)@.record(Outcome::Pending),
            final(self)@.consistent(),
    {
        self.update_status(StatusUpdate::Pending);
    }
}

/// Every recorded outcome leaves the link consistent, whatever it was before.
pub proof fn lemma_record_consistent(link: LinkState, outcome: Outcome)
    ensures
        link.record(outcome).consistent(),
{
}

/// Moving the file of a consistent link leaves it consistent.
pub proof fn lemma_relocate_consistent(
    link: LinkState,
    file_path: Seq<char>,
    file_path_pattern: Seq<char>,
)
    requires
        link.consistent(),
    ensures
        link.relocate(file_path, file_path_pattern).consistent(),
{
}

/// A step of a link's life: an outcome recorded, or its file moved.
pub enum Transition {
    Record(Outcome),
    Relocate { file_path: Seq<char>, file_path_pattern: Seq<char> },
}

/// The link after one step.
pub open spec fn step(link: LinkState, transition: Transition) -> LinkState {
    match transition {
        Transition::Record(outcome) => link.record(outcome),
        Transition::Relocate { file_path, file_path_pattern } => link.relocate(
            file_path,
            file_path_pattern,
        ),
    }
}

/// The link after a series of steps, taken in order.
pub open spec fn run(link: LinkState, transitions: Seq<Transition>) -> LinkState
    decreases transitions.len(),
{
    if transitions.len() == 0 {
        link
    } else {
        step(run(link, transitions.drop_last()), transitions.last())
    }
}

/// Every state that a consistent link can reach is consistent: it holds a
/// file path exactly while it is `Downloaded`.
pub proof fn lemma_reachable_consistent(link: LinkState, transitions: Seq<Transition>)
    requires
        link.consistent(),
    ensures
        run(link, transitions).consistent(),
        run(link, transitions).file_path is Some <==> run(link, transitions).status
            == LinkStatus::Downloaded,
    decreases transitions.len(),
{
    if transitions.len() > 0 {
        lemma_reachable_consistent(link, transitions.drop_last());
    }
}

/// Recording the same success twice leaves the link as recording it once.
pub proof fn lemma_record_idempotent(link: LinkState, outcome: Outcome)
    ensures
        link.record(outcome).record(outcome) == link.record(outcome),
{
}

/// A link recorded as a success needs no further download; one recorded as
/// an error or put back to pending does.
pub proof fn lemma_record_selection(link: LinkState, outcome: Outcome)
    ensures
        link.record(outcome).needs_download() <==> !(outcome is Success),
{
}

} // verus!
