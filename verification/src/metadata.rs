//! Harvesting: from what a page of posts holds to the posts to store, and
//! from page to page.
//!
//! Reading markup is left to the caller. It hands over, for each post on a
//! page, the texts and attributes that a post is made from; the rules that
//! make a post of them are here.

use vstd::prelude::*;
use crate::model::{opt_text, CreatePost, CreatePostLink, LinkSource, PostType};
use crate::text::{
    decimal, digits, replace, replaced, string_from_chars, to_chars, to_decimal,
    to_decimal_unsigned, trim, trimmed,
};

verus! {

broadcast use vstd::string::group_string_axioms;

/// Whose posts to harvest, and as whom.
#[derive(Debug)]
pub struct MetadataArgs {
    pub creator_name: String,
    pub creator_id: i64,
    pub cookie: String,
}

/// One entry of a gallery: an image by its address, or markup that embeds
/// a video.
#[derive(Debug)]
pub struct GalleryImage {
    pub src: Option<String>,
    pub html: Option<String>,
}

/// The media of a post as found in its markup: the gallery entries of an
/// image post, where there are any to read, and the address of a video
/// post's source, where there is one.
#[derive(Debug)]
pub struct MediaMarkup {
    pub gallery: Option<Vec<GalleryImage>>,
    pub video_source: Option<String>,
}

/// What the markup of one post holds.
#[derive(Debug)]
pub struct ScrapedPost {
    /// The `id` attribute of the post's element.
    pub id: Option<String>,
    /// Whether the post shows a video.
    pub has_video: bool,
    /// Whether the post shows an image.
    pub has_image: bool,
    pub media: MediaMarkup,
    /// The text of the post, where it has one.
    pub title: Option<String>,
    /// The texts of the post's tag labels.
    pub tags: Vec<String>,
    /// The text of the post's like counter, where it has one.
    pub like_count: Option<String>,
}

/// Why a page could not be harvested.
#[derive(Debug, Clone, Copy, PartialEq, Eq, Structural)]
pub enum ScrapeError {
    /// The id of a post is no number.
    InvalidId,
}

/// What fetching a page gave.
#[derive(Debug)]
pub enum FetchResult {
    RateLimited,
    Posts(Vec<CreatePost>),
}

/// What to do after a page was fetched.
#[derive(Debug, Clone, Copy, PartialEq, Eq, Structural)]
pub enum PageStep {
    /// Wait, then fetch the same page again.
    Wait { seconds: u64 },
    /// Store the posts, then fetch the next page, if pages can be counted
    /// that far.
    Store { next_page: Option<u32> },
    /// The page was empty: all posts are harvested.
    Stop,
}

/// The HTTP status that tells of too many requests.
pub const TOO_MANY_REQUESTS: u16 = 429;

/// How long to wait when the site limits the rate, in seconds.
pub const RATE_LIMIT_PAUSE: u64 = 120;

/// The pattern that finds the address in markup that embeds a video.
pub const SOURCE_PATTERN: &'static str = "src=\"(.*?)\"";

/// The pattern that finds the gallery in a post's script.
pub const GALLERY_PATTERN: &'static str = "dynamicEl:\\s+(.*),";

/// `regex::Error`, of which nothing is known but that it is one.
#[verifier::external_type_specification]
#[verifier::external_body]
pub struct ExRegexError(regex::Error);

/// What the first match of a pattern of the `regex` crate holds for a
/// capture group: nothing at all where the crate does not take the pattern;
/// else the group's text, if the pattern matches and the group took part.
pub uninterp spec fn regex_capture(pattern: Seq<char>, text: Seq<char>, group: int) -> Option<
    Option<Seq<char>>,
>;

/// The number that `str::parse::<i64>` reads from a text, if it reads one.
pub uninterp spec fn int_read(text: Seq<char>) -> Option<i64>;

/// Compiles the pattern with `regex::Regex::new`, finds its first match in
/// the text with `Regex::captures` and takes the text of one capture group
/// with `Captures::get`. The contract names the result, `regex_capture`,
/// which is nothing at all exactly when the pattern is refused, and claims
/// no more.
#[verifier::external_body]
fn capture_group(pattern: &str, text: &str, group: usize) -> (found: Result<
    Option<String>,
    regex::Error,
>)
    ensures
        match found {
            Ok(found) => regex_capture(pattern@, text@, group as int) == Some(opt_text(found)),
            Err(_) => regex_capture(pattern@, text@, group as int) is None,
        },
{
    let compiled = regex::Regex::new(pattern)?;
    Ok(compiled.captures(text).and_then(|found| found.get(group)).map(|part| part.as_str().to_string()))
}

/// Reads a number with `str::parse::<i64>`. The contract names the
/// result, `int_read`, and claims no more of it.
#[verifier::external_body]
fn parse_int(text: &str) -> (number: Option<i64>)
    ensures
        number == int_read(text@),
{
    text.parse::<i64>().ok()
}

/// The text of a capture group of the first match, if the pattern is taken,
/// matches and the group took part.
pub open spec fn captured(pattern: Seq<char>, text: Seq<char>, group: int) -> Option<Seq<char>> {
    match regex_capture(pattern, text, group) {
        Some(Some(found)) => Some(found),
        _ => None,
    }
}

/// Finds the first match of a pattern and hands out one of its groups.
pub fn find_group(pattern: &str, text: &str, group: usize) -> (found: Option<String>)
    ensures
        opt_text(found) == captured(pattern@, text@, group as int),
{
    match capture_group(pattern, text, group) {
        Ok(found) => found,
        Err(_) => None,
    }
}

/// The link that markup embedding a video gives: the address in its first
/// `src="..."`, as an `mp4` video.
pub open spec fn embedded_link(html: Seq<char>) -> Option<(Seq<char>, Seq<char>, LinkSource)> {
    match captured(SOURCE_PATTERN@, html, 1) {
        Some(address) => Some((address, "video/mp4"@, LinkSource::HtmlString)),
        None => None,
    }
}

/// What a new link is made of.
pub open spec fn link_value(link: CreatePostLink) -> (Seq<char>, Seq<char>, LinkSource) {
    (link.url@, link.content_type@, link.source)
}

/// What an optional new link is made of.
pub open spec fn opt_link_value(link: Option<CreatePostLink>) -> Option<
    (Seq<char>, Seq<char>, LinkSource),
> {
    match link {
        Some(link) => Some(link_value(link)),
        None => None,
    }
}

/// What each of the new links is made of.
pub open spec fn link_values(links: Seq<CreatePostLink>) -> Seq<(Seq<char>, Seq<char>, LinkSource)> {
    links.map_values(|link: CreatePostLink| link_value(link))
}

/// The links that one gallery entry gives: its image, if it has one, then
/// its embedded video, if it has one.
pub open spec fn entry_links(image: GalleryImage) -> Seq<(Seq<char>, Seq<char>, LinkSource)> {
    (match image.src {
        Some(src) => seq![(src@, "image/jpeg"@, LinkSource::ImageGallery)],
        None => Seq::empty(),
    }) + (match image.html {
        Some(html) => match embedded_link(html@) {
            Some(link) => seq![link],
            None => Seq::empty(),
        },
        None => Seq::empty(),
    })
}

/// The links that a gallery gives, entry by entry.
pub open spec fn gallery_link_values(images: Seq<GalleryImage>) -> Seq<
    (Seq<char>, Seq<char>, LinkSource),
>
    decreases images.len(),
{
    if images.len() == 0 {
        Seq::empty()
    } else {
        gallery_link_values(images.drop_last()) + entry_links(images.last())
    }
}

/// The links that a video post gives: one to its source, if it has one.
pub open spec fn video_link_values(source: Option<String>) -> Seq<
    (Seq<char>, Seq<char>, LinkSource),
> {
    match source {
        Some(src) => seq![(src@, "video/mp4"@, LinkSource::VideoPost)],
        None => Seq::empty(),
    }
}

/// The links that a post's media give, by the type of the post.
pub open spec fn media_links(media: MediaMarkup, post_type: PostType) -> Seq<
    (Seq<char>, Seq<char>, LinkSource),
> {
    match post_type {
        PostType::Image => match media.gallery {
            Some(images) => gallery_link_values(images@),
            None => Seq::empty(),
        },
        PostType::Video => video_link_values(media.video_source),
    }
}

/// The gallery in a post's script: what follows `dynamicEl:` up to the last
/// comma of its line, with every `\>` turned into a space.
pub open spec fn gallery_text(script: Seq<char>) -> Option<Seq<char>> {
    match captured(GALLERY_PATTERN@, script, 1) {
        Some(found) => Some(replaced(found, "\\>"@, " "@)),
        None => None,
    }
}

/// Finds links in the markup of posts.
#[derive(Debug)]
pub struct UrlExtractor {}

impl UrlExtractor {
    /// Reads the link out of markup that embeds a video.
    pub fn parse_url_from_html(&self, html: &str) -> (link: Option<CreatePostLink>)
        ensures
            opt_link_value(link) == embedded_link(html@),
    {
        match find_group(SOURCE_PATTERN, html, 1) {
            Some(path) => Some(
                CreatePostLink {
                    url: path,
                    content_type: "video/mp4".to_owned(),
                    source: LinkSource::HtmlString,
                },
            ),
            None => None,
        }
    }

    /// Cuts the gallery, a JSON text, out of a post's script.
    pub fn gallery_json(&self, script: &str) -> (json: Option<String>)
        ensures
            opt_text(json) == gallery_text(script@),
    {
        match find_group(GALLERY_PATTERN, script, 1) {
            Some(found) => Some(replace(found.as_str(), "\\>", " ")),
            None => None,
        }
    }

    /// Makes the links of a gallery.
    pub fn gallery_links(&self, images: &Vec<GalleryImage>) -> (links: Vec<CreatePostLink>)
        ensures
            link_values(links@) == gallery_link_values(images@),
    {
        let mut links: Vec<CreatePostLink> = Vec::new();
        let mut i: usize = 0;
        assert(link_values(links@) =~= Seq::empty());
        while i < images.len()
            invariant
                i <= images.len(),
                link_values(links@) == gallery_link_values(images@.take(i as int)),
            decreases images.len() - i,
        {
            let image = &images[i];
            let ghost before = link_values(links@);
            proof {
                assert(images@.take(i + 1).drop_last() =~= images@.take(i as int));
            }
            match &image.src {
                Some(src) => {
                    let link = CreatePostLink {
                        url: src.clone(),
                        content_type: "image/jpeg".to_owned(),
                        source: LinkSource::ImageGallery,
                    };
                    links.push(link);
                    assert(link_values(links@) =~= before.push(link_value(link)));
                },
                None => {},
            }
            let ghost middle = link_values(links@);
            match &image.html {
                Some(html) => {
                    match self.parse_url_from_html(html.as_str()) {
                        Some(link) => {
                            links.push(link);
                            assert(link_values(links@) =~= middle.push(link_value(link)));
                        },
                        None => {},
                    }
                },
                None => {},
            }
            assert(link_values(links@) =~= before + entry_links(*image));
            i += 1;
        }
        assert(images@.take(images.len() as int) =~= images@);
        links
    }

    /// Makes the links of a post from its media.
    pub fn extract_urls(&self, media: &MediaMarkup, post_type: PostType) -> (links: Vec<
        CreatePostLink,
    >)
        ensures
            link_values(links@) == media_links(*media, post_type),
    {
        match post_type {
            PostType::Image => match &media.gallery {
                Some(images) => self.gallery_links(images),
                None => {
                    let links: Vec<CreatePostLink> = Vec::new();
                    assert(link_values(links@) =~= Seq::empty());
                    links
                },
            },
            PostType::Video => {
                let mut links: Vec<CreatePostLink> = Vec::new();
                match &media.video_source {
                    Some(src) => {
                        let link = CreatePostLink {
                            url: src.clone(),
                            content_type: "video/mp4".to_owned(),
                            source: LinkSource::VideoPost,
                        };
                        links.push(link);
                        assert(link_values(links@) =~= seq![link_value(link)]);
                    },
                    None => {
                        assert(link_values(links@) =~= Seq::empty());
                    },
                }
                links
            },
        }
    }
}

/// The type of a post: a video where it shows one, else an image where it
/// shows one.
pub fn extract_post_type(has_video: bool, has_image: bool) -> (post_type: Option<PostType>)
    ensures
        post_type == (if has_video {
            Some(PostType::Video)
        } else if has_image {
            Some(PostType::Image)
        } else {
            None
        }),
{
    if has_video {
        return Some(PostType::Video);
    }
    if has_image {
        return Some(PostType::Image);
    }
    None
}

/// The title of a post: its text, or `Untitled` where it has none.
pub fn extract_title(text: Option<String>) -> (title: String)
    ensures
        title@ == (match text {
            Some(text) => text@,
            None => "Untitled"@,
        }),
{
    match text {
        Some(text) => text,
        None => "Untitled".to_owned(),
    }
}

/// The tag that a label's text gives: the text without whitespace at its
/// ends and without a leading `#`; none where only whitespace is left.
pub open spec fn clean_tag(text: Seq<char>) -> Option<Seq<char>> {
    let tag = trimmed(text);
    if tag.len() == 0 {
        None
    } else if tag[0] == '#' {
        Some(tag.skip(1))
    } else {
        Some(tag)
    }
}

/// Makes a tag of a label's text.
pub fn extract_tag(text: &str) -> (tag: Option<String>)
    ensures
        opt_text(tag) == clean_tag(text@),
{
    let tag = trim(text);
    let chars = to_chars(tag.as_str());
    if chars.len() == 0 {
        None
    } else if chars[0] == '#' {
        let mut rest: Vec<char> = Vec::new();
        let mut i: usize = 1;
        while i < chars.len()
            invariant
                1 <= i <= chars.len(),
                rest@ == chars@.subrange(1, i as int),
            decreases chars.len() - i,
        {
            rest.push(chars[i]);
            i += 1;
        }
        assert(rest@ =~= chars@.skip(1));
        Some(string_from_chars(&rest))
    } else {
        Some(tag)
    }
}

/// Makes the tags of a post from the texts of its labels, leaving out the
/// labels that are blank.
pub fn extract_tags(texts: &Vec<String>) -> (tags: Vec<String>)
    ensures
        tags.deep_view() == texts.deep_view().filter_map(|text: Seq<char>| clean_tag(text)),
{
    let ghost clean = |text: Seq<char>| clean_tag(text);
    let mut tags: Vec<String> = Vec::new();
    let mut i: usize = 0;
    while i < texts.len()
        invariant
            i <= texts.len(),
            clean == |text: Seq<char>| clean_tag(text),
            tags.deep_view() == texts.deep_view().take(i as int).filter_map(clean),
        decreases texts.len() - i,
    {
        let ghost before = tags.deep_view();
        proof {
            texts.deep_view().lemma_filter_map_take_succ(clean, i as int);
        }
        match extract_tag(texts[i].as_str()) {
            Some(tag) => {
                tags.push(tag);
                assert(tags.deep_view() =~= before.push(tag@));
            },
            None => {},
        }
        i += 1;
    }
    assert(texts.deep_view().take(texts.len() as int) =~= texts.deep_view());
    tags
}

/// The number of a post: its element's id without every `post-`, read as a
/// number.
pub open spec fn post_number(id: Seq<char>) -> Option<i64> {
    int_read(replaced(id, "post-"@, ""@))
}

/// The likes of a post: the number on its counter, or zero where there is
/// no counter or no number on it.
pub open spec fn like_number(text: Option<String>) -> i64 {
    match text {
        Some(text) => match int_read(text@) {
            Some(n) => n,
            None => 0,
        },
        None => 0,
    }
}

/// What becomes of the markup of one post.
pub enum Harvest {
    /// The id is no number: the page cannot be harvested.
    Failed,
    /// The post has no id, no media type, or no links, and is passed over.
    Skipped,
    /// The post to store.
    Post {
        id: int,
        title: Seq<char>,
        creator: Seq<char>,
        tags: Seq<Seq<char>>,
        post_type: PostType,
        like_count: int,
        links: Seq<(Seq<char>, Seq<char>, LinkSource)>,
    },
}

/// What becomes of the markup of one post: a post without id is passed
/// over; an id that is no number fails the page; a post that shows neither
/// video nor image, or whose media give no link, is passed over; any other
/// becomes a post to store.
pub open spec fn harvest(scraped: ScrapedPost, creator_name: Seq<char>) -> Harvest {
    match scraped.id {
        None => Harvest::Skipped,
        Some(id) => match post_number(id@) {
            None => Harvest::Failed,
            Some(number) => if !scraped.has_video && !scraped.has_image {
                Harvest::Skipped
            } else {
                let post_type = if scraped.has_video {
                    PostType::Video
                } else {
                    PostType::Image
                };
                let links = media_links(scraped.media, post_type);
                if links.len() == 0 {
                    Harvest::Skipped
                } else {
                    Harvest::Post {
                        id: number as int,
                        title: match scraped.title {
                            Some(text) => text@,
                            None => "Untitled"@,
                        },
                        creator: creator_name,
                        tags: scraped.tags.deep_view().filter_map(
                            |text: Seq<char>| clean_tag(text),
                        ),
                        post_type,
                        like_count: like_number(scraped.like_count) as int,
                        links,
                    }
                }
            },
        },
    }
}

/// What a new post is made of.
pub open spec fn post_value(post: CreatePost) -> Harvest {
    Harvest::Post {
        id: post.id as int,
        title: post.title@,
        creator: post.creator@,
        tags: post.tags.deep_view(),
        post_type: post.post_type,
        like_count: post.like_count as int,
        links: link_values(post.links@),
    }
}

/// Makes a post of the markup of one post, or passes it over.
pub fn scrape_post(scraped: &ScrapedPost, creator_name: &str) -> (post: Result<
    Option<CreatePost>,
    ScrapeError,
>)
    ensures
        match post {
            Ok(Some(post)) => harvest(*scraped, creator_name@) == post_value(post),
            Ok(None) => harvest(*scraped, creator_name@) is Skipped,
            Err(error) => harvest(*scraped, creator_name@) is Failed && error
                == ScrapeError::InvalidId,
        },
{
    let id_text = match &scraped.id {
        Some(id) => id,
        None => {
            return Ok(None);
        },
    };
    let bare = replace(id_text.as_str(), "post-", "");
    let id = match parse_int(bare.as_str()) {
        Some(id) => id,
        None => {
            return Err(ScrapeError::InvalidId);
        },
    };
    let post_type = match extract_post_type(scraped.has_video, scraped.has_image) {
        Some(post_type) => post_type,
        None => {
            return Ok(None);
        },
    };
    let extractor = UrlExtractor {  };
    let links = extractor.extract_urls(&scraped.media, post_type);
    if links.len() == 0 {
        return Ok(None);
    }
    let title = match &scraped.title {
        Some(text) => text.clone(),
        None => "Untitled".to_owned(),
    };
    let tags = extract_tags(&scraped.tags);
    let like_count: i64 = match &scraped.like_count {
        Some(text) => match parse_int(text.as_str()) {
            Some(n) => n,
            None => 0,
        },
        None => 0,
    };
    Ok(
        Some(
            CreatePost {
                id,
                like_count,
                post_type,
                tags,
                links,
                title,
                creator: creator_name.to_owned(),
            },
        ),
    )
}

/// The posts that a page gives: those of its markup that become posts, in
/// the order of the page; an error if any id on the page is no number.
pub open spec fn harvest_all(page: Seq<ScrapedPost>, creator_name: Seq<char>) -> Option<
    Seq<Harvest>,
>
    decreases page.len(),
{
    if page.len() == 0 {
        Some(Seq::empty())
    } else {
        match harvest_all(page.drop_last(), creator_name) {
            None => None,
            Some(posts) => match harvest(page.last(), creator_name) {
                Harvest::Failed => None,
                Harvest::Skipped => Some(posts),
                post => Some(posts.push(post)),
            },
        }
    }
}

/// What each of the new posts is made of.
pub open spec fn post_values(posts: Seq<CreatePost>) -> Seq<Harvest> {
    posts.map_values(|post: CreatePost| post_value(post))
}

/// Makes the posts of a page.
pub fn scrape_posts(page: &Vec<ScrapedPost>, creator_name: &str) -> (posts: Result<
    Vec<CreatePost>,
    ScrapeError,
>)
    ensures
        match posts {
            Ok(posts) => harvest_all(page@, creator_name@) == Some(post_values(posts@)),
            Err(error) => harvest_all(page@, creator_name@) is None && error
                == ScrapeError::InvalidId,
        },
{
    let mut posts: Vec<CreatePost> = Vec::new();
    let mut i: usize = 0;
    assert(post_values(posts@) =~= Seq::empty());
    assert(page@.take(0) =~= Seq::empty());
    while i < page.len()
        invariant
            i <= page.len(),
            harvest_all(page@.take(i as int), creator_name@) == Some(post_values(posts@)),
        decreases page.len() - i,
    {
        let ghost before = post_values(posts@);
        proof {
            assert(page@.take(i + 1).drop_last() =~= page@.take(i as int));
        }
        match scrape_post(&page[i], creator_name) {
            Ok(Some(post)) => {
                posts.push(post);
                assert(post_values(posts@) =~= before.push(post_value(post)));
            },
            Ok(None) => {},
            Err(error) => {
                proof {
                    lemma_failure_stays(page@, creator_name@, i + 1);
                }
                return Err(error);
            },
        }
        i += 1;
    }
    assert(page@.take(page.len() as int) =~= page@);
    Ok(posts)
}

/// A page whose beginning cannot be harvested cannot be harvested.
proof fn lemma_failure_stays(page: Seq<ScrapedPost>, creator_name: Seq<char>, n: int)
    requires
        0 <= n <= page.len(),
        harvest_all(page.take(n), creator_name) is None,
    ensures
        harvest_all(page, creator_name) is None,
    decreases page.len(),
{
    if n == page.len() {
        assert(page.take(n) =~= page);
    } else {
        assert(page.drop_last().take(n) =~= page.take(n));
        lemma_failure_stays(page.drop_last(), creator_name, n);
    }
}

/// The address of a page of a creator's posts.
pub open spec fn page_address(page: u32, creator_id: i64) -> Seq<char> {
    "https://hutt.co/hutts/ajax-posts?page="@ + digits(page as nat) + "&view=view&id="@ + decimal(
        creator_id as int,
    )
}

/// The address of a page of a creator's posts.
pub fn page_url(page: u32, creator_id: i64) -> (url: String)
    ensures
        url@ == page_address(page, creator_id),
{
    let mut url = "https://hutt.co/hutts/ajax-posts?page=".to_owned();
    url.append(to_decimal_unsigned(page as u64).as_str());
    url.append("&view=view&id=");
    url.append(to_decimal(creator_id).as_str());
    url
}

/// Whether a response tells of too many requests.
pub fn is_rate_limited(status: u16) -> (limited: bool)
    ensures
        limited == (status == TOO_MANY_REQUESTS),
{
    status == TOO_MANY_REQUESTS
}

/// What to do after page `page` was fetched: wait two minutes and try the
/// page again when the rate was limited; stop at an empty page; else store
/// the posts and go on to the next page.
pub fn next_step(page: u32, result: &FetchResult) -> (step: PageStep)
    ensures
        step == (match *result {
            FetchResult::RateLimited => PageStep::Wait { seconds: RATE_LIMIT_PAUSE },
            FetchResult::Posts(posts) => if posts.len() == 0 {
                PageStep::Stop
            } else {
                PageStep::Store {
                    next_page: if page < u32::MAX {
                        Some((page + 1) as u32)
                    } else {
                        None
                    },
                }
            },
        }),
{
    match result {
        FetchResult::RateLimited => PageStep::Wait { seconds: RATE_LIMIT_PAUSE },
        FetchResult::Posts(posts) => {
            if posts.len() == 0 {
                PageStep::Stop
            } else {
                PageStep::Store { next_page: page.checked_add(1) }
            }
        },
    }
}

} // verus!
