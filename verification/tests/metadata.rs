use hutt_downloader::metadata::{
    extract_post_type, extract_tag, extract_tags, extract_title, find_group, is_rate_limited,
    next_step, page_url, scrape_post, scrape_posts, FetchResult, GalleryImage, MediaMarkup,
    PageStep, ScrapeError, ScrapedPost, UrlExtractor, GALLERY_PATTERN, SOURCE_PATTERN,
};
use hutt_downloader::model::{CreatePost, LinkSource, PostType};

fn texts(items: &[&str]) -> Vec<String> {
    items.iter().map(|s| s.to_string()).collect()
}

fn image(src: Option<&str>, html: Option<&str>) -> GalleryImage {
    GalleryImage { src: src.map(str::to_owned), html: html.map(str::to_owned) }
}

fn scraped(id: Option<&str>) -> ScrapedPost {
    ScrapedPost {
        id: id.map(str::to_owned),
        has_video: false,
        has_image: true,
        media: MediaMarkup {
            gallery: Some(vec![image(Some("/images/1/big"), None)]),
            video_source: None,
        },
        title: Some("A title".into()),
        tags: texts(&[" #one ", "two", "  "]),
        like_count: Some("12".into()),
    }
}

#[test]
fn groups_are_found_by_pattern() {
    assert_eq!(find_group("a(b+)c", "xxabbbcxx", 1).as_deref(), Some("bbb"));
    assert_eq!(find_group("a(b+)c", "xxabbbcxx", 0).as_deref(), Some("abbbc"));
    assert_eq!(find_group("a(b+)c", "nothing", 1), None);
    assert_eq!(find_group("a(b+)c", "abc", 2), None);
    // A pattern that the crate refuses finds nothing.
    assert_eq!(find_group("a(b", "ab", 0), None);
    assert_eq!(SOURCE_PATTERN, r#"src="(.*?)""#);
    assert_eq!(GALLERY_PATTERN, r#"dynamicEl:\s+(.*),"#);
}

#[test]
fn the_address_is_read_out_of_embedding_markup() {
    let extractor = UrlExtractor {};
    let link = extractor
        .parse_url_from_html("<video><source src=\"/videos/5.mp4\" type=\"video/mp4\"></video>")
        .unwrap();
    assert_eq!(link.url, "/videos/5.mp4");
    assert_eq!(link.content_type, "video/mp4");
    assert_eq!(link.source, LinkSource::HtmlString);
    // The first address wins, and the shortest text up to a quote.
    let link = extractor.parse_url_from_html("src=\"a\" src=\"b\"").unwrap();
    assert_eq!(link.url, "a");
    assert_eq!(extractor.parse_url_from_html("src=\"\"").unwrap().url, "");
    assert!(extractor.parse_url_from_html("<video></video>").is_none());
    assert!(extractor.parse_url_from_html("src='single'").is_none());
}

#[test]
fn the_gallery_is_cut_out_of_the_script() {
    let extractor = UrlExtractor {};
    let script = "$(el).lightGallery({\n  dynamic: true,\n  dynamicEl:   [{\"src\":\"/a\"},{\"html\":\"<b\\>\"}],\n  index: 0\n});";
    assert_eq!(
        extractor.gallery_json(script).as_deref(),
        Some("[{\"src\":\"/a\"},{\"html\":\"<b \"}]")
    );
    assert_eq!(extractor.gallery_json("no gallery here"), None);
    assert_eq!(extractor.gallery_json("dynamicEl: [1, 2], rest").as_deref(), Some("[1, 2]"));
}

#[test]
fn a_gallery_gives_image_and_video_links() {
    let extractor = UrlExtractor {};
    let images = vec![
        image(Some("/images/1/big"), None),
        image(None, Some("<video src=\"/videos/2.mp4\">")),
        image(Some("/images/3/big"), Some("<video src=\"/videos/3.mp4\">")),
        image(None, None),
        image(None, Some("no address")),
    ];
    let links = extractor.gallery_links(&images);
    let summary: Vec<(String, String, LinkSource)> =
        links.iter().map(|l| (l.url.clone(), l.content_type.clone(), l.source)).collect();
    assert_eq!(
        summary,
        vec![
            ("/images/1/big".to_string(), "image/jpeg".to_string(), LinkSource::ImageGallery),
            ("/videos/2.mp4".to_string(), "video/mp4".to_string(), LinkSource::HtmlString),
            ("/images/3/big".to_string(), "image/jpeg".to_string(), LinkSource::ImageGallery),
            ("/videos/3.mp4".to_string(), "video/mp4".to_string(), LinkSource::HtmlString),
        ]
    );
    assert!(extractor.gallery_links(&vec![]).is_empty());
}

#[test]
fn links_are_made_by_post_type() {
    let extractor = UrlExtractor {};
    let media = MediaMarkup {
        gallery: Some(vec![image(Some("/images/1/big"), None)]),
        video_source: Some("/videos/1.m3u8".into()),
    };
    let links = extractor.extract_urls(&media, PostType::Image);
    assert_eq!(links.len(), 1);
    assert_eq!(links[0].url, "/images/1/big");
    assert_eq!(links[0].source, LinkSource::ImageGallery);
    let links = extractor.extract_urls(&media, PostType::Video);
    assert_eq!(links.len(), 1);
    assert_eq!(links[0].url, "/videos/1.m3u8");
    assert_eq!(links[0].content_type, "video/mp4");
    assert_eq!(links[0].source, LinkSource::VideoPost);
    let nothing = MediaMarkup { gallery: None, video_source: None };
    assert!(extractor.extract_urls(&nothing, PostType::Image).is_empty());
    assert!(extractor.extract_urls(&nothing, PostType::Video).is_empty());
}

#[test]
fn post_type_and_title() {
    assert_eq!(extract_post_type(true, true), Some(PostType::Video));
    assert_eq!(extract_post_type(true, false), Some(PostType::Video));
    assert_eq!(extract_post_type(false, true), Some(PostType::Image));
    assert_eq!(extract_post_type(false, false), None);
    assert_eq!(extract_title(Some("Hello".into())), "Hello");
    assert_eq!(extract_title(Some("".into())), "");
    assert_eq!(extract_title(None), "Untitled");
}

#[test]
fn tags_are_trimmed_and_stripped_of_their_hash() {
    assert_eq!(extract_tag(" #tag ").as_deref(), Some("tag"));
    assert_eq!(extract_tag("tag").as_deref(), Some("tag"));
    assert_eq!(extract_tag("##tag").as_deref(), Some("#tag"));
    assert_eq!(extract_tag("#").as_deref(), Some(""));
    assert_eq!(extract_tag("  \n "), None);
    assert_eq!(extract_tag(""), None);
    assert_eq!(extract_tag("a #b").as_deref(), Some("a #b"));
    assert_eq!(
        extract_tags(&texts(&[" #one", "", "two ", "\t", "#", "# three"])),
        texts(&["one", "two", "", " three"])
    );
    assert!(extract_tags(&vec![]).is_empty());
}

fn same_post(post: &CreatePost, id: i64, title: &str, tags: &[&str], likes: i64) {
    assert_eq!(post.id, id);
    assert_eq!(post.title, title);
    assert_eq!(post.tags, texts(tags));
    assert_eq!(post.like_count, likes);
}

#[test]
fn a_post_is_made_of_its_markup() {
    let post = scrape_post(&scraped(Some("post-4711")), "someone").unwrap().unwrap();
    same_post(&post, 4711, "A title", &["one", "two"], 12);
    assert_eq!(post.creator, "someone");
    assert_eq!(post.post_type, PostType::Image);
    assert_eq!(post.links.len(), 1);
    assert_eq!(post.links[0].url, "/images/1/big");
    // A video wins over an image.
    let mut video = scraped(Some("post-5"));
    video.has_video = true;
    video.media.video_source = Some("/videos/5.m3u8".into());
    let post = scrape_post(&video, "someone").unwrap().unwrap();
    assert_eq!(post.post_type, PostType::Video);
    assert_eq!(post.links[0].source, LinkSource::VideoPost);
    // Missing title and likes fall back.
    let mut bare = scraped(Some("12"));
    bare.title = None;
    bare.like_count = None;
    bare.tags = vec![];
    let post = scrape_post(&bare, "someone").unwrap().unwrap();
    same_post(&post, 12, "Untitled", &[], 0);
    let mut odd = scraped(Some("post-post-13"));
    odd.like_count = Some("many".into());
    let post = scrape_post(&odd, "someone").unwrap().unwrap();
    same_post(&post, 13, "A title", &["one", "two"], 0);
}

#[test]
fn markup_that_gives_no_post() {
    assert!(scrape_post(&scraped(None), "someone").unwrap().is_none());
    let mut untyped = scraped(Some("post-1"));
    untyped.has_image = false;
    assert!(scrape_post(&untyped, "someone").unwrap().is_none());
    let mut empty = scraped(Some("post-1"));
    empty.media.gallery = Some(vec![]);
    assert!(scrape_post(&empty, "someone").unwrap().is_none());
    let mut unread = scraped(Some("post-1"));
    unread.media.gallery = None;
    assert!(scrape_post(&unread, "someone").unwrap().is_none());
    assert_eq!(
        scrape_post(&scraped(Some("post-abc")), "someone").unwrap_err(),
        ScrapeError::InvalidId
    );
    assert_eq!(scrape_post(&scraped(Some("")), "someone").unwrap_err(), ScrapeError::InvalidId);
    // The id is read before the post is looked at any further.
    let mut both = scraped(Some("post-x"));
    both.has_image = false;
    assert_eq!(scrape_post(&both, "someone").unwrap_err(), ScrapeError::InvalidId);
}

#[test]
fn a_page_is_harvested_in_order() {
    let page = vec![
        scraped(Some("post-3")),
        scraped(None),
        scraped(Some("post-1")),
        scraped(Some("post-2")),
    ];
    let posts = scrape_posts(&page, "someone").unwrap();
    let ids: Vec<i64> = posts.iter().map(|p| p.id).collect();
    assert_eq!(ids, vec![3, 1, 2]);
    assert!(scrape_posts(&vec![], "someone").unwrap().is_empty());
    let page = vec![scraped(Some("post-3")), scraped(Some("post-oops")), scraped(Some("post-2"))];
    assert_eq!(scrape_posts(&page, "someone").unwrap_err(), ScrapeError::InvalidId);
}

#[test]
fn pages_are_addressed_by_number_and_creator() {
    assert_eq!(
        page_url(0, 1234),
        "https://hutt.co/hutts/ajax-posts?page=0&view=view&id=1234"
    );
    assert_eq!(
        page_url(17, -1),
        "https://hutt.co/hutts/ajax-posts?page=17&view=view&id=-1"
    );
}

fn one_post() -> CreatePost {
    scrape_post(&scraped(Some("post-1")), "someone").unwrap().unwrap()
}

#[test]
fn paging_goes_on_until_a_page_is_empty() {
    assert!(is_rate_limited(429));
    assert!(!is_rate_limited(200));
    assert!(!is_rate_limited(503));
    assert_eq!(next_step(3, &FetchResult::RateLimited), PageStep::Wait { seconds: 120 });
    assert_eq!(next_step(3, &FetchResult::Posts(vec![])), PageStep::Stop);
    assert_eq!(
        next_step(3, &FetchResult::Posts(vec![one_post()])),
        PageStep::Store { next_page: Some(4) }
    );
    assert_eq!(
        next_step(0, &FetchResult::Posts(vec![one_post(), one_post()])),
        PageStep::Store { next_page: Some(1) }
    );
    assert_eq!(
        next_step(u32::MAX, &FetchResult::Posts(vec![one_post()])),
        PageStep::Store { next_page: None }
    );
}
