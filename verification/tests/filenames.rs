use camino::Utf8PathBuf;
use hutt_downloader::filenames::{
    fix_token, get_download_path, get_post_title, ignored_tokens, is_smiley, limit_length,
    sanitize, substitute,
};
use hutt_downloader::model::{Post, PostType};

const PATTERN_1: &str = "{type}/{post_id} - {title} - {link_id}";
const PATTERN_2: &str = "{type}/{post_id} - {title}/{link_id}";
const ROOT: &str = "./downloads";

fn image_post(title: &str, tags: &[&str]) -> Post {
    Post {
        id: 543321,
        title: title.to_string(),
        tags: tags.iter().map(|t| t.to_string()).collect(),
        post_type: PostType::Image,
        links: vec![],
        creator: "".into(),
        like_count: 0,
        generated_title: None,
        created_at: None,
    }
}

#[test]
fn test_title_with_smiley() {
    let post = Post {
        id: 543321,
        title: "Hello :) :( <3 >.>".to_string(),
        tags: vec![],
        post_type: PostType::Image,
        links: vec![],
        creator: "".into(),
        like_count: 0,
        generated_title: None,
        created_at: None,
    };

    // Smileys stay in the derived title; what no file name may hold is
    // replaced only when the path is made, and the text after the last dot of
    // the file name gives way to the extension.
    assert_eq!(get_post_title(&post), "Hello :) :( <3 >.>");
    let title = Utf8PathBuf::from(get_download_path(&post, 12345, PATTERN_1, ROOT));
    assert_eq!(title.file_name().unwrap(), "543321 - Hello  )  (  3  .jpeg");
}

#[test]
fn test_long_title() {
    let post = Post {
        id: 543321,
        title: "Snapchat dump photos! So, snapchat is being unfair and won't let me save like the majorityh of my stories. I'm trying to figure it out )))):".to_string(),
        tags: vec![],
        post_type: PostType::Image,
        links: vec![],
        creator: "".into(),
        like_count: 0,
        generated_title: None,
        created_at: None,
    };

    let title = Utf8PathBuf::from(get_download_path(&post, 12345, PATTERN_1, ROOT));
    // The first eight words are exactly 50 characters long; the ninth would
    // cross the limit and is left out with all after it.
    assert_eq!(
        get_post_title(&post),
        "Snapchat dump photos! So, snapchat is being unfair"
    );
    assert_eq!(get_post_title(&post).chars().count(), 50);
    assert_eq!(
        title.file_name().unwrap(),
        "543321 - Snapchat dump photos! So, snapchat is being unfair - 12345.jpeg"
    );
}

#[test]
fn test_no_title() {
    let post = Post {
        id: 543321,
        title: "".to_string(),
        tags: ["tailplug", "boobs", "ass", "petplay", "collar", "pussy"]
            .into_iter()
            .map(ToOwned::to_owned)
            .collect(),
        post_type: PostType::Image,
        links: vec![],
        creator: "".into(),
        like_count: 0,
        generated_title: None,
        created_at: None,
    };

    let title = Utf8PathBuf::from(get_download_path(&post, 12345, PATTERN_1, ROOT));
    assert_eq!(
        title.file_name().unwrap(),
        "543321 - tailplug boobs ass petplay collar pussy - 12345.jpeg"
    );
}

#[test]
fn test_title_with_dots() {
    let post = Post {
        id: 543321,
        tags: ["tailplug", "boobs", "ass", "petplay", "collar", "pussy"]
            .into_iter()
            .map(ToOwned::to_owned)
            .collect(),
        post_type: PostType::Image,
        links: vec![],
        creator: "".into(),
        like_count: 0,
        title: "presentingggggg..".to_string(),
        generated_title: None,
        created_at: None,
    };

    let title = Utf8PathBuf::from(get_download_path(&post, 1234, PATTERN_2, ROOT));
    assert_eq!(
        title,
        "./downloads/Images/543321 - presentingggggg/1234.jpeg"
    );
}

#[test]
fn test_title_with_slash() {
    let post = Post {
        id: 543321,
        tags: vec![],
        post_type: PostType::Image,
        links: vec![],
        creator: "".into(),
        like_count: 0,
        title: "something / something else".to_string(),
        generated_title: None,
        created_at: None,
    };

    let title = Utf8PathBuf::from(get_download_path(&post, 1234, PATTERN_2, ROOT));
    assert_eq!(
        title,
        "./downloads/Images/543321 - something something else/1234.jpeg"
    );
}

#[test]
fn test_title_with_slash_2() {
    let post = Post {
        id: 543321,
        tags: vec![],
        post_type: PostType::Image,
        links: vec![],
        creator: "".into(),
        like_count: 0,
        title: "something/something else".to_string(),
        generated_title: None,
        created_at: None,
    };

    let title = Utf8PathBuf::from(get_download_path(&post, 1234, PATTERN_2, ROOT));
    assert_eq!(
        title,
        "./downloads/Images/543321 - something something else/1234.jpeg"
    );
}

#[test]
fn test_title_with_url() {
    let post = Post {
        id: 543321,
        tags: vec![],
        post_type: PostType::Image,
        links: vec![],
        creator: "".into(),
        like_count: 0,
        title: "My SFW question answers! https://beacons.ai/auroraflower".to_string(),
        generated_title: None,
        created_at: None,
    };

    let title = Utf8PathBuf::from(get_download_path(&post, 1234, PATTERN_2, ROOT));
    assert_eq!(
        title,
        "./downloads/Images/543321 - My SFW question answers!/1234.jpeg"
    );
}

#[test]
fn title_keeps_smileys_and_drops_urls() {
    assert!(is_smiley(":)"));
    assert!(is_smiley(":("));
    assert!(!is_smiley(":-)"));
    assert!(!is_smiley("<3"));
    assert!(!is_smiley(":"));
    assert!(ignored_tokens(&":)"));
    assert!(ignored_tokens(&"<3"));
    assert!(ignored_tokens(&"word"));
    assert!(!ignored_tokens(&"/"));
    assert!(ignored_tokens(&"//"));
    assert!(!ignored_tokens(&"http://example.com"));
    assert!(!ignored_tokens(&"https://example.com"));
    assert!(!ignored_tokens(&"http"));
    assert!(ignored_tokens(&"htt"));
    assert!(ignored_tokens(&"Http://example.com"));
}

#[test]
fn title_with_url_only_suffix() {
    let post = image_post("My SFW question answers! https://beacons.ai/auroraflower", &[]);
    assert_eq!(get_post_title(&post), "My SFW question answers!");
    let post = image_post("https://a.example http://b.example", &["tag"]);
    assert_eq!(get_post_title(&post), "tag");
}

#[test]
fn slashes_fold_to_spaces() {
    assert_eq!(fix_token("something/something"), "something something");
    assert_eq!(fix_token("a//b/"), "a  b ");
    assert_eq!(fix_token("plain"), "plain");
    assert_eq!(fix_token(""), "");
    assert_eq!(
        get_post_title(&image_post("something / something else", &[])),
        "something something else"
    );
    assert_eq!(
        get_post_title(&image_post("something/something else", &[])),
        "something something else"
    );
    // A slash at the end of a token leaves a space that trimming removes.
    assert_eq!(get_post_title(&image_post("end/", &[])), "end");
}

#[test]
fn limit_length_boundary() {
    let words = |text: &str| -> Vec<String> { text.split(' ').map(str::to_owned).collect() };
    // Exactly at the limit: kept.
    assert_eq!(limit_length(words("abc de"), 6), "abc de");
    // One over the limit: the crossing token is left out whole.
    assert_eq!(limit_length(words("abc de"), 5), "abc");
    assert_eq!(limit_length(words("abc de f"), 5), "abc");
    // The separator counts.
    assert_eq!(limit_length(words("ab cd"), 4), "ab");
    // A first token that is too long leaves nothing.
    assert_eq!(limit_length(words("toolong a"), 3), "");
    assert_eq!(limit_length(vec![], 50), "");
    assert_eq!(limit_length(words("a b c"), 0), "");
    // Characters are counted, not bytes.
    assert_eq!(limit_length(words("éé éé"), 5), "éé éé");
    assert_eq!(limit_length(words("éé éé"), 4), "éé");
}

#[test]
fn title_falls_back_to_tags_then_placeholder() {
    assert_eq!(
        get_post_title(&image_post(
            "",
            &["tailplug", "boobs", "ass", "petplay", "collar", "pussy"]
        )),
        "tailplug boobs ass petplay collar pussy"
    );
    assert_eq!(get_post_title(&image_post("", &[])), "no title");
    assert_eq!(get_post_title(&image_post("   \t ", &[])), "no title");
    assert_eq!(get_post_title(&image_post("http://only.example", &[])), "no title");
    // A title whose first word alone is over the limit yields nothing.
    let long = "x".repeat(51);
    assert_eq!(get_post_title(&image_post(&long, &["tag"])), "tag");
    // Tags are cut like titles.
    let tags: Vec<String> = (0..20).map(|i| format!("tag{i:02}")).collect();
    let tag_refs: Vec<&str> = tags.iter().map(String::as_str).collect();
    assert_eq!(
        get_post_title(&image_post("", &tag_refs)),
        "tag00 tag01 tag02 tag03 tag04 tag05 tag06 tag07"
    );
    // The result is trimmed.
    assert_eq!(get_post_title(&image_post("", &[" spaced "])), "spaced");
}

#[test]
fn placeholders_are_substituted() {
    assert_eq!(
        substitute(PATTERN_1, 543321, "Hello", 12345, PostType::Image),
        "Images/543321 - Hello - 12345"
    );
    assert_eq!(
        substitute(PATTERN_2, -5, "t", 7, PostType::Video),
        "Videos/-5 - t/7"
    );
    assert_eq!(substitute("plain", 1, "t", 2, PostType::Video), "plain");
    assert_eq!(
        substitute("{title}{title}{nothing}", 1, "ab", 2, PostType::Video),
        "abab{nothing}"
    );
    // A title that holds a placeholder is read again by the later steps.
    assert_eq!(
        substitute("{title}", 1, "{link_id}{post_id}", 2, PostType::Video),
        "2{post_id}"
    );
    assert_eq!(
        substitute("{post_id}", i64::MIN, "", 0, PostType::Image),
        "-9223372036854775808"
    );
}

#[test]
fn segments_are_sanitized() {
    assert_eq!(sanitize("a/b:c"), "a b c");
    assert_eq!(sanitize("what?"), "what ");
    assert_eq!(sanitize("dots.."), "dots ");
    assert_eq!(sanitize("plain name"), "plain name");
    assert_ne!(sanitize("a<b>"), "a<b>");
}

#[test]
fn paths_by_post_type() {
    let mut post = image_post("Title", &[]);
    assert_eq!(
        Utf8PathBuf::from(get_download_path(&post, 7, "{type}/{post_id} - {title}", "downloads")),
        "downloads/Images/543321 - Title.jpeg"
    );
    post.post_type = PostType::Video;
    assert_eq!(
        Utf8PathBuf::from(get_download_path(&post, 7, "{type}/{post_id} - {title}", "downloads")),
        "downloads/Videos/543321 - Title.mp4"
    );
    // An extension that the pattern implies gives way to the type's own.
    assert_eq!(
        Utf8PathBuf::from(get_download_path(&post, 7, "{link_id}.png", "downloads")),
        "downloads/7.mp4"
    );
    assert_eq!(get_download_path(&post, 7, "{link_id}", "downloads"), "downloads/7.mp4");
}

#[test]
fn resolve_is_deterministic() {
    let post = image_post("Some title / with https://url.example and words", &["a", "b"]);
    let first = get_download_path(&post, 99, PATTERN_2, ROOT);
    let second = get_download_path(&post, 99, PATTERN_2, ROOT);
    assert_eq!(first, second);
    // Fields that the path does not depend on change nothing.
    let mut other = image_post("Some title / with https://url.example and words", &["a", "b"]);
    other.creator = "someone".into();
    other.like_count = 12;
    other.generated_title = Some("generated".into());
    assert_eq!(get_download_path(&other, 99, PATTERN_2, ROOT), first);
}
