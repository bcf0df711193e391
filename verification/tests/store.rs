use hutt_downloader::model::{
    CreatePostLink, LinkSource, LinkStatus, Post, PostLink, PostType, StatusUpdate,
};
use hutt_downloader::store::{reset_downloads, update_path, update_status};

fn link(id: i64) -> PostLink {
    PostLink::new(
        id,
        CreatePostLink {
            url: format!("/images/{id}/big"),
            content_type: "image/jpeg".into(),
            source: LinkSource::ImageGallery,
        },
    )
}

fn post(id: i64, links: Vec<PostLink>) -> Post {
    Post {
        id,
        title: format!("post {id}"),
        creator: "creator".into(),
        tags: vec!["tag".into()],
        post_type: PostType::Image,
        like_count: 1,
        links,
        generated_title: None,
        created_at: None,
    }
}

fn posts() -> Vec<Post> {
    vec![post(1, vec![link(10), link(11)]), post(2, vec![]), post(3, vec![link(30)])]
}

fn success(path: &str) -> StatusUpdate {
    StatusUpdate::Success { file_path: path.into(), file_path_pattern: "{link_id}".into() }
}

fn without(posts: &[Post], link_id: i64) -> String {
    let others: Vec<&PostLink> =
        posts.iter().flat_map(|p| p.links.iter()).filter(|l| l.id != link_id).collect();
    format!("{others:?}")
}

#[test]
fn an_outcome_is_recorded_for_the_link_with_the_id() {
    let mut store = posts();
    let others = without(&store, 11);
    assert!(update_status(&mut store, 11, success("downloads/11.jpeg")));
    assert_eq!(store[0].links[1].status, LinkStatus::Downloaded);
    assert_eq!(store[0].links[1].file_path.as_deref(), Some("downloads/11.jpeg"));
    assert_eq!(store[0].links[1].file_path_pattern.as_deref(), Some("{link_id}"));
    assert_eq!(without(&store, 11), others);
    assert_eq!(store[0].title, "post 1");
    assert_eq!(store.len(), 3);
    assert!(update_status(&mut store, 30, StatusUpdate::Error { error: "failed".into() }));
    assert_eq!(store[2].links[0].status, LinkStatus::Error);
    assert_eq!(store[2].links[0].error.as_deref(), Some("failed"));
    assert!(update_status(&mut store, 30, StatusUpdate::Pending));
    assert_eq!(store[2].links[0].status, LinkStatus::Pending);
    assert_eq!(store[2].links[0].error, None);
}

#[test]
fn an_unknown_link_changes_nothing() {
    let mut store = posts();
    let before = format!("{store:?}");
    assert!(!update_status(&mut store, 99, success("x")));
    assert_eq!(format!("{store:?}"), before);
    assert!(!update_path(&mut store, 99, "x", "p"));
    assert_eq!(format!("{store:?}"), before);
    let mut empty: Vec<Post> = vec![];
    assert!(!update_status(&mut empty, 1, StatusUpdate::Pending));
}

#[test]
fn a_path_is_updated_for_downloaded_links_only() {
    let mut store = posts();
    let before = format!("{store:?}");
    // Not downloaded: refused, nothing written.
    assert!(!update_path(&mut store, 10, "elsewhere/10.jpeg", "other"));
    assert_eq!(format!("{store:?}"), before);
    assert!(update_status(&mut store, 10, success("downloads/10.jpeg")));
    let others = without(&store, 10);
    assert!(update_path(&mut store, 10, "elsewhere/10.jpeg", "other"));
    assert_eq!(store[0].links[0].file_path.as_deref(), Some("elsewhere/10.jpeg"));
    assert_eq!(store[0].links[0].file_path_pattern.as_deref(), Some("other"));
    assert_eq!(store[0].links[0].status, LinkStatus::Downloaded);
    assert_eq!(without(&store, 10), others);
}

#[test]
fn a_reset_puts_every_link_back_to_pending() {
    let mut store = posts();
    update_status(&mut store, 10, success("a"));
    update_status(&mut store, 11, StatusUpdate::Error { error: "e".into() });
    reset_downloads(&mut store);
    assert_eq!(format!("{store:?}"), format!("{:?}", posts()));
}

#[test]
fn every_link_stays_consistent() {
    let mut store = posts();
    let updates = [
        (10, success("a")),
        (11, StatusUpdate::Error { error: "e".into() }),
        (10, StatusUpdate::Error { error: "later".into() }),
        (30, success("b")),
        (11, success("c")),
        (30, StatusUpdate::Pending),
    ];
    for (link_id, update) in updates {
        update_status(&mut store, link_id, update);
        update_path(&mut store, link_id, "moved", "pattern");
        for post in &store {
            for link in &post.links {
                assert!(link.is_consistent());
                assert_eq!(link.file_path.is_some(), link.status == LinkStatus::Downloaded);
            }
        }
    }
}
