use std::collections::{BTreeMap, BTreeSet};

use hutt_downloader::config::FilenamePatterns;
use hutt_downloader::download::{
    media_url, plan_fetch, referer, select_work, video_fetch_arguments, Action, DownloadArgs,
    DownloadRun, Event, FetchPlan, Phase, WorkItem, FETCHER, USER_AGENT,
};
use hutt_downloader::model::{
    CreatePostLink, LinkSource, LinkStatus, Post, PostLink, PostType, StatusUpdate,
};
use hutt_downloader::store::update_status;

fn link(id: i64) -> PostLink {
    PostLink::new(
        id,
        CreatePostLink {
            url: format!("/images/{id}/big"),
            content_type: "image/jpeg".into(),
            source: LinkSource::ImageGallery,
        },
    )
}

fn post(id: i64, post_type: PostType, links: Vec<PostLink>) -> Post {
    Post {
        id,
        title: format!("post {id}"),
        creator: "creator".into(),
        tags: vec![],
        post_type,
        like_count: 0,
        links,
        generated_title: None,
        created_at: None,
    }
}

fn args(dry_run: bool, fail_fast: bool) -> DownloadArgs {
    DownloadArgs {
        filename_pattern: FilenamePatterns { image: "{link_id}".into(), video: "v{link_id}".into() },
        path: "downloads".into(),
        dry_run,
        progress: false,
        fail_fast,
    }
}

fn sample_posts() -> Vec<Post> {
    vec![
        post(1, PostType::Image, vec![link(10), link(11)]),
        post(2, PostType::Video, vec![link(20)]),
        post(3, PostType::Image, vec![]),
        post(4, PostType::Image, vec![link(40)]),
    ]
}

/// Disk and store, as far as a run can tell.
struct World {
    files: BTreeSet<String>,
    failing: BTreeSet<i64>,
    stuck: bool,
    store_down: bool,
    fetched: Vec<i64>,
    recorded: Vec<(i64, String)>,
    announced: Vec<i64>,
}

fn world() -> World {
    World {
        files: BTreeSet::new(),
        failing: BTreeSet::new(),
        stuck: false,
        store_down: false,
        fetched: vec![],
        recorded: vec![],
        announced: vec![],
    }
}

/// Carries out a whole run against the world; returns the error it ended
/// with, if any.
fn drive(posts: &mut Vec<Post>, world: &mut World, args: &DownloadArgs) -> Option<String> {
    let items = select_work(posts, args);
    let mut run = DownloadRun::new(items, args.dry_run, args.fail_fast);
    let mut event = Event::Started;
    for _ in 0..1000 {
        let action = run.advance(event);
        event = match action {
            Action::Finish => return None,
            Action::Abort { error } => return Some(error),
            Action::Announce { index } => {
                world.announced.push(run.items()[index].link_id);
                Event::Announced
            }
            Action::Probe { index } => {
                Event::Exists(world.files.contains(&run.items()[index].destination))
            }
            Action::Fetch { index } => {
                let item: &WorkItem = &run.items()[index];
                world.fetched.push(item.link_id);
                world.files.insert(item.destination.clone());
                if world.failing.contains(&item.link_id) {
                    // A failed fetch leaves part of the file behind.
                    Event::FetchFailed { error: format!("failed to download {}", item.url) }
                } else {
                    Event::Fetched
                }
            }
            Action::Discard { index } => {
                if world.stuck {
                    Event::DiscardFailed { error: "cannot remove".into() }
                } else {
                    world.files.remove(&run.items()[index].destination);
                    Event::Discarded
                }
            }
            Action::Record { index, update } => {
                let link_id = run.items()[index].link_id;
                if world.store_down {
                    Event::StoreFailed { error: "store unreachable".into() }
                } else {
                    world.recorded.push((link_id, format!("{update:?}")));
                    assert!(update_status(posts, link_id, update));
                    Event::Recorded
                }
            }
        };
    }
    panic!("the run did not end");
}

fn statuses(posts: &[Post]) -> BTreeMap<i64, LinkStatus> {
    posts.iter().flat_map(|p| p.links.iter()).map(|l| (l.id, l.status)).collect()
}

fn snapshot(posts: &[Post]) -> String {
    format!("{posts:?}")
}

#[test]
fn selects_links_that_are_not_downloaded() {
    let mut posts = sample_posts();
    posts[0].links[0].update_status(StatusUpdate::Success {
        file_path: "downloads/10.jpeg".into(),
        file_path_pattern: "{link_id}".into(),
    });
    posts[1].links[0].update_status(StatusUpdate::Error { error: "earlier failure".into() });
    let items = select_work(&posts, &args(false, true));
    let ids: Vec<i64> = items.iter().map(|i| i.link_id).collect();
    assert_eq!(ids, vec![11, 20, 40]);
    assert_eq!(items[0].post_id, 1);
    assert_eq!(items[0].destination, "downloads/11.jpeg");
    assert_eq!(items[0].directory.as_deref(), Some("downloads"));
    assert_eq!(items[0].file_name.as_deref(), Some("11.jpeg"));
    assert_eq!(items[0].pattern, "{link_id}");
    assert_eq!(items[0].url, "/images/11/big");
    assert_eq!(items[0].post_type, PostType::Image);
    assert_eq!(items[1].destination, "downloads/v20.mp4");
    assert_eq!(items[1].pattern, "v{link_id}");
    assert_eq!(items[1].post_type, PostType::Video);
}

#[test]
fn nothing_to_select_when_all_is_downloaded() {
    let mut posts = sample_posts();
    for post in posts.iter_mut() {
        for link in post.links.iter_mut() {
            link.update_status(StatusUpdate::Success {
                file_path: "x".into(),
                file_path_pattern: "p".into(),
            });
        }
    }
    assert!(select_work(&posts, &args(false, true)).is_empty());
    assert!(select_work(&vec![], &args(false, true)).is_empty());
}

#[test]
fn a_run_downloads_and_records_every_link() {
    let mut posts = sample_posts();
    let mut world = world();
    assert_eq!(drive(&mut posts, &mut world, &args(false, true)), None);
    assert_eq!(world.fetched, vec![10, 11, 20, 40]);
    assert_eq!(world.recorded.len(), 4);
    assert!(statuses(&posts).values().all(|s| *s == LinkStatus::Downloaded));
    assert_eq!(posts[0].links[1].file_path.as_deref(), Some("downloads/11.jpeg"));
    assert_eq!(posts[0].links[1].file_path_pattern.as_deref(), Some("{link_id}"));
    assert!(world.files.contains("downloads/v20.mp4"));
}

#[test]
fn a_second_run_changes_nothing_and_fetches_nothing() {
    let mut posts = sample_posts();
    let mut world = world();
    assert_eq!(drive(&mut posts, &mut world, &args(false, true)), None);
    let store_after_first = snapshot(&posts);
    let files_after_first = world.files.clone();
    world.fetched.clear();
    world.recorded.clear();
    assert_eq!(drive(&mut posts, &mut world, &args(false, true)), None);
    assert_eq!(world.fetched, Vec::<i64>::new());
    assert_eq!(snapshot(&posts), store_after_first);
    assert_eq!(world.files, files_after_first);
}

#[test]
fn an_existing_file_is_recorded_without_a_fetch() {
    let mut posts = sample_posts();
    let mut world = world();
    world.files.insert("downloads/11.jpeg".into());
    assert_eq!(drive(&mut posts, &mut world, &args(false, true)), None);
    assert_eq!(world.fetched, vec![10, 20, 40]);
    assert_eq!(posts[0].links[1].status, LinkStatus::Downloaded);
    assert_eq!(posts[0].links[1].file_path.as_deref(), Some("downloads/11.jpeg"));
    // Run again after the store lost the status: found on disk, not fetched.
    posts[0].links[1].reset();
    world.fetched.clear();
    assert_eq!(drive(&mut posts, &mut world, &args(false, true)), None);
    assert_eq!(world.fetched, Vec::<i64>::new());
    assert_eq!(posts[0].links[1].status, LinkStatus::Downloaded);
}

#[test]
fn fail_fast_stops_at_the_first_failure() {
    let mut posts = sample_posts();
    let mut world = world();
    world.failing.insert(11);
    let error = drive(&mut posts, &mut world, &args(false, true));
    assert_eq!(error.as_deref(), Some("failed to download /images/11/big"));
    assert_eq!(world.fetched, vec![10, 11]);
    let after = statuses(&posts);
    assert_eq!(after[&10], LinkStatus::Downloaded);
    assert_eq!(after[&11], LinkStatus::Error);
    assert_eq!(after[&20], LinkStatus::Pending);
    assert_eq!(after[&40], LinkStatus::Pending);
    assert_eq!(
        posts[0].links[1].error.as_deref(),
        Some("failed to download /images/11/big")
    );
    // What the failed fetch left behind is gone.
    assert!(!world.files.contains("downloads/11.jpeg"));
    assert!(world.files.contains("downloads/10.jpeg"));
}

#[test]
fn remains_that_cannot_be_removed_end_the_run() {
    let mut posts = sample_posts();
    let mut world = world();
    world.failing.insert(11);
    world.stuck = true;
    let error = drive(&mut posts, &mut world, &args(false, false));
    assert_eq!(error.as_deref(), Some("cannot remove"));
    assert_eq!(world.fetched, vec![10, 11]);
    // The failure of the fetch is on record all the same.
    assert_eq!(statuses(&posts)[&11], LinkStatus::Error);
    assert_eq!(
        posts[0].links[1].error.as_deref(),
        Some("failed to download /images/11/big")
    );
}

#[test]
fn without_fail_fast_the_run_goes_on() {
    let mut posts = sample_posts();
    let mut world = world();
    world.failing.insert(11);
    assert_eq!(drive(&mut posts, &mut world, &args(false, false)), None);
    assert_eq!(world.fetched, vec![10, 11, 20, 40]);
    let after = statuses(&posts);
    assert_eq!(after[&10], LinkStatus::Downloaded);
    assert_eq!(after[&11], LinkStatus::Error);
    assert_eq!(after[&20], LinkStatus::Downloaded);
    assert_eq!(after[&40], LinkStatus::Downloaded);
    // The failed link is tried again by the next run.
    world.failing.clear();
    world.fetched.clear();
    assert_eq!(drive(&mut posts, &mut world, &args(false, false)), None);
    assert_eq!(world.fetched, vec![11]);
    assert_eq!(statuses(&posts)[&11], LinkStatus::Downloaded);
    assert_eq!(posts[0].links[1].error, None);
}

#[test]
fn a_dry_run_touches_nothing() {
    let mut posts = sample_posts();
    let before = snapshot(&posts);
    let mut world = world();
    world.files.insert("downloads/11.jpeg".into());
    assert_eq!(drive(&mut posts, &mut world, &args(true, true)), None);
    assert_eq!(world.announced, vec![10, 11, 20, 40]);
    assert_eq!(world.fetched, Vec::<i64>::new());
    assert!(world.recorded.is_empty());
    assert_eq!(snapshot(&posts), before);
    assert_eq!(world.files.len(), 1);
}

#[test]
fn a_failing_store_ends_the_run() {
    let mut posts = sample_posts();
    let mut world = world();
    world.store_down = true;
    let error = drive(&mut posts, &mut world, &args(false, false));
    assert_eq!(error.as_deref(), Some("store unreachable"));
    assert_eq!(world.fetched, vec![10]);
    assert!(statuses(&posts).values().all(|s| *s == LinkStatus::Pending));
}

#[test]
fn the_run_steps_through_its_phases() {
    let posts = vec![post(1, PostType::Image, vec![link(10)])];
    let items = select_work(&posts, &args(false, true));
    let mut run = DownloadRun::new(items, false, true);
    assert_eq!(run.phase(), Phase::Ready);
    assert_eq!(run.completed(), 0);
    assert!(matches!(run.advance(Event::Started), Action::Probe { index: 0 }));
    assert_eq!(run.phase(), Phase::Probing);
    assert!(matches!(run.advance(Event::Exists(false)), Action::Fetch { index: 0 }));
    assert_eq!(run.phase(), Phase::Fetching);
    match run.advance(Event::Fetched) {
        Action::Record { index: 0, update: StatusUpdate::Success { file_path, file_path_pattern } } => {
            assert_eq!(file_path, "downloads/10.jpeg");
            assert_eq!(file_path_pattern, "{link_id}");
        }
        other => panic!("unexpected action {other:?}"),
    }
    assert_eq!(run.phase(), Phase::Recording);
    assert!(matches!(run.advance(Event::Recorded), Action::Finish));
    assert_eq!(run.phase(), Phase::Finished);
    assert_eq!(run.completed(), 1);
    // A finished run stays finished.
    assert!(matches!(run.advance(Event::Exists(true)), Action::Finish));
    assert!(matches!(run.advance(Event::Started), Action::Finish));
}

#[test]
fn an_aborted_run_stays_aborted() {
    let posts = vec![post(1, PostType::Image, vec![link(10), link(11)])];
    let items = select_work(&posts, &args(false, true));
    let mut run = DownloadRun::new(items, false, true);
    run.advance(Event::Started);
    run.advance(Event::Exists(false));
    assert!(matches!(
        run.advance(Event::FetchFailed { error: "boom".into() }),
        Action::Discard { index: 0 }
    ));
    assert_eq!(run.phase(), Phase::Discarding);
    match run.advance(Event::Discarded) {
        Action::Record { index: 0, update: StatusUpdate::Error { error } } => {
            assert_eq!(error, "boom")
        }
        other => panic!("unexpected action {other:?}"),
    }
    match run.advance(Event::Recorded) {
        Action::Abort { error } => assert_eq!(error, "boom"),
        other => panic!("unexpected action {other:?}"),
    }
    assert_eq!(run.phase(), Phase::Aborted);
    for event in [Event::Started, Event::Exists(true), Event::Fetched, Event::Recorded] {
        match run.advance(event) {
            Action::Abort { error } => assert_eq!(error, "boom"),
            other => panic!("unexpected action {other:?}"),
        }
    }
    assert_eq!(run.completed(), 0);
}

#[test]
fn an_unexpected_event_ends_the_run() {
    let posts = vec![post(1, PostType::Image, vec![link(10)])];
    let mut run = DownloadRun::new(select_work(&posts, &args(false, true)), false, true);
    match run.advance(Event::Fetched) {
        Action::Abort { error } => assert_eq!(error, "unexpected event"),
        other => panic!("unexpected action {other:?}"),
    }
    let mut run = DownloadRun::new(select_work(&posts, &args(false, true)), false, true);
    run.advance(Event::Started);
    match run.advance(Event::Recorded) {
        Action::Abort { error } => assert_eq!(error, "unexpected event"),
        other => panic!("unexpected action {other:?}"),
    }
}

#[test]
fn an_empty_run_finishes_at_once() {
    let mut run = DownloadRun::new(vec![], false, true);
    assert!(matches!(run.advance(Event::Started), Action::Finish));
    assert!(run.items().is_empty());
}

#[test]
fn fetcher_arguments_are_fixed() {
    let arguments = video_fetch_arguments("session=1", "creator", "/videos/5.m3u8", "5.mp4");
    let expected: Vec<String> = [
        "--add-header",
        "Cookie: session=1",
        "--add-header",
        &format!("User-Agent: {USER_AGENT}"),
        "--add-header",
        "Referer: https://hutt.co/creator",
        "-N",
        "3",
        "-R",
        "3",
        "--retry-sleep",
        "120",
        "-o",
        "5.mp4",
        "https://hutt.co/videos/5.m3u8",
    ]
    .iter()
    .map(|s| s.to_string())
    .collect();
    assert_eq!(arguments, expected);
}

#[test]
fn addresses_are_built_from_the_origin() {
    assert_eq!(media_url("/images/1/big"), "https://hutt.co/images/1/big");
    assert_eq!(media_url(""), "https://hutt.co");
    assert_eq!(referer("someone"), "https://hutt.co/someone");
}

#[test]
fn fetches_are_planned_by_post_type() {
    let posts = vec![
        post(1, PostType::Image, vec![link(10)]),
        post(2, PostType::Video, vec![link(20)]),
    ];
    let items = select_work(&posts, &args(false, true));
    match plan_fetch(&items[0], "session=1", "creator") {
        Some(FetchPlan::Image { directory, url, headers }) => {
            assert_eq!(directory, "downloads");
            assert_eq!(url, "https://hutt.co/images/10/big");
            let headers: Vec<(String, String)> =
                headers.into_iter().map(|h| (h.name, h.value)).collect();
            assert_eq!(
                headers,
                vec![
                    ("Cookie".to_string(), "session=1".to_string()),
                    ("User-Agent".to_string(), USER_AGENT.to_string()),
                    ("Referer".to_string(), "https://hutt.co/creator".to_string()),
                ]
            );
        }
        other => panic!("unexpected plan {other:?}"),
    }
    match plan_fetch(&items[1], "session=1", "creator") {
        Some(FetchPlan::Video { directory, arguments }) => {
            assert_eq!(directory, "downloads");
            assert_eq!(
                arguments,
                video_fetch_arguments("session=1", "creator", "/images/20/big", "v20.mp4")
            );
        }
        other => panic!("unexpected plan {other:?}"),
    }
    assert_eq!(FETCHER, "yt-dlp");
}

#[test]
fn a_destination_without_directory_cannot_be_fetched() {
    let item = |post_type, directory: Option<&str>, file_name: Option<&str>| WorkItem {
        post_id: 1,
        link_id: 2,
        post_type,
        url: "/u".into(),
        destination: "x".into(),
        directory: directory.map(str::to_owned),
        file_name: file_name.map(str::to_owned),
        pattern: "p".into(),
    };
    assert!(plan_fetch(&item(PostType::Image, None, Some("x")), "c", "n").is_none());
    assert!(plan_fetch(&item(PostType::Video, None, Some("x")), "c", "n").is_none());
    assert!(plan_fetch(&item(PostType::Video, Some(""), None), "c", "n").is_none());
    assert!(plan_fetch(&item(PostType::Image, Some(""), None), "c", "n").is_some());
    assert!(plan_fetch(&item(PostType::Video, Some(""), Some("x")), "c", "n").is_some());
}
