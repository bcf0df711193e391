use std::collections::BTreeSet;

use hutt_downloader::config::FilenamePatterns;
use hutt_downloader::model::{
    CreatePostLink, LinkSource, LinkStatus, Post, PostLink, PostType, StatusUpdate,
};
use hutt_downloader::store::update_path;
use hutt_downloader::rename::{
    plan_renames, RenameAction, RenameEvent, RenameItem, RenamePhase, RenameRun,
};

fn downloaded(id: i64, path: &str) -> PostLink {
    let mut link = PostLink::new(
        id,
        CreatePostLink {
            url: format!("/images/{id}/big"),
            content_type: "image/jpeg".into(),
            source: LinkSource::ImageGallery,
        },
    );
    link.update_status(StatusUpdate::Success {
        file_path: path.into(),
        file_path_pattern: "{link_id}".into(),
    });
    link
}

fn pending(id: i64) -> PostLink {
    PostLink::new(
        id,
        CreatePostLink {
            url: format!("/images/{id}/big"),
            content_type: "image/jpeg".into(),
            source: LinkSource::ImageGallery,
        },
    )
}

fn post(id: i64, links: Vec<PostLink>) -> Post {
    Post {
        id,
        title: format!("post {id}"),
        creator: "creator".into(),
        tags: vec![],
        post_type: PostType::Image,
        like_count: 0,
        links,
        generated_title: None,
        created_at: None,
    }
}

fn patterns(image: &str) -> FilenamePatterns {
    FilenamePatterns { image: image.into(), video: "{link_id}".into() }
}

fn sample_posts() -> Vec<Post> {
    vec![
        post(1, vec![downloaded(10, "downloads/10.jpeg"), pending(11)]),
        post(2, vec![downloaded(20, "downloads/20.jpeg")]),
    ]
}

struct World {
    files: BTreeSet<String>,
    directories: BTreeSet<String>,
    store_down: bool,
    move_fails: bool,
    cleaned: bool,
    log: Vec<String>,
}

fn world(files: &[&str]) -> World {
    World {
        files: files.iter().map(|f| f.to_string()).collect(),
        directories: BTreeSet::new(),
        store_down: false,
        move_fails: false,
        cleaned: false,
        log: vec![],
    }
}

fn parent(path: &str) -> String {
    match path.rfind('/') {
        Some(at) => path[..at].to_string(),
        None => String::new(),
    }
}

fn store_path(posts: &mut Vec<Post>, item: &RenameItem) {
    assert!(update_path(posts, item.link_id, &item.new_path, &item.pattern));
}

fn drive(posts: &mut Vec<Post>, world: &mut World, image: &str, dry_run: bool) -> Option<String> {
    let items = plan_renames(posts, &patterns(image), "downloads");
    let mut run = RenameRun::new(items, dry_run);
    let mut event = RenameEvent::Started;
    for _ in 0..1000 {
        let action = run.advance(event);
        world.log.push(format!("{action:?}"));
        event = match action {
            RenameAction::Finish => return None,
            RenameAction::Abort { error } => return Some(error),
            RenameAction::Probe { index } => {
                RenameEvent::Exists(world.files.contains(&run.items()[index].current_path))
            }
            RenameAction::Announce { .. } => RenameEvent::Announced,
            RenameAction::CreateParent { index } => {
                let item = &run.items()[index];
                assert_eq!(item.directory.as_deref(), Some(parent(&item.new_path).as_str()));
                world.directories.insert(item.directory.clone().unwrap());
                RenameEvent::Done
            }
            RenameAction::Move { index } => {
                if world.move_fails {
                    RenameEvent::Failed { error: "cannot move".into() }
                } else {
                    let item = &run.items()[index];
                    assert!(world.files.remove(&item.current_path));
                    world.files.insert(item.new_path.clone());
                    RenameEvent::Done
                }
            }
            RenameAction::UpdatePath { index } => {
                if world.store_down {
                    RenameEvent::Failed { error: "store unreachable".into() }
                } else {
                    store_path(posts, &run.items()[index]);
                    RenameEvent::Done
                }
            }
            RenameAction::MoveBack { index } => {
                let item = &run.items()[index];
                assert!(world.files.remove(&item.new_path));
                world.files.insert(item.current_path.clone());
                RenameEvent::Done
            }
            RenameAction::CleanUp => {
                world.cleaned = true;
                RenameEvent::Done
            }
        };
    }
    panic!("the run did not end");
}

#[test]
fn plans_moves_for_downloaded_links_whose_path_changed() {
    let posts = sample_posts();
    // The same pattern: nothing to move.
    assert!(plan_renames(&posts, &patterns("{link_id}"), "downloads").is_empty());
    // Another base directory or pattern: every downloaded link moves.
    let items = plan_renames(&posts, &patterns("{post_id}/{link_id}"), "downloads");
    assert_eq!(items.len(), 2);
    assert_eq!(items[0].link_id, 10);
    assert_eq!(items[0].current_path, "downloads/10.jpeg");
    assert_eq!(items[0].new_path, "downloads/1/10.jpeg");
    assert_eq!(items[0].directory.as_deref(), Some("downloads/1"));
    assert_eq!(items[0].pattern, "{post_id}/{link_id}");
    assert_eq!(items[1].link_id, 20);
    assert_eq!(items[1].new_path, "downloads/2/20.jpeg");
    let items = plan_renames(&posts, &patterns("{link_id}"), "elsewhere");
    assert_eq!(items.len(), 2);
    assert_eq!(items[1].new_path, "elsewhere/20.jpeg");
}

#[test]
fn paths_are_compared_as_paths() {
    // A doubled separator is the same path: nothing to move.
    let posts = vec![post(1, vec![downloaded(10, "downloads//10.jpeg")])];
    assert!(plan_renames(&posts, &patterns("{link_id}"), "downloads").is_empty());
    let posts = vec![post(1, vec![downloaded(10, "downloads/10.jpg")])];
    assert_eq!(plan_renames(&posts, &patterns("{link_id}"), "downloads").len(), 1);
}

#[test]
fn a_rename_moves_the_file_and_updates_the_store() {
    let mut posts = sample_posts();
    let mut world = world(&["downloads/10.jpeg", "downloads/20.jpeg"]);
    assert_eq!(drive(&mut posts, &mut world, "{post_id}/{link_id}", false), None);
    let files: Vec<&str> = world.files.iter().map(String::as_str).collect();
    assert_eq!(files, vec!["downloads/1/10.jpeg", "downloads/2/20.jpeg"]);
    assert!(world.directories.contains("downloads/1"));
    assert_eq!(posts[0].links[0].file_path.as_deref(), Some("downloads/1/10.jpeg"));
    assert_eq!(posts[0].links[0].file_path_pattern.as_deref(), Some("{post_id}/{link_id}"));
    assert_eq!(posts[0].links[0].status, LinkStatus::Downloaded);
    assert_eq!(posts[1].links[0].file_path.as_deref(), Some("downloads/2/20.jpeg"));
    assert!(world.cleaned);
    // Every recorded path is on disk.
    for post in &posts {
        for link in &post.links {
            if let Some(path) = &link.file_path {
                assert!(world.files.contains(path));
            }
        }
    }
    // Nothing is left to rename.
    assert!(plan_renames(&posts, &patterns("{post_id}/{link_id}"), "downloads").is_empty());
}

#[test]
fn a_failed_store_update_is_rolled_back() {
    let mut posts = sample_posts();
    let before = format!("{posts:?}");
    let mut world = world(&["downloads/10.jpeg", "downloads/20.jpeg"]);
    let files_before = world.files.clone();
    world.store_down = true;
    let error = drive(&mut posts, &mut world, "{post_id}/{link_id}", false);
    assert_eq!(error.as_deref(), Some("store unreachable"));
    // The file is back at its original path, the store is unchanged, and
    // the second file was never touched.
    assert_eq!(world.files, files_before);
    assert!(world.files.contains("downloads/10.jpeg"));
    assert!(!world.files.contains("downloads/1/10.jpeg"));
    assert_eq!(format!("{posts:?}"), before);
    assert_eq!(posts[0].links[0].file_path.as_deref(), Some("downloads/10.jpeg"));
    assert_eq!(posts[0].links[0].status, LinkStatus::Downloaded);
    assert!(!world.cleaned);
    assert_eq!(
        world.log,
        vec![
            "Probe { index: 0 }",
            "CreateParent { index: 0 }",
            "Move { index: 0 }",
            "UpdatePath { index: 0 }",
            "MoveBack { index: 0 }",
            "Abort { error: \"store unreachable\" }",
        ]
    );
}

#[test]
fn a_failed_move_ends_the_run() {
    let mut posts = sample_posts();
    let before = format!("{posts:?}");
    let mut world = world(&["downloads/10.jpeg", "downloads/20.jpeg"]);
    world.move_fails = true;
    let error = drive(&mut posts, &mut world, "{post_id}/{link_id}", false);
    assert_eq!(error.as_deref(), Some("cannot move"));
    assert_eq!(format!("{posts:?}"), before);
    assert!(world.files.contains("downloads/10.jpeg"));
    assert!(!world.log.iter().any(|entry| entry.starts_with("UpdatePath")));
    assert!(!world.log.iter().any(|entry| entry.starts_with("MoveBack")));
}

#[test]
fn a_missing_file_is_passed_over() {
    let mut posts = sample_posts();
    let mut world = world(&["downloads/20.jpeg"]);
    assert_eq!(drive(&mut posts, &mut world, "{post_id}/{link_id}", false), None);
    assert_eq!(posts[0].links[0].file_path.as_deref(), Some("downloads/10.jpeg"));
    assert_eq!(posts[1].links[0].file_path.as_deref(), Some("downloads/2/20.jpeg"));
    assert!(world.files.contains("downloads/2/20.jpeg"));
    assert!(world.cleaned);
}

#[test]
fn a_dry_rename_changes_nothing() {
    let mut posts = sample_posts();
    let before = format!("{posts:?}");
    let mut world = world(&["downloads/10.jpeg", "downloads/20.jpeg"]);
    let files_before = world.files.clone();
    assert_eq!(drive(&mut posts, &mut world, "{post_id}/{link_id}", true), None);
    assert_eq!(world.files, files_before);
    assert_eq!(format!("{posts:?}"), before);
    assert!(!world.cleaned);
    assert!(world.directories.is_empty());
    assert_eq!(
        world.log,
        vec![
            "Probe { index: 0 }",
            "Announce { index: 0 }",
            "Probe { index: 1 }",
            "Announce { index: 1 }",
            "Finish",
        ]
    );
}

#[test]
fn failures_along_the_way() {
    let item = || RenameItem {
        link_id: 1,
        current_path: "a".into(),
        new_path: "b/a".into(),
        directory: Some("b".into()),
        pattern: "p".into(),
    };
    // The directory cannot be made.
    let mut run = RenameRun::new(vec![item()], false);
    assert!(matches!(run.advance(RenameEvent::Started), RenameAction::Probe { index: 0 }));
    assert_eq!(run.phase(), RenamePhase::Probing);
    assert!(matches!(
        run.advance(RenameEvent::Exists(true)),
        RenameAction::CreateParent { index: 0 }
    ));
    match run.advance(RenameEvent::Failed { error: "read-only".into() }) {
        RenameAction::Abort { error } => assert_eq!(error, "read-only"),
        other => panic!("unexpected action {other:?}"),
    }
    assert_eq!(run.phase(), RenamePhase::Aborted);
    // The move back fails as well: its error ends the run.
    let mut run = RenameRun::new(vec![item()], false);
    run.advance(RenameEvent::Started);
    run.advance(RenameEvent::Exists(true));
    run.advance(RenameEvent::Done);
    assert!(matches!(run.advance(RenameEvent::Done), RenameAction::UpdatePath { index: 0 }));
    assert!(matches!(
        run.advance(RenameEvent::Failed { error: "store".into() }),
        RenameAction::MoveBack { index: 0 }
    ));
    assert_eq!(run.phase(), RenamePhase::RollingBack);
    match run.advance(RenameEvent::Failed { error: "disk".into() }) {
        RenameAction::Abort { error } => assert_eq!(error, "disk"),
        other => panic!("unexpected action {other:?}"),
    }
    // Cleaning up fails.
    let mut run = RenameRun::new(vec![], false);
    assert!(matches!(run.advance(RenameEvent::Started), RenameAction::CleanUp));
    assert_eq!(run.phase(), RenamePhase::Cleaning);
    match run.advance(RenameEvent::Failed { error: "busy".into() }) {
        RenameAction::Abort { error } => assert_eq!(error, "busy"),
        other => panic!("unexpected action {other:?}"),
    }
    match run.advance(RenameEvent::Done) {
        RenameAction::Abort { error } => assert_eq!(error, "busy"),
        other => panic!("unexpected action {other:?}"),
    }
    // An event that was not asked for.
    let mut run = RenameRun::new(vec![item()], false);
    match run.advance(RenameEvent::Done) {
        RenameAction::Abort { error } => assert_eq!(error, "unexpected event"),
        other => panic!("unexpected action {other:?}"),
    }
    // A new path without directory.
    let mut lost = item();
    lost.new_path = "".into();
    lost.directory = None;
    let mut run = RenameRun::new(vec![lost], false);
    run.advance(RenameEvent::Started);
    match run.advance(RenameEvent::Exists(true)) {
        RenameAction::Abort { error } => assert_eq!(error, "destination has no parent directory"),
        other => panic!("unexpected action {other:?}"),
    }
    // An empty dry run has nothing to clean.
    let mut run = RenameRun::new(vec![], true);
    assert!(matches!(run.advance(RenameEvent::Started), RenameAction::Finish));
    assert_eq!(run.phase(), RenamePhase::Finished);
    assert_eq!(run.completed(), 0);
}
