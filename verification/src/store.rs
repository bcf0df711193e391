//! What the run requires of the store, as operations on posts held in
//! memory.
//!
//! The store hands out all posts and takes updates keyed by link id. Each
//! update changes the links with that id and nothing else, and keeps every
//! link consistent.

use vstd::prelude::*;
use crate::config::Patterns;
use crate::download::{all_work, lemma_downloaded_posts_need_no_work, work_for, Work};
use crate::model::{
    link_states, post_values, LinkState, LinkStatus, Outcome, Post, PostLink, PostValue,
    StatusUpdate,
};

verus! {

/// The link after `outcome` has been recorded for `link_id`.
pub open spec fn link_recorded(link: LinkState, link_id: int, outcome: Outcome) -> LinkState {
    if link.id == link_id {
        link.record(outcome)
    } else {
        link
    }
}

/// The link after the file of `link_id` has moved.
pub open spec fn link_relocated(
    link: LinkState,
    link_id: int,
    file_path: Seq<char>,
    file_path_pattern: Seq<char>,
) -> LinkState {
    if link.id == link_id {
        link.relocate(file_path, file_path_pattern)
    } else {
        link
    }
}

/// The posts after `outcome` has been recorded for `link_id`.
pub open spec fn recorded(posts: Seq<PostValue>, link_id: int, outcome: Outcome) -> Seq<PostValue> {
    posts.map_values(
        |post: PostValue|
            PostValue {
                links: post.links.map_values(
                    |link: LinkState| link_recorded(link, link_id, outcome),
                ),
                ..post
            },
    )
}

/// The posts after the file of `link_id` has moved.
pub open spec fn relocated(
    posts: Seq<PostValue>,
    link_id: int,
    file_path: Seq<char>,
    file_path_pattern: Seq<char>,
) -> Seq<PostValue> {
    posts.map_values(
        |post: PostValue|
            PostValue {
                links: post.links.map_values(
                    |link: LinkState| link_relocated(link, link_id, file_path, file_path_pattern),
                ),
                ..post
            },
    )
}

/// Whether some link has the id.
pub open spec fn has_link(posts: Seq<PostValue>, link_id: int) -> bool {
    exists|p: int, l: int|
        0 <= p < posts.len() && 0 <= l < posts[p].links.len() && (
        #[trigger] posts[p].links[l]).id == link_id
}

/// Whether some downloaded link has the id.
pub open spec fn has_downloaded(posts: Seq<PostValue>, link_id: int) -> bool {
    exists|p: int, l: int|
        0 <= p < posts.len() && 0 <= l < posts[p].links.len() && (
        #[trigger] posts[p].links[l]).id == link_id && posts[p].links[l].status
            == LinkStatus::Downloaded
}

/// Whether every link is consistent.
pub open spec fn consistent(posts: Seq<PostValue>) -> bool {
    forall|p: int, l: int|
        0 <= p < posts.len() && 0 <= l < posts[p].links.len() ==> (
        #[trigger] posts[p].links[l]).consistent()
}

fn copy_update(update: &StatusUpdate) -> (copy: StatusUpdate)
    ensures
        copy@ == update@,
{
    match update {
        StatusUpdate::Success { file_path, file_path_pattern } => StatusUpdate::Success {
            file_path: file_path.clone(),
            file_path_pattern: file_path_pattern.clone(),
        },
        StatusUpdate::Error { error } => StatusUpdate::Error { error: error.clone() },
        StatusUpdate::Pending => StatusUpdate::Pending,
    }
}

/// The links after `outcome` has been recorded for `link_id`.
pub open spec fn links_recorded(links: Seq<LinkState>, link_id: int, outcome: Outcome) -> Seq<
    LinkState,
> {
    links.map_values(|link: LinkState| link_recorded(link, link_id, outcome))
}

/// The links after the file of `link_id` has moved.
pub open spec fn links_relocated(
    links: Seq<LinkState>,
    link_id: int,
    file_path: Seq<char>,
    file_path_pattern: Seq<char>,
) -> Seq<LinkState> {
    links.map_values(
        |link: LinkState| link_relocated(link, link_id, file_path, file_path_pattern),
    )
}

/// Whether one of the links has the id.
pub open spec fn among(links: Seq<LinkState>, link_id: int) -> bool {
    exists|l: int| 0 <= l < links.len() && (#[trigger] links[l]).id == link_id
}

/// Whether one of the links has the id and is downloaded.
pub open spec fn among_downloaded(links: Seq<LinkState>, link_id: int) -> bool {
    exists|l: int|
        0 <= l < links.len() && (#[trigger] links[l]).id == link_id && links[l].status
            == LinkStatus::Downloaded
}

fn record_in(links: &mut Vec<PostLink>, link_id: i64, update: &StatusUpdate) -> (found: bool)
    ensures
        link_states(final(links)@) == links_recorded(
            link_states(old(links)@),
            link_id as int,
            update@,
        ),
        found == among(link_states(old(links)@), link_id as int),
{
    let ghost before = link_states(links@);
    let mut found = false;
    let mut l: usize = 0;
    while l < links.len()
        invariant
            l <= links.len(),
            links.len() == before.len(),
            forall|k: int|
                0 <= k < l ==> (#[trigger] links@[k])@ == link_recorded(
                    before[k],
                    link_id as int,
                    update@,
                ),
            forall|k: int| l <= k < links.len() ==> (#[trigger] links@[k])@ == before[k],
            found == among(before.take(l as int), link_id as int),
        decreases links.len() - l,
    {
        let ghost was_found = found;
        if links[l].id == link_id {
            let link = &mut links[l];
            link.update_status(copy_update(update));
            found = true;
        }
        proof {
            let shorter = before.take(l as int);
            let longer = before.take(l + 1);
            if among(shorter, link_id as int) {
                let k = choose|k: int| 0 <= k < shorter.len() && (#[trigger] shorter[k]).id == link_id;
                assert(longer[k].id == link_id);
            }
            if before[l as int].id == link_id {
                assert(longer[l as int].id == link_id);
            }
            if among(longer, link_id as int) {
                let k = choose|k: int| 0 <= k < longer.len() && (#[trigger] longer[k]).id == link_id;
                if k < l {
                    assert(shorter[k].id == link_id);
                }
            }
        }
        l += 1;
    }
    assert(before.take(links.len() as int) =~= before);
    assert(link_states(links@) =~= links_recorded(before, link_id as int, update@));
    found
}

fn relocate_in(links: &mut Vec<PostLink>, link_id: i64, file_path: &str, pattern: &str) -> (moved:
    bool)
    ensures
        link_states(final(links)@) == links_relocated(
            link_states(old(links)@),
            link_id as int,
            file_path@,
            pattern@,
        ),
        moved == among_downloaded(link_states(old(links)@), link_id as int),
{
    let ghost before = link_states(links@);
    let mut moved = false;
    let mut l: usize = 0;
    while l < links.len()
        invariant
            l <= links.len(),
            links.len() == before.len(),
            forall|k: int|
                0 <= k < l ==> (#[trigger] links@[k])@ == link_relocated(
                    before[k],
                    link_id as int,
                    file_path@,
                    pattern@,
                ),
            forall|k: int| l <= k < links.len() ==> (#[trigger] links@[k])@ == before[k],
            moved == among_downloaded(before.take(l as int), link_id as int),
        decreases links.len() - l,
    {
        if links[l].id == link_id {
            let link = &mut links[l];
            if link.update_path(file_path.to_owned(), pattern.to_owned()) {
                moved = true;
            }
        }
        proof {
            let shorter = before.take(l as int);
            let longer = before.take(l + 1);
            if among_downloaded(shorter, link_id as int) {
                let k = choose|k: int|
                    0 <= k < shorter.len() && (#[trigger] shorter[k]).id == link_id
                        && shorter[k].status == LinkStatus::Downloaded;
                assert(longer[k].id == link_id);
            }
            if before[l as int].id == link_id && before[l as int].status
                == LinkStatus::Downloaded {
                assert(longer[l as int].id == link_id);
            }
            if among_downloaded(longer, link_id as int) {
                let k = choose|k: int|
                    0 <= k < longer.len() && (#[trigger] longer[k]).id == link_id
                        && longer[k].status == LinkStatus::Downloaded;
                if k < l {
                    assert(shorter[k].id == link_id);
                }
            }
        }
        l += 1;
    }
    assert(before.take(links.len() as int) =~= before);
    assert(link_states(links@) =~= links_relocated(before, link_id as int, file_path@, pattern@));
    moved
}

/// Records the outcome of processing a link. Returns whether there is a
/// link with that id; where there is none, nothing changes.
pub fn update_status(posts: &mut Vec<Post>, link_id: i64, update: StatusUpdate) -> (found: bool)
    ensures
        post_values(final(posts)@) == recorded(
            post_values(old(posts)@),
            link_id as int,
            update@,
        ),
        found == has_link(post_values(old(posts)@), link_id as int),
        !found ==> post_values(final(posts)@) == post_values(old(posts)@),
        consistent(post_values(old(posts)@)) ==> consistent(post_values(final(posts)@)),
{
    let ghost before = post_values(posts@);
    let ghost after = recorded(before, link_id as int, update@);
    let mut found = false;
    let mut p: usize = 0;
    while p < posts.len()
        invariant
            p <= posts.len(),
            posts.len() == before.len(),
            after == recorded(before, link_id as int, update@),
            forall|q: int| 0 <= q < p ==> (#[trigger] posts@[q])@ == after[q],
            forall|q: int| p <= q < posts.len() ==> (#[trigger] posts@[q])@ == before[q],
            found == has_link(before.take(p as int), link_id as int),
        decreases posts.len() - p,
    {
        let post = &mut posts[p];
        let here = record_in(&mut post.links, link_id, &update);
        if here {
            found = true;
        }
        proof {
            lemma_has_link_grows(before, p as int, link_id as int);
        }
        p += 1;
    }
    assert(before.take(posts.len() as int) =~= before);
    assert(post_values(posts@) =~= after);
    proof {
        lemma_recorded_keeps(before, link_id as int, update@);
    }
    found
}

/// Re-stamps path and pattern of a downloaded link after its file has
/// moved. Returns whether there is a downloaded link with that id; where
/// there is none, nothing changes.
pub fn update_path(posts: &mut Vec<Post>, link_id: i64, file_path: &str, pattern: &str) -> (moved:
    bool)
    ensures
        post_values(final(posts)@) == relocated(
            post_values(old(posts)@),
            link_id as int,
            file_path@,
            pattern@,
        ),
        moved == has_downloaded(post_values(old(posts)@), link_id as int),
        !moved ==> post_values(final(posts)@) == post_values(old(posts)@),
        consistent(post_values(old(posts)@)) ==> consistent(post_values(final(posts)@)),
{
    let ghost before = post_values(posts@);
    let ghost after = relocated(before, link_id as int, file_path@, pattern@);
    let mut moved = false;
    let mut p: usize = 0;
    while p < posts.len()
        invariant
            p <= posts.len(),
            posts.len() == before.len(),
            after == relocated(before, link_id as int, file_path@, pattern@),
            forall|q: int| 0 <= q < p ==> (#[trigger] posts@[q])@ == after[q],
            forall|q: int| p <= q < posts.len() ==> (#[trigger] posts@[q])@ == before[q],
            moved == has_downloaded(before.take(p as int), link_id as int),
        decreases posts.len() - p,
    {
        let post = &mut posts[p];
        let here = relocate_in(&mut post.links, link_id, file_path, pattern);
        if here {
            moved = true;
        }
        proof {
            lemma_has_downloaded_grows(before, p as int, link_id as int);
        }
        p += 1;
    }
    assert(before.take(posts.len() as int) =~= before);
    assert(post_values(posts@) =~= after);
    proof {
        lemma_relocated_keeps(before, link_id as int, file_path@, pattern@);
    }
    moved
}

/// A link with the id is among the first posts and one more exactly if it
/// is among the first posts or among the links of the next.
proof fn lemma_has_link_grows(posts: Seq<PostValue>, p: int, link_id: int)
    requires
        0 <= p < posts.len(),
    ensures
        has_link(posts.take(p + 1), link_id) <==> has_link(posts.take(p), link_id) || among(
            posts[p].links,
            link_id,
        ),
{
    let shorter = posts.take(p);
    let longer = posts.take(p + 1);
    if has_link(shorter, link_id) {
        let (q, l) = choose|q: int, l: int|
            0 <= q < shorter.len() && 0 <= l < shorter[q].links.len() && (
            #[trigger] shorter[q].links[l]).id == link_id;
        assert(longer[q].links[l].id == link_id);
    }
    if among(posts[p].links, link_id) {
        let l = choose|l: int|
            0 <= l < posts[p].links.len() && (#[trigger] posts[p].links[l]).id == link_id;
        assert(longer[p].links[l].id == link_id);
    }
    if has_link(longer, link_id) {
        let (q, l) = choose|q: int, l: int|
            0 <= q < longer.len() && 0 <= l < longer[q].links.len() && (
            #[trigger] longer[q].links[l]).id == link_id;
        if q < p {
            assert(shorter[q].links[l].id == link_id);
        } else {
            assert(posts[p].links[l].id == link_id);
        }
    }
}

/// The same for downloaded links.
proof fn lemma_has_downloaded_grows(posts: Seq<PostValue>, p: int, link_id: int)
    requires
        0 <= p < posts.len(),
    ensures
        has_downloaded(posts.take(p + 1), link_id) <==> has_downloaded(posts.take(p), link_id)
            || among_downloaded(posts[p].links, link_id),
{
    let shorter = posts.take(p);
    let longer = posts.take(p + 1);
    if has_downloaded(shorter, link_id) {
        let (q, l) = choose|q: int, l: int|
            0 <= q < shorter.len() && 0 <= l < shorter[q].links.len() && (
            #[trigger] shorter[q].links[l]).id == link_id && shorter[q].links[l].status
                == LinkStatus::Downloaded;
        assert(longer[q].links[l].id == link_id);
    }
    if among_downloaded(posts[p].links, link_id) {
        let l = choose|l: int|
            0 <= l < posts[p].links.len() && (#[trigger] posts[p].links[l]).id == link_id
                && posts[p].links[l].status == LinkStatus::Downloaded;
        assert(longer[p].links[l].id == link_id);
    }
    if has_downloaded(longer, link_id) {
        let (q, l) = choose|q: int, l: int|
            0 <= q < longer.len() && 0 <= l < longer[q].links.len() && (
            #[trigger] longer[q].links[l]).id == link_id && longer[q].links[l].status
                == LinkStatus::Downloaded;
        if q < p {
            assert(shorter[q].links[l].id == link_id);
        } else {
            assert(posts[p].links[l].id == link_id);
        }
    }
}

/// Recording an outcome keeps consistent links consistent, and changes
/// nothing where no link has the id.
pub proof fn lemma_recorded_keeps(posts: Seq<PostValue>, link_id: int, outcome: Outcome)
    ensures
        consistent(posts) ==> consistent(recorded(posts, link_id, outcome)),
        !has_link(posts, link_id) ==> recorded(posts, link_id, outcome) == posts,
{
    let after = recorded(posts, link_id, outcome);
    if consistent(posts) {
        assert forall|q: int, l: int|
            0 <= q < after.len() && 0 <= l < after[q].links.len() implies (
        #[trigger] after[q].links[l]).consistent() by {
            assert(posts[q].links[l].consistent());
        }
    }
    if !has_link(posts, link_id) {
        assert forall|q: int| 0 <= q < after.len() implies after[q] == posts[q] by {
            assert forall|l: int| 0 <= l < posts[q].links.len() implies after[q].links[l]
                == posts[q].links[l] by {
                assert(posts[q].links[l].id != link_id);
            }
            assert(after[q].links =~= posts[q].links);
        }
        assert(after =~= posts);
    }
}

/// Moving a file keeps consistent links consistent, and changes nothing
/// where no downloaded link has the id.
pub proof fn lemma_relocated_keeps(
    posts: Seq<PostValue>,
    link_id: int,
    file_path: Seq<char>,
    file_path_pattern: Seq<char>,
)
    ensures
        consistent(posts) ==> consistent(relocated(posts, link_id, file_path, file_path_pattern)),
        !has_downloaded(posts, link_id) ==> relocated(
            posts,
            link_id,
            file_path,
            file_path_pattern,
        ) == posts,
{
    let after = relocated(posts, link_id, file_path, file_path_pattern);
    if consistent(posts) {
        assert forall|q: int, l: int|
            0 <= q < after.len() && 0 <= l < after[q].links.len() implies (
        #[trigger] after[q].links[l]).consistent() by {
            assert(posts[q].links[l].consistent());
        }
    }
    if !has_downloaded(posts, link_id) {
        assert forall|q: int| 0 <= q < after.len() implies after[q] == posts[q] by {
            assert forall|l: int| 0 <= l < posts[q].links.len() implies after[q].links[l]
                == posts[q].links[l] by {
                let link = posts[q].links[l];
                if link.id == link_id {
                    assert(link.status != LinkStatus::Downloaded);
                }
            }
            assert(after[q].links =~= posts[q].links);
        }
        assert(after =~= posts);
    }
}

/// The posts after every link that needed a download has been recorded as
/// downloaded to its destination, as a run does in which every fetch
/// succeeds.
pub open spec fn all_downloaded(posts: Seq<PostValue>, patterns: Patterns, base_dir: Seq<char>) -> Seq<
    PostValue,
> {
    posts.map_values(
        |post: PostValue|
            PostValue {
                links: post.links.map_values(
                    |link: LinkState|
                        match work_for(post, link, patterns, base_dir) {
                            Some(work) => link.record(
                                Outcome::Success {
                                    file_path: work.destination,
                                    file_path_pattern: work.pattern,
                                },
                            ),
                            None => link,
                        },
                ),
                ..post
            },
    )
}

/// Idempotence of a download run: once every link that needed a download
/// is recorded as downloaded, a second run finds no work, so it fetches
/// nothing, and recording the same again leaves the store as it is.
pub proof fn lemma_second_run_does_nothing(
    posts: Seq<PostValue>,
    patterns: Patterns,
    base_dir: Seq<char>,
)
    ensures
        all_work(all_downloaded(posts, patterns, base_dir), patterns, base_dir) == Seq::<
            Work,
        >::empty(),
        all_downloaded(all_downloaded(posts, patterns, base_dir), patterns, base_dir)
            == all_downloaded(posts, patterns, base_dir),
{
    let once = all_downloaded(posts, patterns, base_dir);
    assert forall|p: int, l: int| 0 <= p < once.len() && 0 <= l < once[p].links.len() implies !(
    #[trigger] once[p].links[l]).needs_download() by {
        let link = posts[p].links[l];
        if link.needs_download() {
        }
    }
    lemma_downloaded_posts_need_no_work(once, patterns, base_dir);
    let twice = all_downloaded(once, patterns, base_dir);
    assert forall|p: int| 0 <= p < once.len() implies twice[p] == once[p] by {
        assert forall|l: int| 0 <= l < once[p].links.len() implies twice[p].links[l]
            == once[p].links[l] by {
            assert(!once[p].links[l].needs_download());
        }
        assert(twice[p].links =~= once[p].links);
    }
    assert(twice =~= once);
}

/// The posts after every link has been put back to `Pending`.
pub open spec fn all_reset(posts: Seq<PostValue>) -> Seq<PostValue> {
    posts.map_values(
        |post: PostValue|
            PostValue {
                links: post.links.map_values(|link: LinkState| link.record(Outcome::Pending)),
                ..post
            },
    )
}

/// Puts every link back to `Pending` and clears what was recorded.
pub fn reset_downloads(posts: &mut Vec<Post>)
    ensures
        post_values(final(posts)@) == all_reset(post_values(old(posts)@)),
        consistent(post_values(final(posts)@)),
{
    let ghost before = post_values(posts@);
    let ghost after = all_reset(before);
    let mut p: usize = 0;
    while p < posts.len()
        invariant
            p <= posts.len(),
            posts.len() == before.len(),
            after == all_reset(before),
            forall|q: int| 0 <= q < p ==> (#[trigger] posts@[q])@ == after[q],
            forall|q: int| p <= q < posts.len() ==> (#[trigger] posts@[q])@ == before[q],
        decreases posts.len() - p,
    {
        let post = &mut posts[p];
        let links = &mut post.links;
        let ghost entry = link_states(links@);
        let mut l: usize = 0;
        while l < links.len()
            invariant
                l <= links.len(),
                links.len() == entry.len(),
                forall|k: int|
                    0 <= k < l ==> (#[trigger] links@[k])@ == entry[k].record(Outcome::Pending),
                forall|k: int| l <= k < links.len() ==> (#[trigger] links@[k])@ == entry[k],
            decreases links.len() - l,
        {
            let link = &mut links[l];
            link.reset();
            l += 1;
        }
        assert(link_states(links@) =~= entry.map_values(
            |link: LinkState| link.record(Outcome::Pending),
        ));
        p += 1;
    }
    assert(post_values(posts@) =~= after);
    assert forall|q: int, l: int|
        0 <= q < after.len() && 0 <= l < after[q].links.len() implies (
    #[trigger] after[q].links[l]).consistent() by {
        assert(after[q].links[l] == before[q].links[l].record(Outcome::Pending));
    }
}

} // verus!
