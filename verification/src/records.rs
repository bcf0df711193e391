//! From the rows that the store returns to posts with their links.
//!
//! The store joins each link with its post, so a post with three links
//! comes as three rows that repeat the post's fields. Rows of one post that
//! follow each other form a run; each run becomes a post, and the posts are
//! handed out by ascending id.

use vstd::prelude::*;
use crate::model::{
    opt_text, post_values, LinkSource, LinkState, LinkStatus, Post, PostDate, PostLink, PostType,
    PostValue, StoreReadError,
};

verus! {

broadcast use vstd::string::group_string_axioms;

/// One row of the join of posts and links.
#[derive(Debug)]
pub struct JoinedPost {
    pub id: i64,
    pub title: String,
    pub creator: String,
    pub tags: String,
    pub post_type: PostType,
    pub like_count: i64,
    pub generated_title: Option<String>,
    pub created_at: Option<String>,
    pub rowid: i64,
    pub url: String,
    pub content_type: String,
    pub source: LinkSource,
    pub status: LinkStatus,
    pub error: Option<String>,
    pub file_path: Option<String>,
    pub file_path_pattern: Option<String>,
}

/// The format in which the store keeps dates.
pub const DATE_FORMAT: &'static str = "%Y-%m-%d";

/// `serde_json::Error`, of which nothing is known but that it is one.
#[verifier::external_type_specification]
#[verifier::external_body]
pub struct ExJsonError(serde_json::Error);

/// The list of strings that `serde_json::from_str` reads from a text, if it
/// reads one.
pub uninterp spec fn json_string_list(text: Seq<char>) -> Option<Seq<Seq<char>>>;

/// The text that `serde_json::to_string` writes for a list of strings, if it
/// writes one.
pub uninterp spec fn string_list_json(list: Seq<Seq<char>>) -> Option<Seq<char>>;

/// The date that `chrono::NaiveDate::parse_from_str` reads from a text in a
/// format, if it reads one.
pub uninterp spec fn date_read(text: Seq<char>, format: Seq<char>) -> Option<PostDate>;

/// Reads a JSON list of strings with `serde_json::from_str`. The contract
/// names what was read, `json_string_list`, which is nothing exactly when
/// the call fails, and claims no more.
#[verifier::external_body]
fn decode_string_list(text: &str) -> (list: Result<Vec<String>, serde_json::Error>)
    ensures
        match list {
            Ok(list) => json_string_list(text@) == Some(list.deep_view()),
            Err(_) => json_string_list(text@) is None,
        },
{
    serde_json::from_str(text)
}

/// Writes a list of strings as JSON with `serde_json::to_string`. The
/// contract names what was written, `string_list_json`, which is nothing
/// exactly when the call fails, and claims no more.
#[verifier::external_body]
fn encode_string_list(list: &Vec<String>) -> (text: Result<String, serde_json::Error>)
    ensures
        match text {
            Ok(text) => string_list_json(list.deep_view()) == Some(text@),
            Err(_) => string_list_json(list.deep_view()) is None,
        },
{
    serde_json::to_string(list)
}

/// Reads a date with `chrono::NaiveDate::parse_from_str` and takes its
/// year, month and day as `chrono::Datelike` gives them. The contract
/// names the result, `date_read`, and claims no more of it.
#[verifier::external_body]
fn read_date(text: &str, format: &str) -> (date: Option<PostDate>)
    ensures
        date == date_read(text@, format@),
{
    match chrono::NaiveDate::parse_from_str(text, format) {
        Ok(date) => Some(
            PostDate {
                year: chrono::Datelike::year(&date),
                month: chrono::Datelike::month(&date),
                day: chrono::Datelike::day(&date),
            },
        ),
        Err(_) => None,
    }
}

/// Reads the tags of a post from the JSON list that the store keeps.
pub fn parse_tags(text: &str) -> (tags: Result<Vec<String>, StoreReadError>)
    ensures
        match tags {
            Ok(tags) => json_string_list(text@) == Some(tags.deep_view()),
            Err(error) => json_string_list(text@) is None && error == StoreReadError::InvalidTags,
        },
{
    match decode_string_list(text) {
        Ok(tags) => Ok(tags),
        Err(_) => Err(StoreReadError::InvalidTags),
    }
}

/// Writes the tags of a post as the JSON list that the store keeps; `None`
/// where they cannot be written.
pub fn encode_tags(tags: &Vec<String>) -> (text: Option<String>)
    ensures
        opt_text(text) == string_list_json(tags.deep_view()),
{
    match encode_string_list(tags) {
        Ok(text) => Some(text),
        Err(_) => None,
    }
}

/// Reads a date as the store keeps it; `None` for any other text.
pub fn parse_date(text: &str) -> (date: Option<PostDate>)
    ensures
        date == date_read(text@, DATE_FORMAT@),
{
    read_date(text, DATE_FORMAT)
}

/// The link that a row describes.
pub open spec fn row_link(row: JoinedPost) -> LinkState {
    LinkState {
        id: row.rowid as int,
        url: row.url@,
        content_type: row.content_type@,
        source: row.source,
        status: row.status,
        error: opt_text(row.error),
        file_path: opt_text(row.file_path),
        file_path_pattern: opt_text(row.file_path_pattern),
    }
}

/// The creation date that a row holds: none where the store has none or
/// has a text that is no date.
pub open spec fn row_date(row: JoinedPost) -> Option<PostDate> {
    match row.created_at {
        Some(text) => date_read(text@, DATE_FORMAT@),
        None => None,
    }
}

/// The post that the rows of one post describe: the post's fields are
/// those of the first row, and each row gives one link, in the order of the
/// rows.
pub open spec fn rows_post(rows: Seq<JoinedPost>) -> PostValue {
    let first = rows[0];
    PostValue {
        id: first.id as int,
        title: first.title@,
        creator: first.creator@,
        tags: json_string_list(first.tags@)->0,
        post_type: first.post_type,
        like_count: first.like_count as int,
        links: rows.map_values(|row: JoinedPost| row_link(row)),
        generated_title: opt_text(first.generated_title),
        created_at: row_date(first),
    }
}

/// Whether the rows of one post can be read as a post.
pub open spec fn readable(rows: Seq<JoinedPost>) -> bool {
    rows.len() > 0 && json_string_list(rows[0].tags@) is Some
}

fn copy_text(text: &Option<String>) -> (copy: Option<String>)
    ensures
        opt_text(copy) == opt_text(*text),
{
    match text {
        Some(text) => Some(text.clone()),
        None => None,
    }
}

fn link_of(row: &JoinedPost) -> (link: PostLink)
    ensures
        link@ == row_link(*row),
{
    PostLink {
        id: row.rowid,
        url: row.url.clone(),
        content_type: row.content_type.clone(),
        source: row.source,
        status: row.status,
        error: copy_text(&row.error),
        file_path: copy_text(&row.file_path),
        file_path_pattern: copy_text(&row.file_path_pattern),
    }
}

fn post_of(rows: &Vec<JoinedPost>) -> (post: Result<Post, StoreReadError>)
    ensures
        match post {
            Ok(post) => readable(rows@) && post@ == rows_post(rows@),
            Err(error) => !readable(rows@) && error == (if rows.len() == 0 {
                StoreReadError::NoRows
            } else {
                StoreReadError::InvalidTags
            }),
        },
{
    if rows.len() == 0 {
        return Err(StoreReadError::NoRows);
    }
    let first = &rows[0];
    let tags = match parse_tags(first.tags.as_str()) {
        Ok(tags) => tags,
        Err(error) => {
            return Err(error);
        },
    };
    let created_at = match &first.created_at {
        Some(text) => parse_date(text.as_str()),
        None => None,
    };
    let mut links: Vec<PostLink> = Vec::new();
    let mut i: usize = 0;
    while i < rows.len()
        invariant
            i <= rows.len(),
            links.len() == i,
            forall|k: int| 0 <= k < i ==> (#[trigger] links@[k])@ == row_link(rows@[k]),
        decreases rows.len() - i,
    {
        links.push(link_of(&rows[i]));
        i += 1;
    }
    let post = Post {
        id: first.id,
        title: first.title.clone(),
        creator: first.creator.clone(),
        tags,
        post_type: first.post_type,
        like_count: first.like_count,
        links,
        generated_title: copy_text(&first.generated_title),
        created_at,
    };
    assert(post@.links =~= rows_post(rows@).links);
    Ok(post)
}

/// Builds a post from the rows of one post.
pub fn to_hutt_post(posts: Vec<JoinedPost>) -> (post: Result<Post, StoreReadError>)
    ensures
        match post {
            Ok(post) => readable(posts@) && post@ == rows_post(posts@),
            Err(error) => !readable(posts@) && error == (if posts.len() == 0 {
                StoreReadError::NoRows
            } else {
                StoreReadError::InvalidTags
            }),
        },
{
    post_of(&posts)
}

/// Number of leading rows that belong to post `id`.
pub open spec fn run_len(rows: Seq<JoinedPost>, id: i64) -> nat
    decreases rows.len(),
{
    if rows.len() == 0 || rows[0].id != id {
        0
    } else {
        1 + run_len(rows.drop_first(), id)
    }
}

/// The runs of the rows: the longest stretches of rows that follow each
/// other and belong to one post.
pub open spec fn runs(rows: Seq<JoinedPost>) -> Seq<Seq<JoinedPost>>
    decreases rows.len(),
{
    if rows.len() == 0 {
        Seq::empty()
    } else {
        proof {
            lemma_run_len_bound(rows, rows[0].id);
        }
        let n = run_len(rows, rows[0].id) as int;
        seq![rows.take(n)] + runs(rows.skip(n))
    }
}

/// A run never extends past the end of the rows.
pub proof fn lemma_run_len_bound(rows: Seq<JoinedPost>, id: i64)
    ensures
        run_len(rows, id) <= rows.len(),
        rows.len() > 0 && rows[0].id == id ==> run_len(rows, id) >= 1,
    decreases rows.len(),
{
    if rows.len() > 0 && rows[0].id == id {
        lemma_run_len_bound(rows.drop_first(), id);
    }
}

/// No run is empty.
pub proof fn lemma_runs_nonempty(rows: Seq<JoinedPost>, c: int)
    requires
        0 <= c < runs(rows).len(),
    ensures
        runs(rows)[c].len() > 0,
    decreases rows.len(),
{
    lemma_run_len_bound(rows, rows[0].id);
    if c > 0 {
        let n = run_len(rows, rows[0].id) as int;
        lemma_runs_nonempty(rows.skip(n), c - 1);
    }
}

/// Whether the rows come by ascending post id, as the store hands them out.
pub open spec fn sorted_by_post(rows: Seq<JoinedPost>) -> bool {
    forall|i: int, j: int| 0 <= i <= j < rows.len() ==> rows[i].id <= rows[j].id
}

/// The row after a run belongs to another post.
pub proof fn lemma_run_ends(rows: Seq<JoinedPost>, id: i64)
    ensures
        run_len(rows, id) < rows.len() ==> rows[run_len(rows, id) as int].id != id,
    decreases rows.len(),
{
    if rows.len() > 0 && rows[0].id == id {
        lemma_run_ends(rows.drop_first(), id);
    }
}

/// The runs of rows sorted by post id come by strictly ascending post id.
pub proof fn lemma_sorted_runs_ascend(rows: Seq<JoinedPost>, c: int, d: int)
    requires
        sorted_by_post(rows),
        0 <= c < d < runs(rows).len(),
    ensures
        run_id(runs(rows)[c]) < run_id(runs(rows)[d]),
        rows[0].id <= run_id(runs(rows)[c]),
    decreases rows.len(),
{
    let id = rows[0].id;
    let n = run_len(rows, id) as int;
    lemma_run_len_bound(rows, id);
    lemma_run_ends(rows, id);
    let rest = rows.skip(n);
    assert(sorted_by_post(rest)) by {
        assert forall|i: int, j: int| 0 <= i <= j < rest.len() implies rest[i].id
            <= rest[j].id by {
            assert(rest[i] == rows[i + n] && rest[j] == rows[j + n]);
        }
    }
    assert(runs(rows) =~= seq![rows.take(n)] + runs(rest));
    assert(runs(rows)[0][0] == rows[0]);
    assert(runs(rest).len() == runs(rows).len() - 1);
    assert(rest.len() > 0);
    assert(forall|k: int| 1 <= k < runs(rows).len() ==> runs(rows)[k] == runs(rest)[k - 1]);
    assert(rest[0] == rows[n]);
    assert(rows[0].id <= rows[n].id);
    lemma_first_run_id(rest);
    if c == 0 {
        if d == 1 {
        } else {
            lemma_sorted_runs_ascend(rest, 0, d - 1);
        }
    } else {
        lemma_sorted_runs_ascend(rest, c - 1, d - 1);
    }
}

/// The first run belongs to the post of the first row.
pub proof fn lemma_first_run_id(rows: Seq<JoinedPost>)
    requires
        rows.len() > 0,
    ensures
        runs(rows).len() > 0,
        run_id(runs(rows)[0]) == rows[0].id,
{
    lemma_run_len_bound(rows, rows[0].id);
}

/// Of rows sorted by post id, every run is the last of its post: no post
/// is spread over several runs, and none of its rows is lost in grouping.
pub proof fn lemma_sorted_rows_keep_every_run(rows: Seq<JoinedPost>, c: int)
    requires
        sorted_by_post(rows),
        0 <= c < runs(rows).len(),
    ensures
        last_run_of(runs(rows), run_id(runs(rows)[c])) == c,
{
    let all = runs(rows);
    assert forall|d: int| c < d < all.len() implies run_id(#[trigger] all[d]) != run_id(all[c]) by {
        lemma_sorted_runs_ascend(rows, c, d);
    }
    lemma_is_last_run(all, c);
}

/// The rows of each chunk.
pub open spec fn chunk_rows(chunks: Seq<Vec<JoinedPost>>) -> Seq<Seq<JoinedPost>> {
    chunks.map_values(|chunk: Vec<JoinedPost>| chunk@)
}

/// Cuts the rows into runs with `itertools::Itertools::chunk_by`, keyed by
/// the post id. The contract claims what the crate documents: rows that
/// follow each other with the same key form one chunk, and the chunks come
/// in the order of the rows; so the chunks are the runs of the rows.
#[verifier::external_body]
fn chunk_by_post(rows: Vec<JoinedPost>) -> (chunks: Vec<Vec<JoinedPost>>)
    ensures
        chunk_rows(chunks@) == runs(rows@),
{
    let grouped = itertools::Itertools::chunk_by(rows.into_iter(), |row| row.id);
    grouped.into_iter().map(|(_, group)| group.collect()).collect()
}

/// The post that a run belongs to.
pub open spec fn run_id(run: Seq<JoinedPost>) -> int {
    run[0].id as int
}

/// The last run of post `id`, or -1 where it has none.
pub open spec fn last_run_of(all: Seq<Seq<JoinedPost>>, id: int) -> int
    decreases all.len(),
{
    if all.len() == 0 {
        -1
    } else if run_id(all.last()) == id {
        all.len() - 1
    } else {
        last_run_of(all.drop_last(), id)
    }
}

/// The posts that rows give, and the ids of the posts that could not be
/// read.
#[derive(Debug)]
pub struct Grouping {
    pub posts: Vec<Post>,
    pub skipped: Vec<i64>,
}

/// Whether `posts` and `skipped` are what the runs give: for each post id
/// that has a run, the last run of that id stands for the post; where it
/// can be read it gives a post, else its id is skipped; posts and skipped
/// ids come by ascending id.
pub open spec fn grouped(all: Seq<Seq<JoinedPost>>, posts: Seq<PostValue>, skipped: Seq<i64>) -> bool {
    &&& ascending(posts)
    &&& forall|k: int| 0 <= k < posts.len() ==> from_last_run(all, #[trigger] posts[k])
    &&& forall|k: int, l: int|
        0 <= k < l < skipped.len() ==> (#[trigger] skipped[k]) < (#[trigger] skipped[l])
    &&& forall|k: int| 0 <= k < skipped.len() ==> unreadable_id(all, #[trigger] skipped[k] as int)
    &&& forall|c: int|
        0 <= c < all.len() ==> has_post(posts, run_id(#[trigger] all[c])) || was_skipped(
            skipped,
            run_id(all[c]),
        )
}

/// Whether the last run of post `id` cannot be read.
pub open spec fn unreadable_id(all: Seq<Seq<JoinedPost>>, id: int) -> bool {
    let c = last_run_of(all, id);
    0 <= c < all.len() && !readable(all[c])
}

/// Whether the id is among the skipped.
pub open spec fn was_skipped(skipped: Seq<i64>, id: int) -> bool {
    exists|k: int| 0 <= k < skipped.len() && (#[trigger] skipped[k]) == id
}

/// Whether the posts come by strictly ascending id.
pub open spec fn ascending(posts: Seq<PostValue>) -> bool {
    forall|k: int, l: int|
        0 <= k < l < posts.len() ==> (#[trigger] posts[k]).id < (#[trigger] posts[l]).id
}

/// Whether the post is the one that the last run of its id describes.
pub open spec fn from_last_run(all: Seq<Seq<JoinedPost>>, post: PostValue) -> bool {
    let c = last_run_of(all, post.id);
    0 <= c < all.len() && readable(all[c]) && post == rows_post(all[c])
}

/// Whether there is a post with this id.
pub open spec fn has_post(posts: Seq<PostValue>, id: int) -> bool {
    exists|k: int| 0 <= k < posts.len() && (#[trigger] posts[k]).id == id
}

/// The last run of an id, where there is one, is a run of that id.
pub proof fn lemma_last_run_of(all: Seq<Seq<JoinedPost>>, id: int)
    ensures
        -1 <= last_run_of(all, id) < all.len(),
        last_run_of(all, id) >= 0 ==> run_id(all[last_run_of(all, id)]) == id,
        forall|c: int|
            last_run_of(all, id) < c < all.len() ==> run_id(#[trigger] all[c]) != id,
    decreases all.len(),
{
    if all.len() > 0 && run_id(all.last()) != id {
        lemma_last_run_of(all.drop_last(), id);
        assert forall|c: int| last_run_of(all, id) < c < all.len() implies run_id(
            #[trigger] all[c],
        ) != id by {
            if c < all.len() - 1 {
                assert(all.drop_last()[c] == all[c]);
            }
        }
    }
}

/// A run after which no run of the same id follows is the last of its id.
pub proof fn lemma_is_last_run(all: Seq<Seq<JoinedPost>>, c: int)
    requires
        0 <= c < all.len(),
        forall|d: int| c < d < all.len() ==> run_id(#[trigger] all[d]) != run_id(all[c]),
    ensures
        last_run_of(all, run_id(all[c])) == c,
    decreases all.len(),
{
    if c < all.len() - 1 {
        assert(run_id(all[all.len() - 1]) != run_id(all[c]));
        let shorter = all.drop_last();
        assert forall|d: int| c < d < shorter.len() implies run_id(#[trigger] shorter[d])
            != run_id(shorter[c]) by {
            assert(shorter[d] == all[d]);
        }
        lemma_is_last_run(shorter, c);
    }
}

/// Whether run `id` has a place in `order`.
spec fn placed(ids: Seq<i64>, order: Seq<usize>, id: i64) -> bool {
    exists|k: int| 0 <= k < order.len() && ids[#[trigger] order[k] as int] == id
}

/// Whether `order` lists, by ascending id, the last run of every id among
/// the first `count` runs, whose ids are `ids`.
spec fn arranged(ids: Seq<i64>, count: int, order: Seq<usize>) -> bool {
    &&& forall|k: int| 0 <= k < order.len() ==> (#[trigger] order[k]) < count
    &&& forall|k: int, l: int|
        0 <= k < l < order.len() ==> ids[#[trigger] order[k] as int] < ids[#[trigger] order[l] as int]
    &&& forall|k: int, d: int|
        0 <= k < order.len() && order[k] < d < count ==> #[trigger] ids[d] != ids[#[trigger] order[k] as int]
    &&& forall|c: int| 0 <= c < count ==> placed(ids, order, #[trigger] ids[c])
}

/// A run whose id has a place already takes that place.
proof fn lemma_replace(ids: Seq<i64>, i: int, order: Seq<usize>, pos: int)
    requires
        0 <= i < ids.len(),
        i <= usize::MAX,
        arranged(ids, i, order),
        0 <= pos < order.len(),
        ids[order[pos] as int] == ids[i],
    ensures
        arranged(ids, i + 1, order.update(pos, i as usize)),
{
    let after = order.update(pos, i as usize);
    assert forall|k: int, l: int| 0 <= k < l < after.len() implies ids[#[trigger] after[k] as int]
        < ids[#[trigger] after[l] as int] by {
        assert(ids[after[k] as int] == ids[order[k] as int]);
        assert(ids[after[l] as int] == ids[order[l] as int]);
    }
    assert forall|k: int, d: int| 0 <= k < after.len() && after[k] < d < i + 1 implies #[trigger] ids[d]
        != ids[#[trigger] after[k] as int] by {
        if k != pos {
            assert(after[k] == order[k]);
            if d == i {
                if k < pos {
                    assert(ids[order[k] as int] < ids[order[pos] as int]);
                } else {
                    assert(ids[order[pos] as int] < ids[order[k] as int]);
                }
            }
        }
    }
    assert forall|c: int| 0 <= c < i + 1 implies placed(ids, after, #[trigger] ids[c]) by {
        if c < i {
            assert(placed(ids, order, ids[c]));
            let k = choose|k: int| 0 <= k < order.len() && ids[#[trigger] order[k] as int] == ids[c];
            assert(ids[after[k] as int] == ids[c]);
        } else {
            assert(ids[after[pos] as int] == ids[c]);
        }
    }
}

/// A run whose id has no place yet is put between the smaller ids and the
/// larger ones.
proof fn lemma_insert(ids: Seq<i64>, i: int, order: Seq<usize>, pos: int)
    requires
        0 <= i < ids.len(),
        i <= usize::MAX,
        arranged(ids, i, order),
        0 <= pos <= order.len(),
        forall|k: int| 0 <= k < pos ==> ids[#[trigger] order[k] as int] < ids[i],
        pos < order.len() ==> ids[i] < ids[order[pos] as int],
    ensures
        arranged(ids, i + 1, order.insert(pos, i as usize)),
{
    let after = order.insert(pos, i as usize);
    assert forall|k: int| 0 <= k < after.len() implies (#[trigger] after[k]) < i + 1 by {
        if k < pos {
            assert(after[k] == order[k]);
        } else if k > pos {
            assert(after[k] == order[k - 1]);
        }
    }
    assert forall|k: int| pos <= k < order.len() implies ids[i] < ids[#[trigger] order[k] as int] by {
        if k > pos {
            assert(ids[order[pos] as int] < ids[order[k] as int]);
        }
    }
    assert forall|k: int, l: int| 0 <= k < l < after.len() implies ids[#[trigger] after[k] as int]
        < ids[#[trigger] after[l] as int] by {
        if k < pos {
            assert(after[k] == order[k]);
        } else if k > pos {
            assert(after[k] == order[k - 1]);
        }
        if l < pos {
            assert(after[l] == order[l]);
        } else if l > pos {
            assert(after[l] == order[l - 1]);
        }
    }
    assert forall|k: int, d: int| 0 <= k < after.len() && after[k] < d < i + 1 implies #[trigger] ids[d]
        != ids[#[trigger] after[k] as int] by {
        if k < pos {
            assert(after[k] == order[k]);
        } else if k > pos {
            assert(after[k] == order[k - 1]);
        }
    }
    assert forall|c: int| 0 <= c < i + 1 implies placed(ids, after, #[trigger] ids[c]) by {
        if c < i {
            assert(placed(ids, order, ids[c]));
            let k = choose|k: int| 0 <= k < order.len() && ids[#[trigger] order[k] as int] == ids[c];
            let moved = if k < pos {
                k
            } else {
                k + 1
            };
            assert(after[moved] == order[k]);
            assert(ids[after[moved] as int] == ids[c]);
        } else {
            assert(ids[after[pos] as int] == ids[c]);
        }
    }
}

/// Puts the runs in the order in which they give posts: by ascending id,
/// and of runs with one id only the last.
fn arrange(ids: &Vec<i64>) -> (order: Vec<usize>)
    ensures
        arranged(ids@, ids.len() as int, order@),
{
    let mut order: Vec<usize> = Vec::new();
    let mut i: usize = 0;
    while i < ids.len()
        invariant
            i <= ids.len(),
            arranged(ids@, i as int, order@),
        decreases ids.len() - i,
    {
        let id: i64 = ids[i];
        let mut pos: usize = 0;
        while pos < order.len() && ids[order[pos]] < id
            invariant
                i < ids.len(),
                id == ids@[i as int],
                arranged(ids@, i as int, order@),
                pos <= order.len(),
                forall|k: int| 0 <= k < pos ==> ids@[#[trigger] order@[k] as int] < id,
            decreases order.len() - pos,
        {
            pos += 1;
        }
        if pos < order.len() && ids[order[pos]] == id {
            proof {
                lemma_replace(ids@, i as int, order@, pos as int);
            }
            order.set(pos, i);
        } else {
            proof {
                lemma_insert(ids@, i as int, order@, pos as int);
            }
            order.insert(pos, i);
        }
        i += 1;
    }
    order
}

/// Whether place `j` of the order is listed in `at`.
spec fn listed(at: Seq<int>, j: int) -> bool {
    exists|i: int| 0 <= i < at.len() && #[trigger] at[i] == j
}

/// Whether `posts` and `skipped` are what the first `count` places of the
/// order give, `post_at` and `skip_at` telling the place of each.
spec fn sorted_out(
    all: Seq<Seq<JoinedPost>>,
    ids: Seq<i64>,
    order: Seq<usize>,
    count: int,
    posts: Seq<PostValue>,
    skipped: Seq<i64>,
    post_at: Seq<int>,
    skip_at: Seq<int>,
) -> bool {
    &&& post_at.len() == posts.len()
    &&& skip_at.len() == skipped.len()
    &&& forall|i: int| 0 <= i < post_at.len() ==> 0 <= #[trigger] post_at[i] < count
    &&& forall|i: int| 0 <= i < skip_at.len() ==> 0 <= #[trigger] skip_at[i] < count
    &&& forall|i: int, l: int|
        0 <= i < l < post_at.len() ==> #[trigger] post_at[i] < #[trigger] post_at[l]
    &&& forall|i: int, l: int|
        0 <= i < l < skip_at.len() ==> #[trigger] skip_at[i] < #[trigger] skip_at[l]
    &&& forall|i: int|
        0 <= i < post_at.len() ==> readable(all[order[#[trigger] post_at[i]] as int]) && posts[i]
            == rows_post(all[order[post_at[i]] as int])
    &&& forall|i: int|
        0 <= i < skip_at.len() ==> !readable(all[order[#[trigger] skip_at[i]] as int])
            && skipped[i] == ids[order[skip_at[i]] as int]
    &&& forall|j: int| 0 <= j < count ==> listed(post_at, j) || listed(skip_at, j)
}

/// Groups the rows that the store returned into posts.
///
/// Rows that follow each other with one post id make one post; its links
/// are in the order of the rows. The posts come by ascending id. Should runs
/// of one id be apart, which rows sorted by post id never are, the last run
/// stands for the post. A post whose tags cannot be read is left out and
/// its id handed back among the skipped.
pub fn group_rows(rows: Vec<JoinedPost>) -> (result: Grouping)
    ensures
        grouped(runs(rows@), post_values(result.posts@), result.skipped@),
{
    let ghost all = runs(rows@);
    proof {
        assert forall|c: int| 0 <= c < all.len() implies (#[trigger] all[c]).len() > 0 by {
            lemma_runs_nonempty(rows@, c);
        }
    }
    let chunks = chunk_by_post(rows);
    let mut ids: Vec<i64> = Vec::new();
    let mut c: usize = 0;
    while c < chunks.len()
        invariant
            c <= chunks.len(),
            all == chunk_rows(chunks@),
            forall|d: int| 0 <= d < all.len() ==> (#[trigger] all[d]).len() > 0,
            ids.len() == c,
            forall|d: int| 0 <= d < c ==> #[trigger] ids@[d] == run_id(all[d]),
        decreases chunks.len() - c,
    {
        assert(all[c as int] == chunks@[c as int]@);
        ids.push(chunks[c][0].id);
        c += 1;
    }
    let order = arrange(&ids);
    let mut posts: Vec<Post> = Vec::new();
    let mut skipped: Vec<i64> = Vec::new();
    let ghost mut post_at: Seq<int> = Seq::empty();
    let ghost mut skip_at: Seq<int> = Seq::empty();
    let mut k: usize = 0;
    while k < order.len()
        invariant
            k <= order.len(),
            all == chunk_rows(chunks@),
            ids.len() == all.len(),
            arranged(ids@, ids.len() as int, order@),
            sorted_out(
                all,
                ids@,
                order@,
                k as int,
                post_values(posts@),
                skipped@,
                post_at,
                skip_at,
            ),
        decreases order.len() - k,
    {
        let at: usize = order[k];
        assert(all[at as int] == chunks@[at as int]@);
        let ghost values = post_values(posts@);
        let ghost before = skipped@;
        let ghost old_post_at = post_at;
        let ghost old_skip_at = skip_at;
        match post_of(&chunks[at]) {
            Ok(post) => {
                posts.push(post);
                proof {
                    post_at = post_at.push(k as int);
                    assert(post_values(posts@) =~= values.push(post@));
                    lemma_sorted_out_post(
                        all,
                        ids@,
                        order@,
                        k as int,
                        values,
                        before,
                        old_post_at,
                        old_skip_at,
                        post@,
                    );
                }
            },
            Err(_) => {
                skipped.push(ids[at]);
                proof {
                    skip_at = skip_at.push(k as int);
                    lemma_sorted_out_skip(
                        all,
                        ids@,
                        order@,
                        k as int,
                        values,
                        before,
                        old_post_at,
                        old_skip_at,
                    );
                }
            },
        }
        k += 1;
    }
    proof {
        lemma_grouped(all, ids@, order@, post_values(posts@), skipped@, post_at, skip_at);
    }
    Grouping { posts, skipped }
}

/// A post that the next place of the order gives is sorted in at the end.
proof fn lemma_sorted_out_post(
    all: Seq<Seq<JoinedPost>>,
    ids: Seq<i64>,
    order: Seq<usize>,
    k: int,
    posts: Seq<PostValue>,
    skipped: Seq<i64>,
    post_at: Seq<int>,
    skip_at: Seq<int>,
    post: PostValue,
)
    requires
        0 <= k < order.len(),
        sorted_out(all, ids, order, k, posts, skipped, post_at, skip_at),
        readable(all[order[k] as int]),
        post == rows_post(all[order[k] as int]),
    ensures
        sorted_out(all, ids, order, k + 1, posts.push(post), skipped, post_at.push(k), skip_at),
{
    let new_at = post_at.push(k);
    let new_posts = posts.push(post);
    assert forall|j: int| 0 <= j < k + 1 implies listed(new_at, j) || listed(skip_at, j) by {
        if j < k {
            if listed(post_at, j) {
                let i = choose|i: int| 0 <= i < post_at.len() && #[trigger] post_at[i] == j;
                assert(new_at[i] == j);
            }
        } else {
            assert(new_at[post_at.len() as int] == k);
        }
    }
    assert forall|i: int| 0 <= i < new_at.len() implies readable(
        all[order[#[trigger] new_at[i]] as int],
    ) && new_posts[i] == rows_post(all[order[new_at[i]] as int]) by {
        if i < post_at.len() {
            assert(new_at[i] == post_at[i]);
        }
    }
    assert forall|i: int, l: int| 0 <= i < l < new_at.len() implies #[trigger] new_at[i]
        < #[trigger] new_at[l] by {
        if l < post_at.len() {
            assert(new_at[i] == post_at[i] && new_at[l] == post_at[l]);
        } else {
            assert(new_at[i] == post_at[i]);
        }
    }
    assert forall|i: int| 0 <= i < new_at.len() implies 0 <= #[trigger] new_at[i] < k + 1 by {
        if i < post_at.len() {
            assert(new_at[i] == post_at[i]);
        }
    }
}

/// An id that the next place of the order gives is sorted in at the end.
proof fn lemma_sorted_out_skip(
    all: Seq<Seq<JoinedPost>>,
    ids: Seq<i64>,
    order: Seq<usize>,
    k: int,
    posts: Seq<PostValue>,
    skipped: Seq<i64>,
    post_at: Seq<int>,
    skip_at: Seq<int>,
)
    requires
        0 <= k < order.len(),
        sorted_out(all, ids, order, k, posts, skipped, post_at, skip_at),
        !readable(all[order[k] as int]),
    ensures
        sorted_out(
            all,
            ids,
            order,
            k + 1,
            posts,
            skipped.push(ids[order[k] as int]),
            post_at,
            skip_at.push(k),
        ),
{
    let new_at = skip_at.push(k);
    let new_skipped = skipped.push(ids[order[k] as int]);
    assert forall|j: int| 0 <= j < k + 1 implies listed(post_at, j) || listed(new_at, j) by {
        if j < k {
            if listed(skip_at, j) {
                let i = choose|i: int| 0 <= i < skip_at.len() && #[trigger] skip_at[i] == j;
                assert(new_at[i] == j);
            }
        } else {
            assert(new_at[skip_at.len() as int] == k);
        }
    }
    assert forall|i: int| 0 <= i < new_at.len() implies !readable(
        all[order[#[trigger] new_at[i]] as int],
    ) && new_skipped[i] == ids[order[new_at[i]] as int] by {
        if i < skip_at.len() {
            assert(new_at[i] == skip_at[i]);
        }
    }
    assert forall|i: int, l: int| 0 <= i < l < new_at.len() implies #[trigger] new_at[i]
        < #[trigger] new_at[l] by {
        if l < skip_at.len() {
            assert(new_at[i] == skip_at[i] && new_at[l] == skip_at[l]);
        } else {
            assert(new_at[i] == skip_at[i]);
        }
    }
    assert forall|i: int| 0 <= i < new_at.len() implies 0 <= #[trigger] new_at[i] < k + 1 by {
        if i < skip_at.len() {
            assert(new_at[i] == skip_at[i]);
        }
    }
}

/// Posts and skipped ids sorted out of the whole order are what the runs
/// give.
proof fn lemma_grouped(
    all: Seq<Seq<JoinedPost>>,
    ids: Seq<i64>,
    order: Seq<usize>,
    posts: Seq<PostValue>,
    skipped: Seq<i64>,
    post_at: Seq<int>,
    skip_at: Seq<int>,
)
    requires
        ids.len() == all.len(),
        forall|d: int| 0 <= d < all.len() ==> #[trigger] ids[d] == run_id(all[d]),
        arranged(ids, ids.len() as int, order),
        sorted_out(all, ids, order, order.len() as int, posts, skipped, post_at, skip_at),
    ensures
        grouped(all, posts, skipped),
{
    assert forall|i: int| 0 <= i < posts.len() implies from_last_run(all, #[trigger] posts[i]) by {
        lemma_selected_is_last(all, ids, order, post_at[i]);
    }
    assert forall|i: int, l: int| 0 <= i < l < posts.len() implies (#[trigger] posts[i]).id < (
    #[trigger] posts[l]).id by {
        assert(post_at[i] < post_at[l]);
        assert(ids[order[post_at[i]] as int] < ids[order[post_at[l]] as int]);
    }
    assert forall|i: int, l: int| 0 <= i < l < skipped.len() implies (#[trigger] skipped[i]) < (
    #[trigger] skipped[l]) by {
        assert(skip_at[i] < skip_at[l]);
        assert(ids[order[skip_at[i]] as int] < ids[order[skip_at[l]] as int]);
    }
    assert forall|i: int| 0 <= i < skipped.len() implies unreadable_id(
        all,
        #[trigger] skipped[i] as int,
    ) by {
        lemma_selected_is_last(all, ids, order, skip_at[i]);
    }
    assert forall|c: int| 0 <= c < all.len() implies has_post(posts, run_id(#[trigger] all[c]))
        || was_skipped(skipped, run_id(all[c])) by {
        assert(placed(ids, order, ids[c]));
        let j = choose|j: int| 0 <= j < order.len() && ids[#[trigger] order[j] as int] == ids[c];
        if listed(post_at, j) {
            let i = choose|i: int| 0 <= i < post_at.len() && #[trigger] post_at[i] == j;
            assert(posts[i].id == run_id(all[c]));
        } else {
            assert(listed(skip_at, j));
            let i = choose|i: int| 0 <= i < skip_at.len() && #[trigger] skip_at[i] == j;
            assert(skipped[i] == run_id(all[c]));
        }
    }
}

/// A run that has a place in the order is the last run of its id.
proof fn lemma_selected_is_last(
    all: Seq<Seq<JoinedPost>>,
    ids: Seq<i64>,
    order: Seq<usize>,
    k: int,
)
    requires
        ids.len() == all.len(),
        forall|d: int| 0 <= d < all.len() ==> #[trigger] ids[d] == run_id(all[d]),
        arranged(ids, ids.len() as int, order),
        0 <= k < order.len(),
    ensures
        0 <= order[k] < all.len(),
        last_run_of(all, run_id(all[order[k] as int])) == order[k],
{
    let c = order[k] as int;
    assert forall|d: int| c < d < all.len() implies run_id(#[trigger] all[d]) != run_id(all[c]) by {
        assert(ids[d] != ids[order[k] as int]);
    }
    lemma_is_last_run(all, c);
}

} // verus!
