//! Destination paths: from a post, a link id and a filename pattern to the
//! path under which the link's file is kept.
//!
//! A pattern is text with the placeholders `{post_id}`, `{title}`,
//! `{link_id}` and `{type}` and with `/` between directory levels. The title
//! that stands for `{title}` is derived from the post's title, or from its
//! tags where the title yields nothing.

use vstd::prelude::*;
use crate::model::{Post, PostType, PostValue};
use crate::paths::{path_push, path_set_extension, pushed, with_extension};
use crate::text::{
    decimal, equal, fields, join, joined, lemma_decimal_chars, lemma_fields_len,
    lemma_joined_has_none, lemma_joined_len_grows, lemma_replaced_occurrences,
    lemma_trimmed_is_part, occurrences, replace, replaced, split, split_whitespace, starts_with,
    string_from_chars, to_chars, to_decimal, trim, trimmed, words,
};

verus! {

broadcast use vstd::string::group_string_axioms;

/// The longest derived title, in characters.
pub const MAX_TITLE_LEN: usize = 50;

/// A smiley is a token of exactly two characters that starts with `:`.
pub open spec fn smiley(token: Seq<char>) -> bool {
    token.len() == 2 && token[0] == ':'
}

/// A token that starts with `http` looks like a URL.
pub open spec fn url_like(token: Seq<char>) -> bool {
    "http"@.is_prefix_of(token)
}

/// Whether a token of the title stays in the derived title: a smiley always
/// does; of the others, URLs and a slash that stands alone are dropped.
pub open spec fn kept(token: Seq<char>) -> bool {
    smiley(token) || (token != "/"@ && !url_like(token))
}

/// The token with every `/` turned into a space.
pub open spec fn slash_folded(token: Seq<char>) -> Seq<char> {
    token.map_values(
        |c: char|
            if c == '/' {
                ' '
            } else {
                c
            },
    )
}

/// What a token of the title contributes to the derived title, if anything.
pub open spec fn cleaned(token: Seq<char>) -> Option<Seq<char>> {
    if kept(token) {
        Some(slash_folded(token))
    } else {
        None
    }
}

/// The tokens that the title contributes, in order.
pub open spec fn title_tokens(title: Seq<char>) -> Seq<Seq<char>> {
    words(title).filter_map(|token: Seq<char>| cleaned(token))
}

/// Whether the first `count` tokens, joined by single spaces, are at most
/// `max_len` characters long.
pub open spec fn fits(tokens: Seq<Seq<char>>, count: int, max_len: int) -> bool {
    joined(tokens.take(count), " "@).len() <= max_len
}

/// How many tokens are taken when taking starts with `count` tokens in hand:
/// one more as long as there is one and it still fits.
pub open spec fn kept_from(tokens: Seq<Seq<char>>, max_len: int, count: int) -> int
    decreases tokens.len() - count,
{
    if 0 <= count < tokens.len() && fits(tokens, count + 1, max_len) {
        kept_from(tokens, max_len, count + 1)
    } else {
        count
    }
}

/// How many leading tokens fit into `max_len` characters.
pub open spec fn kept_count(tokens: Seq<Seq<char>>, max_len: int) -> int {
    kept_from(tokens, max_len, 0)
}

/// The leading tokens that fit into `max_len` characters, joined by single
/// spaces. No token is cut: the first one that would cross the limit ends
/// the text, and so do all after it.
pub open spec fn limited(tokens: Seq<Seq<char>>, max_len: int) -> Seq<char> {
    joined(tokens.take(kept_count(tokens, max_len)), " "@)
}

/// The title that stands for a post in its paths: the post's title cleaned
/// of URLs and cut to whole tokens; the post's tags where that is empty;
/// `no title` where both are. Whitespace at either end is removed.
pub open spec fn post_title(title: Seq<char>, tags: Seq<Seq<char>>) -> Seq<char> {
    let from_title = limited(title_tokens(title), MAX_TITLE_LEN as int);
    let from_tags = limited(tags, MAX_TITLE_LEN as int);
    trimmed(
        if from_title.len() > 0 {
            from_title
        } else if from_tags.len() > 0 {
            from_tags
        } else {
            "no title"@
        },
    )
}

/// Whether a token is a smiley.
pub fn is_smiley(token: &str) -> (b: bool)
    ensures
        b == smiley(token@),
{
    let chars = to_chars(token);
    chars.len() == 2 && chars[0] == ':'
}

/// Whether a token of the title stays in the derived title.
pub fn ignored_tokens(t: &&str) -> (keep: bool)
    ensures
        keep == kept(t@),
{
    is_smiley(*t) || (!equal(*t, "/") && !starts_with(*t, "http"))
}

/// Turns every `/` of a token into a space, so that a title never adds a
/// directory level.
pub fn fix_token(token: &str) -> (fixed: String)
    ensures
        fixed@ == slash_folded(token@),
{
    let chars = to_chars(token);
    let mut out: Vec<char> = Vec::new();
    let mut i: usize = 0;
    while i < chars.len()
        invariant
            i <= chars.len(),
            out@.len() == i,
            forall|k: int| 0 <= k < i ==> out@[k] == slash_folded(chars@)[k],
        decreases chars.len() - i,
    {
        let c = chars[i];
        out.push(
            if c == '/' {
                ' '
            } else {
                c
            },
        );
        i += 1;
    }
    assert(out@ =~= slash_folded(chars@));
    string_from_chars(&out)
}

/// Joins the longest run of leading tokens that fits into `max_len`
/// characters, single spaces between them.
pub fn limit_length(input: Vec<String>, max_len: usize) -> (text: String)
    ensures
        text@ == limited(input.deep_view(), max_len as int),
{
    limit_tokens(&input, max_len)
}

fn limit_tokens(input: &Vec<String>, max_len: usize) -> (text: String)
    ensures
        text@ == limited(input.deep_view(), max_len as int),
{
    let ghost tokens = input.deep_view();
    let mut count: usize = 0;
    let mut len: usize = 0;
    proof {
        reveal_strlit(" ");
    }
    while count < input.len()
        invariant
            tokens == input.deep_view(),
            count <= input.len(),
            " "@.len() == 1,
            len == joined(tokens.take(count as int), " "@).len(),
            len <= max_len,
            kept_count(tokens, max_len as int) == kept_from(tokens, max_len as int, count as int),
        ensures
            count <= input.len(),
            kept_count(tokens, max_len as int) == count,
        decreases input.len() - count,
    {
        let token_len: usize = input[count].as_str().unicode_len();
        let gap: usize = if count > 0 {
            1
        } else {
            0
        };
        proof {
            let next = tokens.take(count + 1);
            assert(next.drop_last() =~= tokens.take(count as int));
            assert(next.last() == input@[count as int]@);
            assert(joined(next, " "@).len() == len + gap + token_len);
        }
        if token_len > max_len - len || max_len - len - token_len < gap {
            break ;
        }
        len = len + gap + token_len;
        count += 1;
    }
    let mut taken: Vec<String> = Vec::new();
    let mut i: usize = 0;
    while i < count
        invariant
            tokens == input.deep_view(),
            i <= count <= input.len(),
            taken.deep_view() == tokens.take(i as int),
        decreases count - i,
    {
        let ghost before = taken.deep_view();
        taken.push(input[i].clone());
        assert(taken.deep_view() =~= before.push(input@[i as int]@));
        assert(tokens.take(i + 1) =~= tokens.take(i as int).push(tokens[i as int]));
        i += 1;
    }
    join(&taken, " ")
}

/// Derives the title that stands for a post in its paths.
pub fn get_post_title(post: &Post) -> (title: String)
    ensures
        title@ == post_title(post.title@, post.tags.deep_view()),
{
    let raw = split_whitespace(post.title.as_str());
    let ghost clean = |token: Seq<char>| cleaned(token);
    let mut tokens: Vec<String> = Vec::new();
    let mut i: usize = 0;
    while i < raw.len()
        invariant
            i <= raw.len(),
            raw.deep_view() == words(post.title@),
            clean == |token: Seq<char>| cleaned(token),
            tokens.deep_view() == raw.deep_view().take(i as int).filter_map(clean),
        decreases raw.len() - i,
    {
        let ghost before = tokens.deep_view();
        proof {
            raw.deep_view().lemma_filter_map_take_succ(clean, i as int);
        }
        let token: &str = raw[i].as_str();
        if ignored_tokens(&token) {
            let fixed = fix_token(token);
            tokens.push(fixed);
            assert(tokens.deep_view() =~= before.push(slash_folded(token@)));
        }
        i += 1;
    }
    assert(raw.deep_view().take(raw.len() as int) =~= raw.deep_view());
    let from_title = limit_tokens(&tokens, MAX_TITLE_LEN);
    let result = if from_title.as_str().unicode_len() > 0 {
        from_title
    } else {
        let from_tags = limit_tokens(&post.tags, MAX_TITLE_LEN);
        if from_tags.as_str().unicode_len() > 0 {
            from_tags
        } else {
            "no title".to_owned()
        }
    };
    trim(result.as_str())
}

/// The directory that holds the files of posts of one type.
pub open spec fn type_directory(post_type: PostType) -> Seq<char> {
    match post_type {
        PostType::Video => "Videos"@,
        PostType::Image => "Images"@,
    }
}

/// The extension of the files of posts of one type.
pub open spec fn type_extension(post_type: PostType) -> Seq<char> {
    match post_type {
        PostType::Video => "mp4"@,
        PostType::Image => "jpeg"@,
    }
}

/// The pattern with its placeholders filled in: first every `{post_id}`,
/// then every `{title}`, then every `{link_id}`, then every `{type}`. Text
/// that an earlier step put in is read again by the later ones.
pub open spec fn substituted(
    pattern: Seq<char>,
    post_id: int,
    title: Seq<char>,
    link_id: int,
    post_type: PostType,
) -> Seq<char> {
    replaced(
        replaced(
            replaced(replaced(pattern, "{post_id}"@, decimal(post_id)), "{title}"@, title),
            "{link_id}"@,
            decimal(link_id),
        ),
        "{type}"@,
        type_directory(post_type),
    )
}

/// Fills in the placeholders of a pattern.
pub fn substitute(
    pattern: &str,
    post_id: i64,
    title: &str,
    link_id: i64,
    post_type: PostType,
) -> (name: String)
    ensures
        name@ == substituted(pattern@, post_id as int, title@, link_id as int, post_type),
{
    let with_post = replace(pattern, "{post_id}", to_decimal(post_id).as_str());
    let with_title = replace(with_post.as_str(), "{title}", title);
    let with_link = replace(with_title.as_str(), "{link_id}", to_decimal(link_id).as_str());
    let directory: &str = match post_type {
        PostType::Video => "Videos",
        PostType::Image => "Images",
    };
    replace(with_link.as_str(), "{type}", directory)
}

/// What `sanitize_filename::sanitize_with_options` returns for a name under
/// the given options.
pub uninterp spec fn sanitized(
    name: Seq<char>,
    windows: bool,
    truncate: bool,
    replacement: Seq<char>,
) -> Seq<char>;

/// Calls `sanitize_filename::sanitize_with_options`. The contract names
/// the result, `sanitized`, and claims one thing more. The crate replaces
/// each `/` by the replacement, in which it reads `$` as a reference to what
/// was matched, and afterwards only replaces or cuts; so with a replacement
/// free of `/` and `$` the result is free of `/`.
#[verifier::external_body]
fn sanitize_with(name: &str, windows: bool, truncate: bool, replacement: &str) -> (out: String)
    ensures
        out@ == sanitized(name@, windows, truncate, replacement@),
        !replacement@.contains('/') && !replacement@.contains('$') ==> !out@.contains('/'),
{
    sanitize_filename::sanitize_with_options(
        name,
        sanitize_filename::Options { windows, truncate, replacement },
    )
}

/// A path segment made fit for a file name: what no file system takes is
/// replaced by a space, by the strictest rules on every platform, and names
/// longer than a file name may be are cut.
pub open spec fn clean_name(segment: Seq<char>) -> Seq<char> {
    sanitized(segment, true, true, " "@)
}

/// Makes a path segment fit for a file name.
pub fn sanitize(input: &str) -> (out: String)
    ensures
        out@ == clean_name(input@),
        !out@.contains('/'),
{
    proof {
        reveal_strlit(" ");
        assert(" "@[0] == ' ');
        lemma_no_separator(" "@);
        assert(!" "@.contains('$'));
    }
    sanitize_with(input, true, true, " ")
}

/// The segments of a path, one for each piece of `name` between slashes:
/// each made fit for a file name, then stripped of whitespace at both ends.
pub open spec fn segments(name: Seq<char>) -> Seq<Seq<char>> {
    fields(name, '/').map_values(|piece: Seq<char>| trimmed(clean_name(piece)))
}

/// The path after all parts have been pushed, in order.
pub open spec fn pushed_all(base: Seq<char>, parts: Seq<Seq<char>>) -> Seq<char>
    decreases parts.len(),
{
    if parts.len() == 0 {
        base
    } else {
        pushed(pushed_all(base, parts.drop_last()), parts.last())
    }
}

/// The destination of a link: the pattern filled in, cut at its slashes into
/// segments, the segments pushed onto the base directory one by one, and the
/// extension of the post's type set on the result.
pub open spec fn download_path(
    post_id: int,
    title: Seq<char>,
    tags: Seq<Seq<char>>,
    post_type: PostType,
    link_id: int,
    pattern: Seq<char>,
    base_dir: Seq<char>,
) -> Seq<char> {
    with_extension(
        pushed_all(
            base_dir,
            segments(substituted(pattern, post_id, post_title(title, tags), link_id, post_type)),
        ),
        type_extension(post_type),
    )
}

/// The destination of a link of `post`.
pub open spec fn resolved(
    post: PostValue,
    link_id: int,
    pattern: Seq<char>,
    base_dir: Seq<char>,
) -> Seq<char> {
    download_path(post.id, post.title, post.tags, post.post_type, link_id, pattern, base_dir)
}

/// Cuts a name at its slashes into path segments; no segment holds a slash,
/// so a path gets exactly one level for each piece of the name.
pub fn path_segments(name: &str) -> (parts: Vec<String>)
    ensures
        parts.deep_view() == segments(name@),
        parts.len() == fields(name@, '/').len(),
        forall|i: int| 0 <= i < parts.len() ==> !(#[trigger] parts@[i])@.contains('/'),
{
    let pieces = split(name, '/');
    let mut parts: Vec<String> = Vec::new();
    let mut i: usize = 0;
    while i < pieces.len()
        invariant
            i <= pieces.len(),
            pieces.deep_view() == fields(name@, '/'),
            parts.len() == i,
            forall|k: int|
                0 <= k < i ==> (#[trigger] parts@[k])@ == trimmed(clean_name(pieces@[k]@)) && !parts@[k]@.contains('/'),
        decreases pieces.len() - i,
    {
        let clean = sanitize(pieces[i].as_str());
        let part = trim(clean.as_str());
        proof {
            if part@.contains('/') {
                lemma_trimmed_is_part(clean@, '/');
            }
        }
        parts.push(part);
        i += 1;
    }
    assert(parts.deep_view() =~= segments(name@)) by {
        assert forall|k: int| 0 <= k < parts.len() implies parts.deep_view()[k] == segments(
            name@,
        )[k] by {
            assert(pieces.deep_view()[k] == pieces@[k]@);
        }
    }
    parts
}

/// Resolves the destination path of a link.
pub fn get_download_path(post: &Post, link_id: i64, pattern: &str, base_dir: &str) -> (path:
    String)
    ensures
        path@ == resolved(post@, link_id as int, pattern@, base_dir@),
{
    let title = get_post_title(post);
    let name = substitute(pattern, post.id, title.as_str(), link_id, post.post_type);
    let parts = path_segments(name.as_str());
    let mut path: String = base_dir.to_owned();
    let mut i: usize = 0;
    while i < parts.len()
        invariant
            i <= parts.len(),
            path@ == pushed_all(base_dir@, parts.deep_view().take(i as int)),
        decreases parts.len() - i,
    {
        proof {
            let next = parts.deep_view().take(i + 1);
            assert(next.drop_last() =~= parts.deep_view().take(i as int));
            assert(next.last() == parts@[i as int]@);
        }
        path = path_push(path, parts[i].as_str());
        i += 1;
    }
    assert(parts.deep_view().take(parts.len() as int) =~= parts.deep_view());
    let extension: &str = match post.post_type {
        PostType::Video => "mp4",
        PostType::Image => "jpeg",
    };
    proof {
        reveal_strlit("mp4");
        reveal_strlit("jpeg");
        lemma_no_separator("mp4"@);
        lemma_no_separator("jpeg"@);
    }
    path_set_extension(path, extension)
}

/// The destination depends on nothing of a post but its id, title, tags
/// and type: posts that agree on these resolve to the same path for the
/// same link id, pattern and base directory.
pub proof fn lemma_resolved_is_determined(
    a: PostValue,
    b: PostValue,
    link_id: int,
    pattern: Seq<char>,
    base_dir: Seq<char>,
)
    requires
        a.id == b.id,
        a.title == b.title,
        a.tags == b.tags,
        a.post_type == b.post_type,
    ensures
        resolved(a, link_id, pattern, base_dir) == resolved(b, link_id, pattern, base_dir),
{
}

/// A smiley is neither a URL nor a lone slash, so the tokens that are
/// dropped from a title are exactly the URLs and the slashes that stand
/// alone.
pub proof fn lemma_only_urls_and_lone_slashes_are_dropped(token: Seq<char>)
    ensures
        kept(token) <==> token != "/"@ && !url_like(token),
{
    reveal_strlit("/");
    reveal_strlit("http");
    if smiley(token) {
        assert(token.len() == 2);
        assert("/"@.len() == 1);
        assert("http"@.len() == 4);
    }
}

/// No token that a title contributes holds a slash.
pub proof fn lemma_title_tokens_have_no_slash(title: Seq<char>, i: int)
    requires
        0 <= i < title_tokens(title).len(),
    ensures
        !title_tokens(title)[i].contains('/'),
{
    let clean = |token: Seq<char>| cleaned(token);
    words(title).lemma_filter_map_contains(clean, title_tokens(title)[i]);
    assert(title_tokens(title).contains(title_tokens(title)[i]));
    let token = choose|token: Seq<char>|
        words(title).contains(token) && clean(token) == Some(title_tokens(title)[i]);
    let folded = slash_folded(token);
    if folded.contains('/') {
        let k = choose|k: int| 0 <= k < folded.len() && folded[k] == '/';
        assert(folded[k] != '/');
    }
}

/// How many tokens are kept, counting on from `count`: no more than there
/// are; all of them fit; and the next one, if there is one, does not.
proof fn lemma_kept_from(tokens: Seq<Seq<char>>, max_len: int, count: int)
    requires
        0 <= count <= tokens.len(),
        forall|j: int| 0 <= j <= count ==> fits(tokens, j, max_len),
    ensures
        count <= kept_from(tokens, max_len, count) <= tokens.len(),
        forall|j: int| 0 <= j <= kept_from(tokens, max_len, count) ==> fits(tokens, j, max_len),
        kept_from(tokens, max_len, count) < tokens.len() ==> !fits(
            tokens,
            kept_from(tokens, max_len, count) + 1,
            max_len,
        ),
    decreases tokens.len() - count,
{
    if count < tokens.len() && fits(tokens, count + 1, max_len) {
        lemma_kept_from(tokens, max_len, count + 1);
    }
}

/// The limited text is made of the longest run of leading tokens that fits:
/// it fits itself, every shorter run fits, and no longer run does. So the
/// text ends with the last whole token that keeps it within the limit.
pub proof fn lemma_limited_is_longest(tokens: Seq<Seq<char>>, max_len: int)
    requires
        max_len >= 0,
    ensures
        0 <= kept_count(tokens, max_len) <= tokens.len(),
        limited(tokens, max_len).len() <= max_len,
        forall|j: int| 0 <= j <= kept_count(tokens, max_len) ==> fits(tokens, j, max_len),
        forall|j: int| kept_count(tokens, max_len) < j <= tokens.len() ==> !fits(tokens, j, max_len),
{
    assert(tokens.take(0) =~= Seq::<Seq<char>>::empty());
    lemma_kept_from(tokens, max_len, 0);
    let kept = kept_count(tokens, max_len);
    assert(fits(tokens, kept, max_len));
    assert forall|j: int| kept < j <= tokens.len() implies !fits(tokens, j, max_len) by {
        lemma_joined_len_grows(tokens, " "@, kept + 1, j);
    }
}

/// Tokens that fit as they are, are all kept: the limited text is all of
/// them, joined.
pub proof fn lemma_short_text_is_kept(tokens: Seq<Seq<char>>, max_len: int)
    requires
        max_len >= 0,
        joined(tokens, " "@).len() <= max_len,
    ensures
        limited(tokens, max_len) == joined(tokens, " "@),
{
    lemma_limited_is_longest(tokens, max_len);
    assert(tokens.take(tokens.len() as int) =~= tokens);
    let kept = kept_count(tokens, max_len);
    if kept < tokens.len() {
        assert(!fits(tokens, tokens.len() as int, max_len));
    }
}

/// The title derived for a post whose tags hold no slash holds none.
pub proof fn lemma_post_title_has_no_slash(title: Seq<char>, tags: Seq<Seq<char>>)
    requires
        forall|i: int| 0 <= i < tags.len() ==> !(#[trigger] tags[i]).contains('/'),
    ensures
        !post_title(title, tags).contains('/'),
{
    reveal_strlit(" ");
    reveal_strlit("no title");
    let max = MAX_TITLE_LEN as int;
    let tokens = title_tokens(title);
    let kept_tokens = tokens.take(kept_count(tokens, max));
    let kept_tags = tags.take(kept_count(tags, max));
    lemma_limited_is_longest(tokens, max);
    lemma_limited_is_longest(tags, max);
    assert(" "@[0] == ' ');
    assert(!" "@.contains('/'));
    assert forall|i: int| 0 <= i < kept_tokens.len() implies !(#[trigger] kept_tokens[i]).contains(
        '/',
    ) by {
        lemma_title_tokens_have_no_slash(title, i);
    }
    lemma_joined_has_none(kept_tokens, " "@, '/');
    assert forall|i: int| 0 <= i < kept_tags.len() implies !(#[trigger] kept_tags[i]).contains(
        '/',
    ) by {
        assert(kept_tags[i] == tags[i]);
    }
    lemma_joined_has_none(kept_tags, " "@, '/');
    let placeholder = "no title"@;
    assert(!placeholder.contains('/')) by {
        assert(placeholder.len() == 8);
        assert(placeholder[0] == 'n' && placeholder[1] == 'o' && placeholder[2] == ' '
            && placeholder[3] == 't' && placeholder[4] == 'i' && placeholder[5] == 't'
            && placeholder[6] == 'l' && placeholder[7] == 'e');
    }
    let from_title = limited(tokens, max);
    let from_tags = limited(tags, max);
    let chosen = if from_title.len() > 0 {
        from_title
    } else if from_tags.len() > 0 {
        from_tags
    } else {
        placeholder
    };
    if trimmed(chosen).contains('/') {
        lemma_trimmed_is_part(chosen, '/');
    }
}

/// Directory levels come from the pattern alone: for a post whose tags hold
/// no slash, the destination gets one path segment for each piece of the
/// pattern between slashes, whatever the post's title holds.
pub proof fn lemma_levels_come_from_the_pattern(
    pattern: Seq<char>,
    post_id: int,
    title: Seq<char>,
    tags: Seq<Seq<char>>,
    link_id: int,
    post_type: PostType,
)
    requires
        forall|i: int| 0 <= i < tags.len() ==> !(#[trigger] tags[i]).contains('/'),
    ensures
        segments(
            substituted(pattern, post_id, post_title(title, tags), link_id, post_type),
        ).len() == fields(pattern, '/').len(),
        fields(pattern, '/').len() == occurrences(pattern, '/') + 1,
{
    lemma_post_title_has_no_slash(title, tags);
    reveal_strlit("{post_id}");
    reveal_strlit("{title}");
    reveal_strlit("{link_id}");
    reveal_strlit("{type}");
    reveal_strlit("Videos");
    reveal_strlit("Images");
    let first = "{post_id}"@;
    let second = "{title}"@;
    let third = "{link_id}"@;
    let fourth = "{type}"@;
    assert(!first.contains('/')) by {
        assert(first.len() == 9);
        assert(first[0] == '{' && first[1] == 'p' && first[2] == 'o' && first[3] == 's'
            && first[4] == 't' && first[5] == '_' && first[6] == 'i' && first[7] == 'd'
            && first[8] == '}');
    }
    assert(!second.contains('/')) by {
        assert(second.len() == 7);
        assert(second[0] == '{' && second[1] == 't' && second[2] == 'i' && second[3] == 't'
            && second[4] == 'l' && second[5] == 'e' && second[6] == '}');
    }
    assert(!third.contains('/')) by {
        assert(third.len() == 9);
        assert(third[0] == '{' && third[1] == 'l' && third[2] == 'i' && third[3] == 'n'
            && third[4] == 'k' && third[5] == '_' && third[6] == 'i' && third[7] == 'd'
            && third[8] == '}');
    }
    assert(!fourth.contains('/')) by {
        assert(fourth.len() == 6);
        assert(fourth[0] == '{' && fourth[1] == 't' && fourth[2] == 'y' && fourth[3] == 'p'
            && fourth[4] == 'e' && fourth[5] == '}');
    }
    let directory = type_directory(post_type);
    assert(!directory.contains('/')) by {
        assert(directory.len() == 6);
        assert("Videos"@[0] == 'V' && "Videos"@[1] == 'i' && "Videos"@[2] == 'd' && "Videos"@[3]
            == 'e' && "Videos"@[4] == 'o' && "Videos"@[5] == 's');
        assert("Images"@[0] == 'I' && "Images"@[1] == 'm' && "Images"@[2] == 'a' && "Images"@[3]
            == 'g' && "Images"@[4] == 'e' && "Images"@[5] == 's');
    }
    if decimal(post_id).contains('/') {
        lemma_decimal_chars(post_id, '/');
    }
    if decimal(link_id).contains('/') {
        lemma_decimal_chars(link_id, '/');
    }
    let with_post = replaced(pattern, first, decimal(post_id));
    let with_title = replaced(with_post, second, post_title(title, tags));
    let with_link = replaced(with_title, third, decimal(link_id));
    let name = replaced(with_link, fourth, directory);
    lemma_replaced_occurrences(pattern, first, decimal(post_id), '/');
    lemma_replaced_occurrences(with_post, second, post_title(title, tags), '/');
    lemma_replaced_occurrences(with_title, third, decimal(link_id), '/');
    lemma_replaced_occurrences(with_link, fourth, directory, '/');
    lemma_fields_len(pattern, '/');
    lemma_fields_len(name, '/');
}

/// A text without slash and backslash holds no path separator.
proof fn lemma_no_separator(s: Seq<char>)
    requires
        forall|i: int| 0 <= i < s.len() ==> #[trigger] s[i] != '/' && s[i] != '\\',
    ensures
        !s.contains('/'),
        !s.contains('\\'),
{
}

} // verus!
