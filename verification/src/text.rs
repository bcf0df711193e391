//! Character-level string operations with exact specifications.
//!
//! Every operation is specified over `Seq<char>`, the view of a string, so
//! that the rules built on top of them can be stated character by character.

use vstd::prelude::*;
use vstd::std_specs::iter::IteratorSpec;

verus! {

broadcast use vstd::string::group_string_axioms;

/// Collects characters into a `String` (`String::from_iter` over the
/// characters): the result holds exactly the given characters, in order.
#[verifier::external_body]
pub(crate) fn string_from_chars(chars: &Vec<char>) -> (s: String)
    ensures
        s@ == chars@,
{
    chars.iter().collect()
}

/// The characters of `s`, in order.
pub fn to_chars(s: &str) -> (chars: Vec<char>)
    ensures
        chars@ == s@,
{
    let mut it = s.chars();
    let mut chars: Vec<char> = Vec::new();
    loop
        invariant
            chars@ + it.remaining() == s@,
            it.decrease() is Some,
        ensures
            chars@ == s@,
        decreases it.decrease()->0,
    {
        match it.next() {
            Some(c) => {
                chars.push(c);
            },
            None => {
                break ;
            },
        }
    }
    chars
}

/// Whether `c` has the Unicode `White_Space` property.
pub open spec fn is_space(c: char) -> bool {
    let u = c as u32;
    ||| 0x09 <= u <= 0x0D
    ||| u == 0x20
    ||| u == 0x85
    ||| u == 0xA0
    ||| u == 0x1680
    ||| 0x2000 <= u <= 0x200A
    ||| u == 0x2028
    ||| u == 0x2029
    ||| u == 0x202F
    ||| u == 0x205F
    ||| u == 0x3000
}

/// Tests a character for the Unicode `White_Space` property.
pub fn is_whitespace(c: char) -> (b: bool)
    ensures
        b == is_space(c),
{
    let u: u32 = c as u32;
    (0x09 <= u && u <= 0x0D) || u == 0x20 || u == 0x85 || u == 0xA0 || u == 0x1680 || (0x2000 <= u
        && u <= 0x200A) || u == 0x2028 || u == 0x2029 || u == 0x202F || u == 0x205F || u == 0x3000
}

/// Number of characters of `s` before its first whitespace character.
pub open spec fn word_len(s: Seq<char>) -> nat
    decreases s.len(),
{
    if s.len() == 0 || is_space(s[0]) {
        0
    } else {
        1 + word_len(s.drop_first())
    }
}

/// The maximal runs of non-whitespace characters of `s`, in order.
pub open spec fn words(s: Seq<char>) -> Seq<Seq<char>>
    decreases s.len(),
{
    if s.len() == 0 {
        Seq::empty()
    } else if is_space(s[0]) {
        words(s.drop_first())
    } else {
        proof {
            lemma_word_len_bound(s);
        }
        seq![s.take(word_len(s) as int)] + words(s.skip(word_len(s) as int))
    }
}

/// A word never extends past the end of the text.
pub proof fn lemma_word_len_bound(s: Seq<char>)
    ensures
        word_len(s) <= s.len(),
    decreases s.len(),
{
    if s.len() > 0 && !is_space(s[0]) {
        lemma_word_len_bound(s.drop_first());
    }
}

/// A run of `k` non-whitespace characters that ends at the end of the text
/// or before a whitespace character is the first word.
pub proof fn lemma_word_len_is(s: Seq<char>, k: int)
    requires
        0 <= k <= s.len(),
        forall|i: int| 0 <= i < k ==> !is_space(#[trigger] s[i]),
        k == s.len() || is_space(s[k]),
    ensures
        word_len(s) == k,
    decreases k,
{
    if k > 0 {
        let rest = s.drop_first();
        assert forall|i: int| 0 <= i < k - 1 implies !is_space(#[trigger] rest[i]) by {
            assert(rest[i] == s[i + 1]);
        }
        lemma_word_len_is(rest, k - 1);
    }
}

/// Splits a text at whitespace into its words; empty words do not occur.
pub fn split_whitespace(s: &str) -> (out: Vec<String>)
    ensures
        out.deep_view() == words(s@),
{
    let chars = to_chars(s);
    let n: usize = chars.len();
    let mut out: Vec<String> = Vec::new();
    let mut i: usize = 0;
    assert(s@.skip(0) =~= s@);
    assert(out.deep_view() + words(s@) =~= words(s@));
    while i < n
        invariant
            n == chars.len(),
            chars@ == s@,
            i <= n,
            words(s@) == out.deep_view() + words(s@.skip(i as int)),
        decreases n - i,
    {
        if is_whitespace(chars[i]) {
            proof {
                assert(s@.skip(i as int).drop_first() =~= s@.skip(i + 1));
            }
            i += 1;
        } else {
            let mut word: Vec<char> = Vec::new();
            word.push(chars[i]);
            let mut j: usize = i + 1;
            while j < n && !is_whitespace(chars[j])
                invariant
                    n == chars.len(),
                    chars@ == s@,
                    i < j <= n,
                    word@ == s@.subrange(i as int, j as int),
                    forall|k: int| i <= k < j ==> !is_space(#[trigger] s@[k]),
                decreases n - j,
            {
                word.push(chars[j]);
                j += 1;
            }
            let w = string_from_chars(&word);
            proof {
                let rest = s@.skip(i as int);
                assert forall|k: int| 0 <= k < j - i implies !is_space(#[trigger] rest[k]) by {
                    assert(rest[k] == s@[i + k]);
                }
                lemma_word_len_is(rest, j - i);
                assert(rest.take(j - i) =~= word@);
                assert(rest.skip(j - i) =~= s@.skip(j as int));
                assert(out.deep_view().push(w@) + words(s@.skip(j as int)) =~= out.deep_view()
                    + words(rest));
            }
            let ghost before = out.deep_view();
            out.push(w);
            assert(out.deep_view() =~= before.push(w@));
            i = j;
        }
    }
    assert(out.deep_view() + words(s@.skip(n as int)) =~= out.deep_view());
    out
}

/// Whether two texts hold the same characters.
pub fn equal(a: &str, b: &str) -> (same: bool)
    ensures
        same == (a@ == b@),
{
    let left = to_chars(a);
    let right = to_chars(b);
    if left.len() != right.len() {
        return false;
    }
    let mut k: usize = 0;
    while k < left.len()
        invariant
            left@ == a@,
            right@ == b@,
            left.len() == right.len(),
            k <= left.len(),
            forall|i: int| 0 <= i < k ==> left@[i] == right@[i],
        decreases left.len() - k,
    {
        if left[k] != right[k] {
            return false;
        }
        k += 1;
    }
    assert(left@ =~= right@);
    true
}

/// Whether `s` begins with `prefix`.
pub fn starts_with(s: &str, prefix: &str) -> (b: bool)
    ensures
        b == prefix@.is_prefix_of(s@),
{
    let text = to_chars(s);
    let head = to_chars(prefix);
    starts_with_at(&text, 0, &head)
}

/// Whether `pattern` occurs in `text` at position `at`.
fn starts_with_at(text: &Vec<char>, at: usize, pattern: &Vec<char>) -> (b: bool)
    requires
        at <= text.len(),
    ensures
        b == pattern@.is_prefix_of(text@.skip(at as int)),
{
    if pattern.len() > text.len() - at {
        return false;
    }
    let m: usize = pattern.len();
    let mut k: usize = 0;
    while k < m
        invariant
            m == pattern.len(),
            at + m <= text.len(),
            k <= m,
            forall|i: int| 0 <= i < k ==> pattern@[i] == text@[at + i],
        decreases m - k,
    {
        if pattern[k] != text[at + k] {
            proof {
                let tail = text@.skip(at as int);
                assert(tail.subrange(0, m as int)[k as int] == text@[at + k]);
            }
            return false;
        }
        k += 1;
    }
    assert(pattern@ =~= text@.skip(at as int).subrange(0, m as int));
    true
}

/// `s` with every occurrence of `from` replaced by `to`, found from left to
/// right without overlap. An empty `from` occurs nowhere.
pub open spec fn replaced(s: Seq<char>, from: Seq<char>, to: Seq<char>) -> Seq<char>
    decreases s.len(),
{
    if from.len() == 0 || s.len() == 0 {
        s
    } else if from.is_prefix_of(s) {
        to + replaced(s.skip(from.len() as int), from, to)
    } else {
        seq![s[0]] + replaced(s.drop_first(), from, to)
    }
}

/// Replaces every occurrence of `from` in `s` by `to`.
pub fn replace(s: &str, from: &str, to: &str) -> (out: String)
    ensures
        out@ == replaced(s@, from@, to@),
{
    let text = to_chars(s);
    let pattern = to_chars(from);
    let with = to_chars(to);
    let n: usize = text.len();
    let m: usize = pattern.len();
    if m == 0 {
        return string_from_chars(&text);
    }
    let mut out: Vec<char> = Vec::new();
    let mut i: usize = 0;
    assert(s@.skip(0) =~= s@);
    assert(out@ + replaced(s@, from@, to@) =~= replaced(s@, from@, to@));
    while i < n
        invariant
            n == text.len(),
            m == pattern.len(),
            m > 0,
            text@ == s@,
            pattern@ == from@,
            with@ == to@,
            i <= n,
            replaced(s@, from@, to@) == out@ + replaced(s@.skip(i as int), from@, to@),
        decreases n - i,
    {
        let ghost rest = s@.skip(i as int);
        if starts_with_at(&text, i, &pattern) {
            let mut k: usize = 0;
            let ghost before = out@;
            while k < with.len()
                invariant
                    k <= with.len(),
                    out@ == before + with@.take(k as int),
                decreases with.len() - k,
            {
                out.push(with[k]);
                proof {
                    assert(with@.take(k + 1) =~= with@.take(k as int).push(with@[k as int]));
                }
                k += 1;
            }
            proof {
                assert(with@.take(with.len() as int) =~= with@);
                assert(rest.skip(m as int) =~= s@.skip(i + m));
                assert(out@ + replaced(s@.skip(i + m), from@, to@) =~= before + replaced(
                    rest,
                    from@,
                    to@,
                ));
            }
            i += m;
        } else {
            proof {
                assert(rest.drop_first() =~= s@.skip(i + 1));
                assert(out@.push(text@[i as int]) + replaced(s@.skip(i + 1), from@, to@) =~= out@
                    + replaced(rest, from@, to@));
            }
            out.push(text[i]);
            i += 1;
        }
    }
    assert(out@ + replaced(s@.skip(n as int), from@, to@) =~= out@);
    string_from_chars(&out)
}

/// Number of characters of `s` before its first `sep`.
pub open spec fn field_len(s: Seq<char>, sep: char) -> nat
    decreases s.len(),
{
    if s.len() == 0 || s[0] == sep {
        0
    } else {
        1 + field_len(s.drop_first(), sep)
    }
}

/// The pieces of `s` between occurrences of `sep`. There is always one piece
/// more than there are separators, so pieces may be empty.
pub open spec fn fields(s: Seq<char>, sep: char) -> Seq<Seq<char>>
    decreases s.len(),
{
    let n = field_len(s, sep) as int;
    if n >= s.len() {
        seq![s]
    } else {
        seq![s.take(n)] + fields(s.skip(n + 1), sep)
    }
}

/// A run of `k` characters other than `sep` that ends at the end of the text
/// or before a `sep` is the first field.
pub proof fn lemma_field_len_is(s: Seq<char>, sep: char, k: int)
    requires
        0 <= k <= s.len(),
        forall|i: int| 0 <= i < k ==> #[trigger] s[i] != sep,
        k == s.len() || s[k] == sep,
    ensures
        field_len(s, sep) == k,
    decreases k,
{
    if k > 0 {
        let rest = s.drop_first();
        assert forall|i: int| 0 <= i < k - 1 implies #[trigger] rest[i] != sep by {
            assert(rest[i] == s[i + 1]);
        }
        lemma_field_len_is(rest, sep, k - 1);
    }
}

/// Splits a text at every occurrence of `sep`.
pub fn split(s: &str, sep: char) -> (out: Vec<String>)
    ensures
        out.deep_view() == fields(s@, sep),
{
    let chars = to_chars(s);
    let n: usize = chars.len();
    let mut out: Vec<String> = Vec::new();
    let mut i: usize = 0;
    assert(s@.skip(0) =~= s@);
    assert(out.deep_view() + fields(s@, sep) =~= fields(s@, sep));
    loop
        invariant_except_break
            i <= n,
            fields(s@, sep) == out.deep_view() + fields(s@.skip(i as int), sep),
        invariant
            n == chars.len(),
            chars@ == s@,
        ensures
            out.deep_view() == fields(s@, sep),
        decreases n - i,
    {
        let mut piece: Vec<char> = Vec::new();
        let mut j: usize = i;
        while j < n && chars[j] != sep
            invariant
                n == chars.len(),
                chars@ == s@,
                i <= j <= n,
                piece@ == s@.subrange(i as int, j as int),
                forall|k: int| i <= k < j ==> #[trigger] s@[k] != sep,
            decreases n - j,
        {
            piece.push(chars[j]);
            j += 1;
        }
        let p = string_from_chars(&piece);
        let ghost rest = s@.skip(i as int);
        let ghost before = out.deep_view();
        proof {
            assert forall|k: int| 0 <= k < j - i implies #[trigger] rest[k] != sep by {
                assert(rest[k] == s@[i + k]);
            }
            lemma_field_len_is(rest, sep, j - i);
        }
        out.push(p);
        assert(out.deep_view() =~= before.push(piece@));
        if j == n {
            proof {
                assert(rest =~= piece@);
                assert(before + fields(rest, sep) =~= before.push(piece@));
            }
            break ;
        }
        proof {
            assert(rest.take(j - i) =~= piece@);
            assert(rest.skip(j - i + 1) =~= s@.skip(j + 1));
            assert(before.push(piece@) + fields(s@.skip(j + 1), sep) =~= before + fields(
                rest,
                sep,
            ));
        }
        i = j + 1;
    }
    out
}

/// `s` without its leading whitespace.
pub open spec fn trimmed_start(s: Seq<char>) -> Seq<char>
    decreases s.len(),
{
    if s.len() > 0 && is_space(s[0]) {
        trimmed_start(s.drop_first())
    } else {
        s
    }
}

/// `s` without its trailing whitespace.
pub open spec fn trimmed_end(s: Seq<char>) -> Seq<char>
    decreases s.len(),
{
    if s.len() > 0 && is_space(s.last()) {
        trimmed_end(s.drop_last())
    } else {
        s
    }
}

/// `s` without leading and trailing whitespace.
pub open spec fn trimmed(s: Seq<char>) -> Seq<char> {
    trimmed_end(trimmed_start(s))
}

/// Trimming takes characters away and adds none.
pub proof fn lemma_trimmed_is_part(s: Seq<char>, c: char)
    requires
        trimmed(s).contains(c),
    ensures
        s.contains(c),
{
    lemma_trimmed_start_is_part(s, c);
    lemma_trimmed_end_is_part(trimmed_start(s), c);
}

proof fn lemma_trimmed_start_is_part(s: Seq<char>, c: char)
    ensures
        trimmed_start(s).contains(c) ==> s.contains(c),
    decreases s.len(),
{
    if s.len() > 0 && is_space(s[0]) {
        lemma_trimmed_start_is_part(s.drop_first(), c);
        if s.drop_first().contains(c) {
            let i = choose|i: int| 0 <= i < s.drop_first().len() && s.drop_first()[i] == c;
            assert(s[i + 1] == c);
        }
    }
}

proof fn lemma_trimmed_end_is_part(s: Seq<char>, c: char)
    ensures
        trimmed_end(s).contains(c) ==> s.contains(c),
    decreases s.len(),
{
    if s.len() > 0 && is_space(s.last()) {
        lemma_trimmed_end_is_part(s.drop_last(), c);
        if s.drop_last().contains(c) {
            let i = choose|i: int| 0 <= i < s.drop_last().len() && s.drop_last()[i] == c;
            assert(s[i] == c);
        }
    }
}

/// The text of more parts is no shorter.
pub proof fn lemma_joined_len_grows(parts: Seq<Seq<char>>, sep: Seq<char>, i: int, j: int)
    requires
        0 <= i <= j <= parts.len(),
    ensures
        joined(parts.take(i), sep).len() <= joined(parts.take(j), sep).len(),
    decreases j - i,
{
    if i < j {
        lemma_joined_len_grows(parts, sep, i, j - 1);
        assert(parts.take(j).drop_last() =~= parts.take(j - 1));
    }
}

/// How often `c` occurs in `s`.
pub open spec fn occurrences(s: Seq<char>, c: char) -> nat
    decreases s.len(),
{
    if s.len() == 0 {
        0
    } else {
        occurrences(s.drop_first(), c) + if s[0] == c {
            1nat
        } else {
            0nat
        }
    }
}

/// A character occurs once in itself and not at all in another.
pub proof fn lemma_occurrences_one(x: char, c: char)
    ensures
        occurrences(seq![x], c) == if x == c {
            1nat
        } else {
            0nat
        },
{
    let s = seq![x];
    assert(s.drop_first() =~= Seq::<char>::empty());
    assert(occurrences(s.drop_first(), c) == 0);
    assert(s[0] == x);
}

/// A character occurs in a text as often as in its two halves together.
pub proof fn lemma_occurrences_add(a: Seq<char>, b: Seq<char>, c: char)
    ensures
        occurrences(a + b, c) == occurrences(a, c) + occurrences(b, c),
    decreases a.len(),
{
    if a.len() == 0 {
        assert(a + b =~= b);
    } else {
        assert((a + b).drop_first() =~= a.drop_first() + b);
        lemma_occurrences_add(a.drop_first(), b, c);
    }
}

/// A character that a text does not hold occurs in it zero times, and the
/// other way round.
pub proof fn lemma_occurrences_none(s: Seq<char>, c: char)
    ensures
        occurrences(s, c) == 0 <==> !s.contains(c),
    decreases s.len(),
{
    if s.len() > 0 {
        lemma_occurrences_none(s.drop_first(), c);
        if s.drop_first().contains(c) {
            let i = choose|i: int| 0 <= i < s.drop_first().len() && s.drop_first()[i] == c;
            assert(s[i + 1] == c);
        }
        if s.contains(c) {
            let i = choose|i: int| 0 <= i < s.len() && s[i] == c;
            if i > 0 {
                assert(s.drop_first()[i - 1] == c);
            } else {
                assert(s[0] == c);
            }
        }
    }
}

/// There is one field more than there are separators.
pub proof fn lemma_fields_len(s: Seq<char>, sep: char)
    ensures
        fields(s, sep).len() == occurrences(s, sep) + 1,
    decreases s.len(),
{
    let n = field_len(s, sep) as int;
    lemma_field_len_has_none(s, sep);
    if n >= s.len() {
        assert(s.take(n) =~= s);
    } else {
        let rest = s.skip(n + 1);
        lemma_fields_len(rest, sep);
        assert(s =~= s.take(n) + seq![sep] + rest);
        lemma_occurrences_add(s.take(n) + seq![sep], rest, sep);
        lemma_occurrences_add(s.take(n), seq![sep], sep);
        lemma_occurrences_one(sep, sep);
    }
}

/// The first field holds no separator and ends before one or at the end.
pub proof fn lemma_field_len_has_none(s: Seq<char>, sep: char)
    ensures
        field_len(s, sep) <= s.len(),
        occurrences(s.take(field_len(s, sep) as int), sep) == 0,
        field_len(s, sep) < s.len() ==> s[field_len(s, sep) as int] == sep,
    decreases s.len(),
{
    if s.len() == 0 || s[0] == sep {
        assert(s.take(0) =~= Seq::<char>::empty());
    } else {
        let rest = s.drop_first();
        lemma_field_len_has_none(rest, sep);
        let n = field_len(rest, sep) as int;
        assert(s.take(n + 1).drop_first() =~= rest.take(n));
    }
}

/// Replacing a text without `c` by another text without `c` changes
/// nothing in how often `c` occurs.
pub proof fn lemma_replaced_occurrences(s: Seq<char>, from: Seq<char>, to: Seq<char>, c: char)
    requires
        !from.contains(c),
        !to.contains(c),
    ensures
        occurrences(replaced(s, from, to), c) == occurrences(s, c),
    decreases s.len(),
{
    if from.len() == 0 || s.len() == 0 {
    } else if from.is_prefix_of(s) {
        let m = from.len() as int;
        let rest = s.skip(m);
        lemma_replaced_occurrences(rest, from, to, c);
        lemma_occurrences_add(to, replaced(rest, from, to), c);
        lemma_occurrences_none(to, c);
        assert(s =~= s.subrange(0, m) + rest);
        assert(s.subrange(0, m) == from);
        lemma_occurrences_add(from, rest, c);
        lemma_occurrences_none(from, c);
    } else {
        let rest = s.drop_first();
        lemma_replaced_occurrences(rest, from, to, c);
        lemma_occurrences_add(seq![s[0]], replaced(rest, from, to), c);
        lemma_occurrences_one(s[0], c);
    }
}

/// A text joined of parts and a separator that do not hold `c` does not
/// hold it.
pub proof fn lemma_joined_has_none(parts: Seq<Seq<char>>, sep: Seq<char>, c: char)
    requires
        !sep.contains(c),
        forall|i: int| 0 <= i < parts.len() ==> !(#[trigger] parts[i]).contains(c),
    ensures
        !joined(parts, sep).contains(c),
    decreases parts.len(),
{
    if parts.len() == 0 {
    } else if parts.len() == 1 {
    } else {
        let front = parts.drop_last();
        assert forall|i: int| 0 <= i < front.len() implies !(#[trigger] front[i]).contains(c) by {
            assert(front[i] == parts[i]);
        }
        lemma_joined_has_none(front, sep, c);
        let whole = joined(front, sep) + sep + parts.last();
        if whole.contains(c) {
            let i = choose|i: int| 0 <= i < whole.len() && whole[i] == c;
            let a = joined(front, sep).len() as int;
            let b = sep.len() as int;
            if i < a {
                assert(joined(front, sep)[i] == c);
            } else if i < a + b {
                assert(sep[i - a] == c);
            } else {
                assert(parts.last()[i - a - b] == c);
            }
        }
    }
}

/// The decimal notation of a number holds digits and the sign only.
pub proof fn lemma_decimal_chars(n: int, c: char)
    requires
        decimal(n).contains(c),
    ensures
        c == '-' || c == '0' || c == '1' || c == '2' || c == '3' || c == '4' || c == '5' || c
            == '6' || c == '7' || c == '8' || c == '9',
{
    if n < 0 {
        let rest = digits((-n) as nat);
        let whole = seq!['-'] + rest;
        let i = choose|i: int| 0 <= i < whole.len() && whole[i] == c;
        if i > 0 {
            assert(rest[i - 1] == c);
            lemma_digits_chars((-n) as nat, c);
        }
    } else {
        lemma_digits_chars(n as nat, c);
    }
}

proof fn lemma_digits_chars(n: nat, c: char)
    requires
        digits(n).contains(c),
    ensures
        c == '0' || c == '1' || c == '2' || c == '3' || c == '4' || c == '5' || c == '6' || c
            == '7' || c == '8' || c == '9',
    decreases n,
{
    let i = choose|i: int| 0 <= i < digits(n).len() && digits(n)[i] == c;
    if n >= 10 {
        let front = digits(n / 10);
        if i < front.len() {
            assert(front[i] == c);
            lemma_digits_chars(n / 10, c);
        }
    }
}

/// Removes leading and trailing whitespace.
pub fn trim(s: &str) -> (out: String)
    ensures
        out@ == trimmed(s@),
{
    let chars = to_chars(s);
    let n: usize = chars.len();
    let mut a: usize = 0;
    assert(s@.skip(0) =~= s@);
    while a < n && is_whitespace(chars[a])
        invariant
            n == chars.len(),
            chars@ == s@,
            a <= n,
            trimmed_start(s@) == trimmed_start(s@.skip(a as int)),
        decreases n - a,
    {
        proof {
            assert(s@.skip(a as int).drop_first() =~= s@.skip(a + 1));
        }
        a += 1;
    }
    assert(trimmed_start(s@) == s@.skip(a as int));
    let mut b: usize = n;
    assert(s@.skip(a as int) =~= s@.subrange(a as int, n as int));
    while b > a && is_whitespace(chars[b - 1])
        invariant
            n == chars.len(),
            chars@ == s@,
            a <= b <= n,
            trimmed(s@) == trimmed_end(s@.subrange(a as int, b as int)),
        decreases b,
    {
        proof {
            assert(s@.subrange(a as int, b as int).drop_last() =~= s@.subrange(
                a as int,
                b - 1,
            ));
        }
        b -= 1;
    }
    assert(trimmed(s@) == s@.subrange(a as int, b as int));
    let mut out: Vec<char> = Vec::new();
    let mut k: usize = a;
    while k < b
        invariant
            n == chars.len(),
            chars@ == s@,
            a <= k <= b <= n,
            out@ == s@.subrange(a as int, k as int),
        decreases b - k,
    {
        out.push(chars[k]);
        k += 1;
    }
    string_from_chars(&out)
}

/// The parts written one after another with `sep` between neighbours.
pub open spec fn joined(parts: Seq<Seq<char>>, sep: Seq<char>) -> Seq<char>
    decreases parts.len(),
{
    if parts.len() == 0 {
        Seq::empty()
    } else if parts.len() == 1 {
        parts[0]
    } else {
        joined(parts.drop_last(), sep) + sep + parts.last()
    }
}

/// Joins the parts with `sep` between neighbours.
pub fn join(parts: &Vec<String>, sep: &str) -> (out: String)
    ensures
        out@ == joined(parts.deep_view(), sep@),
{
    let mut out = String::new();
    let mut i: usize = 0;
    while i < parts.len()
        invariant
            i <= parts.len(),
            out@ == joined(parts.deep_view().take(i as int), sep@),
        decreases parts.len() - i,
    {
        proof {
            let next = parts.deep_view().take(i + 1);
            assert(next.drop_last() =~= parts.deep_view().take(i as int));
            assert(next.last() == parts@[i as int]@);
        }
        if i > 0 {
            out.append(sep);
        }
        out.append(parts[i].as_str());
        i += 1;
    }
    assert(parts.deep_view().take(parts.len() as int) =~= parts.deep_view());
    out
}

/// The character that writes the digit `d`.
pub open spec fn digit(d: int) -> char {
    if d == 0 {
        '0'
    } else if d == 1 {
        '1'
    } else if d == 2 {
        '2'
    } else if d == 3 {
        '3'
    } else if d == 4 {
        '4'
    } else if d == 5 {
        '5'
    } else if d == 6 {
        '6'
    } else if d == 7 {
        '7'
    } else if d == 8 {
        '8'
    } else {
        '9'
    }
}

/// The decimal digits of `n`, most significant first, without leading zeros.
pub open spec fn digits(n: nat) -> Seq<char>
    decreases n,
{
    if n < 10 {
        seq![digit(n as int)]
    } else {
        digits(n / 10).push(digit((n % 10) as int))
    }
}

/// The decimal notation of `n`, with a leading `-` for negative numbers.
pub open spec fn decimal(n: int) -> Seq<char> {
    if n < 0 {
        seq!['-'] + digits((-n) as nat)
    } else {
        digits(n as nat)
    }
}

fn digit_char(d: u64) -> (c: char)
    requires
        d < 10,
    ensures
        c == digit(d as int),
{
    if d == 0 {
        '0'
    } else if d == 1 {
        '1'
    } else if d == 2 {
        '2'
    } else if d == 3 {
        '3'
    } else if d == 4 {
        '4'
    } else if d == 5 {
        '5'
    } else if d == 6 {
        '6'
    } else if d == 7 {
        '7'
    } else if d == 8 {
        '8'
    } else {
        '9'
    }
}

/// Writes `n` in decimal notation.
pub fn to_decimal_unsigned(n: u64) -> (out: String)
    ensures
        out@ == digits(n as nat),
{
    let buf = digits_of(n);
    string_from_chars(&buf)
}

fn digits_of(n: u64) -> (buf: Vec<char>)
    ensures
        buf@ == digits(n as nat),
{
    let mut buf: Vec<char> = Vec::new();
    buf.push(digit_char(n % 10));
    let mut m: u64 = n / 10;
    while m > 0
        invariant
            digits(n as nat) == (if m > 0 {
                digits(m as nat)
            } else {
                Seq::<char>::empty()
            }) + buf@,
        decreases m,
    {
        let ghost tail = buf@;
        buf.insert(0, digit_char(m % 10));
        proof {
            let lead = if m / 10 > 0 {
                digits((m / 10) as nat)
            } else {
                Seq::<char>::empty()
            };
            assert(digits(m as nat) =~= lead.push(digit((m % 10) as int)));
            assert(lead + buf@ =~= lead.push(digit((m % 10) as int)) + tail);
        }
        m = m / 10;
    }
    buf
}

/// Writes `n` in decimal notation, with a leading `-` if it is negative.
pub fn to_decimal(n: i64) -> (out: String)
    ensures
        out@ == decimal(n as int),
{
    let magnitude: u64 = if n < 0 {
        ((-(n + 1)) as u64) + 1
    } else {
        n as u64
    };
    let mut buf = digits_of(magnitude);
    if n < 0 {
        buf.insert(0, '-');
        assert(buf@ =~= seq!['-'] + digits(magnitude as nat));
    }
    string_from_chars(&buf)
}

} // verus!
