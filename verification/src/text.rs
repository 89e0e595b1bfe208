//! Text primitives shared by the request handler and the renderer.
//!
//! Strings are modelled by their sequence of characters (`s@`). Everything here
//! is stated over that model: prefix tests, whitespace tokens, joining pieces
//! with a separator and decimal numerals.

use vstd::prelude::*;
use vstd::string::*;

verus! {

/// The characters of a string slice, collected for constant-time indexing.
pub fn chars_of(s: &str) -> (chars: Vec<char>)
    ensures
        chars@ == s@,
{
    let mut chars: Vec<char> = Vec::new();
    for c in it: s.chars()
        invariant
            chars@ == it.seq().take(it.index() as int),
            it.seq() == s@,
    {
        chars.push(c);
    }
    chars
}

/// Whether two string slices hold the same characters.
pub fn same_text(a: &str, b: &str) -> (same: bool)
    ensures
        same == (a@ == b@),
{
    let left = chars_of(a);
    let right = chars_of(b);
    if left.len() != right.len() {
        return false;
    }
    let mut i: usize = 0;
    while i < left.len()
        invariant
            i <= left.len(),
            left.len() == right.len(),
            left@ == a@,
            right@ == b@,
            forall|k: int| 0 <= k < i ==> left@[k] == right@[k],
        decreases left.len() - i,
    {
        if left[i] != right[i] {
            return false;
        }
        i += 1;
    }
    assert(a@ =~= b@);
    true
}

/// Whether `text` begins with `prefix`.
pub fn has_prefix(text: &str, prefix: &str) -> (found: bool)
    ensures
        found == prefix@.is_prefix_of(text@),
{
    let whole = chars_of(text);
    let head = chars_of(prefix);
    if head.len() > whole.len() {
        return false;
    }
    let mut i: usize = 0;
    while i < head.len()
        invariant
            i <= head.len() <= whole.len(),
            whole@ == text@,
            head@ == prefix@,
            forall|k: int| 0 <= k < i ==> head@[k] == whole@[k],
        decreases head.len() - i,
    {
        if head[i] != whole[i] {
            return false;
        }
        i += 1;
    }
    true
}

/// The pieces written one after another, with `separator` between neighbours.
pub open spec fn join(pieces: Seq<Seq<char>>, separator: Seq<char>) -> Seq<char>
    decreases pieces.len(),
{
    if pieces.len() == 0 {
        Seq::empty()
    } else if pieces.len() == 1 {
        pieces[0]
    } else {
        join(pieces.drop_last(), separator) + separator + pieces.last()
    }
}

/// Joins `pieces` with `separator` between neighbours.
pub fn join_with(pieces: &Vec<String>, separator: &str) -> (joined: String)
    ensures
        joined@ == join(pieces.deep_view(), separator@),
{
    let ghost model = pieces.deep_view();
    let mut joined = String::new();
    if pieces.len() == 0 {
        return joined;
    }
    joined.append(pieces[0].as_str());
    let mut i: usize = 1;
    while i < pieces.len()
        invariant
            1 <= i <= pieces.len(),
            model == pieces.deep_view(),
            joined@ == join(model.take(i as int), separator@),
        decreases pieces.len() - i,
    {
        joined.append(separator);
        joined.append(pieces[i].as_str());
        proof {
            let next = model.take(i + 1);
            assert(next.drop_last() =~= model.take(i as int));
        }
        i += 1;
    }
    assert(model.take(pieces.len() as int) =~= model);
    joined
}

/// Whether `needle` stands in `haystack` at index `at`.
pub open spec fn occurs_at(haystack: Seq<char>, needle: Seq<char>, at: int) -> bool {
    &&& 0 <= at
    &&& at + needle.len() <= haystack.len()
    &&& haystack.subrange(at, at + needle.len()) == needle
}

/// The index of the first occurrence of `needle` in `haystack`, or -1 where
/// there is none.
pub open spec fn find(haystack: Seq<char>, needle: Seq<char>) -> int
    decreases haystack.len(),
{
    if needle.is_prefix_of(haystack) {
        0
    } else if haystack.len() == 0 {
        -1
    } else {
        let later: int = find(haystack.drop_first(), needle);
        if later < 0 {
            -1
        } else {
            later + 1
        }
    }
}

/// `find` gives the first index at which the needle occurs, and -1 exactly
/// where it occurs nowhere.
pub proof fn lemma_find_is_first(haystack: Seq<char>, needle: Seq<char>)
    ensures
        find(haystack, needle) >= -1,
        find(haystack, needle) >= 0 ==> occurs_at(haystack, needle, find(haystack, needle)),
        forall|at: int|
            occurs_at(haystack, needle, at) ==> 0 <= find(haystack, needle) <= at,
    decreases haystack.len(),
{
    if !needle.is_prefix_of(haystack) && haystack.len() > 0 {
        let tail = haystack.drop_first();
        lemma_find_is_first(tail, needle);
        let later: int = find(tail, needle);
        if later >= 0 {
            assert(haystack.subrange(later + 1, later + 1 + needle.len()) =~= tail.subrange(
                later,
                later + needle.len(),
            ));
        }
        assert forall|at: int| occurs_at(haystack, needle, at) implies 0 <= find(
            haystack,
            needle,
        ) <= at by {
            if at > 0 {
                assert(tail.subrange(at - 1, at - 1 + needle.len()) =~= haystack.subrange(
                    at,
                    at + needle.len(),
                ));
                assert(occurs_at(tail, needle, at - 1));
            }
        }
    }
}

/// The parts of `haystack` between the occurrences of `needle`, taken from the
/// left: each occurrence is the first one that starts at or after the end of
/// the one before. An empty needle splits nothing.
pub open spec fn split_on(haystack: Seq<char>, needle: Seq<char>) -> Seq<Seq<char>>
    decreases haystack.len(),
    via split_on_decreases
{
    let at: int = find(haystack, needle);
    if needle.len() == 0 || at < 0 {
        seq![haystack]
    } else {
        seq![haystack.take(at)] + split_on(haystack.skip(at + needle.len()), needle)
    }
}

#[via_fn]
proof fn split_on_decreases(haystack: Seq<char>, needle: Seq<char>) {
    lemma_find_is_first(haystack, needle);
}

/// A split has one piece more than the needle has occurrences that count: at
/// least one, and exactly one where the needle does not occur.
pub proof fn lemma_split_on_len(haystack: Seq<char>, needle: Seq<char>)
    ensures
        split_on(haystack, needle).len() >= 1,
        split_on(haystack, needle).len() == 1 <==> (needle.len() == 0 || find(haystack, needle)
            < 0),
        split_on(haystack, needle).len() == 1 ==> split_on(haystack, needle)[0] == haystack,
    decreases haystack.len(),
{
    let at: int = find(haystack, needle);
    if needle.len() > 0 && at >= 0 {
        lemma_find_is_first(haystack, needle);
        lemma_split_on_len(haystack.skip(at + needle.len()), needle);
    }
}

/// `text` with every occurrence of `needle`, taken from the left, replaced by
/// `replacement`.
pub open spec fn substitute(text: Seq<char>, needle: Seq<char>, replacement: Seq<char>) -> Seq<
    char,
> {
    join(split_on(text, needle), replacement)
}

/// Substituting in a text that does not hold the needle changes nothing.
pub proof fn lemma_substitute_absent(text: Seq<char>, needle: Seq<char>, replacement: Seq<char>)
    requires
        find(text, needle) < 0,
    ensures
        substitute(text, needle, replacement) == text,
{
    lemma_split_on_len(text, needle);
}

/// The decimal digit that stands for `d`, for `d` below ten.
pub open spec fn digit(d: nat) -> char {
    seq!['0', '1', '2', '3', '4', '5', '6', '7', '8', '9'][d as int]
}

/// The decimal numeral of `n`, without sign or leading zeros.
pub open spec fn decimal(n: nat) -> Seq<char>
    decreases n,
{
    if n < 10 {
        seq![digit(n)]
    } else {
        decimal(n / 10).push(digit(n % 10))
    }
}

fn digit_text(d: usize) -> (text: &'static str)
    requires
        d < 10,
    ensures
        text@ == seq![digit(d as nat)],
{
    proof {
        reveal_strlit("0");
        reveal_strlit("1");
        reveal_strlit("2");
        reveal_strlit("3");
        reveal_strlit("4");
        reveal_strlit("5");
        reveal_strlit("6");
        reveal_strlit("7");
        reveal_strlit("8");
        reveal_strlit("9");
    }
    let text = if d == 0 {
        "0"
    } else if d == 1 {
        "1"
    } else if d == 2 {
        "2"
    } else if d == 3 {
        "3"
    } else if d == 4 {
        "4"
    } else if d == 5 {
        "5"
    } else if d == 6 {
        "6"
    } else if d == 7 {
        "7"
    } else if d == 8 {
        "8"
    } else {
        "9"
    };
    text
}

/// Writes `n` as a decimal numeral.
pub fn decimal_string(n: usize) -> (numeral: String)
    ensures
        numeral@ == decimal(n as nat),
{
    let mut numeral = String::from_str(digit_text(n % 10));
    let mut rest: usize = n / 10;
    while rest > 0
        invariant
            decimal(n as nat) == if rest == 0 {
                numeral@
            } else {
                decimal(rest as nat) + numeral@
            },
        decreases rest,
    {
        numeral = String::from_str(digit_text(rest % 10)).concat(numeral.as_str());
        rest = rest / 10;
    }
    numeral
}

/// Whether `c` is a letter or digit of ASCII, or an underscore.
pub open spec fn is_identifier_char(c: char) -> bool {
    let code: u32 = c as u32;
    ||| 0x61 <= code <= 0x7A
    ||| 0x41 <= code <= 0x5A
    ||| 0x30 <= code <= 0x39
    ||| code == 0x5F
}

/// Whether `c` has the Unicode property `White_Space`.
pub open spec fn is_whitespace(c: char) -> bool {
    let code: u32 = c as u32;
    ||| 0x09 <= code <= 0x0D
    ||| code == 0x20
    ||| code == 0x85
    ||| code == 0xA0
    ||| code == 0x1680
    ||| 0x2000 <= code <= 0x200A
    ||| code == 0x2028
    ||| code == 0x2029
    ||| code == 0x202F
    ||| code == 0x205F
    ||| code == 0x3000
}

/// Tests `c` for the Unicode property `White_Space`.
pub fn whitespace(c: char) -> (white: bool)
    ensures
        white == is_whitespace(c),
{
    let code: u32 = c as u32;
    (0x09 <= code && code <= 0x0D) || code == 0x20 || code == 0x85 || code == 0xA0 || code
        == 0x1680 || (0x2000 <= code && code <= 0x200A) || code == 0x2028 || code == 0x2029
        || code == 0x202F || code == 0x205F || code == 0x3000
}

/// The length of the longest prefix of `s` that holds no whitespace.
pub open spec fn word_len(s: Seq<char>) -> nat
    decreases s.len(),
{
    if s.len() == 0 || is_whitespace(s[0]) {
        0
    } else {
        1 + word_len(s.drop_first())
    }
}

/// The maximal runs of non-whitespace characters of `s`, from left to right.
pub open spec fn tokens(s: Seq<char>) -> Seq<Seq<char>>
    decreases s.len(),
    via tokens_decreases
{
    if s.len() == 0 {
        Seq::empty()
    } else if is_whitespace(s[0]) {
        tokens(s.drop_first())
    } else {
        seq![s.take(word_len(s) as int)] + tokens(s.skip(word_len(s) as int))
    }
}

#[via_fn]
proof fn tokens_decreases(s: Seq<char>) {
    if s.len() > 0 && !is_whitespace(s[0]) {
        lemma_word_len_bounds(s);
    }
}

/// A word is no longer than the text it starts, and not empty where the text
/// starts with a character that is no whitespace.
pub proof fn lemma_word_len_bounds(s: Seq<char>)
    ensures
        word_len(s) <= s.len(),
        s.len() > 0 && !is_whitespace(s[0]) ==> word_len(s) >= 1,
    decreases s.len(),
{
    if s.len() > 0 && !is_whitespace(s[0]) {
        lemma_word_len_bounds(s.drop_first());
    }
}

/// Splits `line` into its whitespace-separated tokens.
pub fn split_whitespace(line: &str) -> (words: Vec<String>)
    ensures
        words.deep_view() == tokens(line@),
{
    let chars = chars_of(line);
    let n: usize = chars.len();
    let mut words: Vec<String> = Vec::new();
    let mut i: usize = 0;
    assert(line@.skip(0) =~= line@);
    while i < n
        invariant
            i <= n,
            n == chars.len(),
            chars@ == line@,
            tokens(line@) == words.deep_view() + tokens(line@.skip(i as int)),
        decreases n - i,
    {
        let ghost rest = line@.skip(i as int);
        if whitespace(chars[i]) {
            assert(rest.drop_first() =~= line@.skip(i + 1));
            i += 1;
        } else {
            let mut j: usize = i + 1;
            assert(rest.drop_first() =~= line@.skip(i + 1));
            while j < n && !whitespace(chars[j])
                invariant
                    i < j <= n,
                    n == chars.len(),
                    chars@ == line@,
                    word_len(line@.skip(i as int)) == (j - i) + word_len(line@.skip(j as int)),
                decreases n - j,
            {
                assert(line@.skip(j as int).drop_first() =~= line@.skip(j + 1));
                j += 1;
            }
            let word = String::from_str(line.substring_char(i, j));
            proof {
                assert(rest.take(j - i) =~= line@.subrange(i as int, j as int));
                assert(rest.skip(j - i) =~= line@.skip(j as int));
            }
            words.push(word);
            i = j;
        }
    }
    words
}

} // verus!
