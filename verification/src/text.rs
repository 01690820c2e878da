//! Character-level specifications and verified string helpers.
//!
//! Every parsing routine of the library is specified over `Seq<char>` views.
//! This module defines those sequence-level functions (whitespace
//! tokenization, first occurrence of a character, final path component) and
//! the executable helpers proved against them.

use vstd::prelude::*;

verus! {

/// The whitespace characters that separate tokens on a configuration line.
pub open spec fn is_space_char(c: char) -> bool {
    c == ' ' || c == '\t' || c == '\n' || c == '\r' || c == '\u{b}' || c == '\u{c}'
}

/// Length of the maximal leading run of non-whitespace characters.
pub open spec fn token_len(s: Seq<char>) -> nat
    decreases s.len(),
{
    if s.len() == 0 || is_space_char(s[0]) {
        0
    } else {
        token_len(s.drop_first()) + 1
    }
}

pub proof fn lemma_token_len_bounds(s: Seq<char>)
    ensures
        token_len(s) <= s.len(),
        s.len() > 0 && !is_space_char(s[0]) ==> token_len(s) >= 1,
    decreases s.len(),
{
    if s.len() > 0 && !is_space_char(s[0]) {
        lemma_token_len_bounds(s.drop_first());
    }
}

/// The whitespace-delimited tokens of a line, in order.
pub open spec fn tokens_of(s: Seq<char>) -> Seq<Seq<char>>
    decreases s.len(),
    via tokens_of_decreases
{
    if s.len() == 0 {
        Seq::empty()
    } else if is_space_char(s[0]) {
        tokens_of(s.drop_first())
    } else {
        seq![s.take(token_len(s) as int)] + tokens_of(s.skip(token_len(s) as int))
    }
}

#[via_fn]
proof fn tokens_of_decreases(s: Seq<char>) {
    lemma_token_len_bounds(s);
}

/// If the first `j` characters are not whitespace and position `j` is the end
/// of the string or a whitespace character, the leading token has length `j`.
pub proof fn lemma_token_len_is(s: Seq<char>, j: int)
    requires
        0 <= j <= s.len(),
        forall|k: int| 0 <= k < j ==> !is_space_char(s[k]),
        j == s.len() || is_space_char(s[j]),
    ensures
        token_len(s) == j,
    decreases j,
{
    if j > 0 {
        assert(!is_space_char(s[0]));
        let t = s.drop_first();
        assert(forall|k: int| 0 <= k < j - 1 ==> t[k] == s[k + 1] && !is_space_char(t[k]));
        lemma_token_len_is(t, j - 1);
    }
}

/// Every token produced by `tokens_of` is non-empty.
pub proof fn lemma_tokens_nonempty(s: Seq<char>)
    ensures
        forall|i: int| 0 <= i < tokens_of(s).len() ==> (#[trigger] tokens_of(s)[i]).len() > 0,
    decreases s.len(),
{
    lemma_token_len_bounds(s);
    if s.len() == 0 {
        assert(tokens_of(s) == Seq::<Seq<char>>::empty());
    } else if is_space_char(s[0]) {
        lemma_tokens_nonempty(s.drop_first());
        assert(tokens_of(s) == tokens_of(s.drop_first()));
        assert forall|i: int| 0 <= i < tokens_of(s).len() implies (#[trigger] tokens_of(
            s,
        )[i]).len() > 0 by {
            assert(tokens_of(s)[i] == tokens_of(s.drop_first())[i]);
        }
    } else {
        let head = s.take(token_len(s) as int);
        let rest = tokens_of(s.skip(token_len(s) as int));
        lemma_tokens_nonempty(s.skip(token_len(s) as int));
        assert(tokens_of(s) == seq![head] + rest);
        assert forall|i: int| 0 <= i < tokens_of(s).len() implies (#[trigger] tokens_of(
            s,
        )[i]).len() > 0 by {
            if i == 0 {
                assert(tokens_of(s)[0] == head);
                assert(head.len() == token_len(s));
            } else {
                assert(tokens_of(s)[i] == rest[i - 1]);
            }
        }
    }
}

/// Executable test for the whitespace characters of `is_space_char`.
pub fn is_space(c: char) -> (r: bool)
    ensures
        r == is_space_char(c),
{
    c == ' ' || c == '\t' || c == '\n' || c == '\r' || c == '\u{b}' || c == '\u{c}'
}

/// Splits a line into its whitespace-delimited tokens, in order.
pub fn split_tokens(s: &str) -> (r: Vec<String>)
    ensures
        r.deep_view() == tokens_of(s@),
{
    let n = s.unicode_len();
    let mut r: Vec<String> = Vec::new();
    let mut i: usize = 0;
    proof {
        assert(s@.skip(0) =~= s@);
        assert(r.deep_view() =~= Seq::<Seq<char>>::empty());
        assert(Seq::<Seq<char>>::empty() + tokens_of(s@) =~= tokens_of(s@));
    }
    while i < n
        invariant
            i <= n,
            n == s@.len(),
            tokens_of(s@) == r.deep_view() + tokens_of(s@.skip(i as int)),
        decreases n - i,
    {
        let c = s.get_char(i);
        if is_space(c) {
            proof {
                assert(s@.skip(i as int).drop_first() =~= s@.skip(i as int + 1));
            }
            i = i + 1;
        } else {
            let start = i;
            let mut j = i + 1;
            while j < n
                invariant
                    start < j <= n,
                    n == s@.len(),
                    forall|k: int| start <= k < j ==> !is_space_char(s@[k]),
                ensures
                    start < j <= n,
                    forall|k: int| start <= k < j ==> !is_space_char(s@[k]),
                    j == n || is_space_char(s@[j as int]),
                decreases n - j,
            {
                if is_space(s.get_char(j)) {
                    break;
                }
                j = j + 1;
            }
            let tok: String = s.substring_char(start, j).to_owned();
            let ghost pre = r.deep_view();
            proof {
                let suffix = s@.skip(start as int);
                assert(forall|k: int|
                    0 <= k < j - start ==> suffix[k] == s@[k + start] && !is_space_char(suffix[k]));
                lemma_token_len_is(suffix, j - start);
                assert(suffix.take((j - start) as int) =~= s@.subrange(start as int, j as int));
                assert(suffix.skip((j - start) as int) =~= s@.skip(j as int));
                assert(tokens_of(suffix) == seq![tok@] + tokens_of(s@.skip(j as int)));
            }
            r.push(tok);
            proof {
                assert(r.deep_view() =~= pre + seq![tok@]);
                assert((pre + seq![tok@]) + tokens_of(s@.skip(j as int)) =~= pre + (seq![tok@]
                    + tokens_of(s@.skip(j as int))));
            }
            i = j;
        }
    }
    proof {
        assert(s@.skip(n as int) =~= Seq::<char>::empty());
        assert(r.deep_view() + tokens_of(s@.skip(n as int)) =~= r.deep_view());
    }
    r
}

/// Index of the first occurrence of `c` in `s`, if any.
pub open spec fn find_char(s: Seq<char>, c: char) -> Option<int>
    decreases s.len(),
{
    if s.len() == 0 {
        None
    } else if s[0] == c {
        Some(0)
    } else {
        match find_char(s.drop_first(), c) {
            Some(i) => Some(i + 1),
            None => None,
        }
    }
}

pub proof fn lemma_find_char_at(s: Seq<char>, c: char, j: int)
    requires
        0 <= j < s.len(),
        s[j] == c,
        forall|k: int| 0 <= k < j ==> s[k] != c,
    ensures
        find_char(s, c) == Some(j),
    decreases j,
{
    if j > 0 {
        let t = s.drop_first();
        assert(forall|k: int| 0 <= k < j - 1 ==> t[k] == s[k + 1] && t[k] != c);
        lemma_find_char_at(t, c, j - 1);
    }
}

pub proof fn lemma_find_char_none(s: Seq<char>, c: char)
    requires
        forall|k: int| 0 <= k < s.len() ==> s[k] != c,
    ensures
        find_char(s, c) is None,
    decreases s.len(),
{
    if s.len() > 0 {
        let t = s.drop_first();
        assert(forall|k: int| 0 <= k < t.len() ==> t[k] == s[k + 1] && t[k] != c);
        lemma_find_char_none(t, c);
    }
}

/// Finds the first occurrence of `c` in `s`, scanning left to right.
pub fn find_char_in_str(s: &str, c: char) -> (r: Option<usize>)
    ensures
        match r {
            Some(i) => i < s@.len() && s@[i as int] == c && find_char(s@, c) == Some(i as int),
            None => find_char(s@, c) is None,
        },
{
    let n = s.unicode_len();
    let mut i: usize = 0;
    while i < n
        invariant
            i <= n,
            n == s@.len(),
            forall|k: int| 0 <= k < i ==> s@[k] != c,
        decreases n - i,
    {
        if s.get_char(i) == c {
            proof {
                lemma_find_char_at(s@, c, i as int);
            }
            return Some(i);
        }
        i = i + 1;
    }
    proof {
        lemma_find_char_none(s@, c);
    }
    None
}

/// The final path component: the suffix after the last `/`, empty when the
/// path is empty or ends with a `/`.
pub open spec fn file_name_of(s: Seq<char>) -> Seq<char>
    decreases s.len(),
{
    if s.len() == 0 {
        Seq::empty()
    } else if s.last() == '/' {
        Seq::empty()
    } else {
        file_name_of(s.drop_last()).push(s.last())
    }
}

pub proof fn lemma_file_name_from(s: Seq<char>, j: int)
    requires
        0 <= j <= s.len(),
        forall|k: int| j <= k < s.len() ==> s[k] != '/',
        j > 0 ==> s[j - 1] == '/',
    ensures
        file_name_of(s) == s.skip(j),
    decreases s.len(),
{
    if j == s.len() {
        if s.len() > 0 {
            assert(s.last() == '/');
        }
        assert(s.skip(j) =~= Seq::<char>::empty());
    } else {
        assert(s.last() != '/');
        let t = s.drop_last();
        assert(forall|k: int| j <= k < t.len() ==> t[k] == s[k] && t[k] != '/');
        lemma_file_name_from(t, j);
        assert(t.skip(j).push(s.last()) =~= s.skip(j));
    }
}

/// The final path component of `s`, as `file_name_of` describes it.
pub fn file_name_in_str(s: &str) -> (r: String)
    ensures
        r@ == file_name_of(s@),
{
    let n = s.unicode_len();
    let mut j = n;
    while j > 0
        invariant
            j <= n,
            n == s@.len(),
            forall|k: int| j <= k < n ==> s@[k] != '/',
        ensures
            j <= n,
            forall|k: int| j <= k < n ==> s@[k] != '/',
            j > 0 ==> s@[j - 1] == '/',
        decreases j,
    {
        if s.get_char(j - 1) == '/' {
            break;
        }
        j = j - 1;
    }
    proof {
        lemma_file_name_from(s@, j as int);
    }
    s.substring_char(j, n).to_owned()
}

/// Content equality of two string slices.
pub fn str_eq(a: &str, b: &str) -> (r: bool)
    ensures
        r == (a@ == b@),
{
    let sa: String = a.to_owned();
    let sb: String = b.to_owned();
    sa == sb
}

} // verus!
