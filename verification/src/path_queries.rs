//! The path patterns typed into the search panel's filters.

use vstd::prelude::*;
use vstd::string::{StrSliceExecFns, StringExecFns};

verus! {

/// `c` is white space in the sense of Unicode's `White_Space` property.
pub open spec fn is_white_space(c: char) -> bool {
    let n = c as u32;
    (0x9 <= n && n <= 0xd) || n == 0x20 || n == 0x85 || n == 0xa0 || n == 0x1680
        || (0x2000 <= n && n <= 0x200a) || n == 0x2028 || n == 0x2029 || n == 0x202f
        || n == 0x205f || n == 0x3000
}

/// `s` without its leading white space.
pub open spec fn trim_start(s: Seq<char>) -> Seq<char>
    decreases s.len(),
{
    if s.len() > 0 && is_white_space(s[0]) {
        trim_start(s.drop_first())
    } else {
        s
    }
}

/// `s` without its trailing white space.
pub open spec fn trim_end(s: Seq<char>) -> Seq<char>
    decreases s.len(),
{
    if s.len() > 0 && is_white_space(s.last()) {
        trim_end(s.drop_last())
    } else {
        s
    }
}

/// `s` without its leading and trailing white space.
pub open spec fn trimmed(s: Seq<char>) -> Seq<char> {
    trim_end(trim_start(s))
}

/// The patterns, each trimmed, without those that are empty once trimmed.
pub open spec fn queries_of(patterns: Seq<Seq<char>>) -> Seq<Seq<char>>
    decreases patterns.len(),
{
    if patterns.len() == 0 {
        Seq::empty()
    } else {
        let before = queries_of(patterns.drop_last());
        let query = trimmed(patterns.last());
        if query.len() == 0 {
            before
        } else {
            before.push(query)
        }
    }
}

/// Whether `c` is white space.
pub fn char_is_white_space(c: char) -> (r: bool)
    ensures
        r == is_white_space(c),
{
    let n = c as u32;
    (0x9 <= n && n <= 0xd) || n == 0x20 || n == 0x85 || n == 0xa0 || n == 0x1680
        || (0x2000 <= n && n <= 0x200a) || n == 0x2028 || n == 0x2029 || n == 0x202f
        || n == 0x205f || n == 0x3000
}

proof fn lemma_trim_start_skip(s: Seq<char>, i: int)
    requires
        0 <= i <= s.len(),
        forall|k: int| 0 <= k < i ==> is_white_space(#[trigger] s[k]),
    ensures
        trim_start(s) == trim_start(s.skip(i)),
    decreases i,
{
    if i > 0 {
        assert(s.drop_first().skip(i - 1) =~= s.skip(i));
        assert forall|k: int| 0 <= k < i - 1 implies is_white_space(#[trigger] s.drop_first()[k]) by {
            assert(s.drop_first()[k] == s[k + 1]);
        }
        lemma_trim_start_skip(s.drop_first(), i - 1);
    } else {
        assert(s.skip(0) =~= s);
    }
}

proof fn lemma_trim_end_take(s: Seq<char>, j: int)
    requires
        0 <= j <= s.len(),
        forall|k: int| j <= k < s.len() ==> is_white_space(#[trigger] s[k]),
    ensures
        trim_end(s) == trim_end(s.take(j)),
    decreases s.len() - j,
{
    if j < s.len() {
        assert(s.drop_last().take(j) =~= s.take(j));
        lemma_trim_end_take(s.drop_last(), j);
    } else {
        assert(s.take(j) =~= s);
    }
}

/// `text` without its leading and trailing white space.
pub fn trim(text: &str) -> (t: &str)
    ensures
        t@ == trimmed(text@),
{
    let n = text.unicode_len();
    let mut i: usize = 0;
    while i < n && char_is_white_space(text.get_char(i))
        invariant
            n == text@.len(),
            i <= n,
            forall|k: int| 0 <= k < i ==> is_white_space(#[trigger] text@[k]),
        decreases n - i,
    {
        i += 1;
    }
    let ghost rest = text@.skip(i as int);
    proof {
        lemma_trim_start_skip(text@, i as int);
        if i < n {
            assert(rest[0] == text@[i as int]);
        }
        assert(trim_start(rest) == rest);
    }
    let mut j: usize = n;
    while j > i && char_is_white_space(text.get_char(j - 1))
        invariant
            n == text@.len(),
            i <= j <= n,
            forall|k: int| j <= k < n ==> is_white_space(#[trigger] text@[k]),
        decreases j,
    {
        j -= 1;
    }
    proof {
        let k = (j - i) as int;
        assert forall|m: int| k <= m < rest.len() implies is_white_space(#[trigger] rest[m]) by {
            assert(rest[m] == text@[m + i]);
        }
        lemma_trim_end_take(rest, k);
        let kept = rest.take(k);
        assert(kept =~= text@.subrange(i as int, j as int));
        if k > 0 {
            assert(kept.last() == text@[j - 1]);
        }
        assert(trim_end(kept) == kept);
    }
    text.substring_char(i, j)
}

/// The queries of the path filter: each pattern trimmed, and the patterns
/// that are empty once trimmed left out.
pub fn path_queries(patterns: &Vec<&str>) -> (queries: Vec<String>)
    ensures
        queries@.map_values(|q: String| q@) == queries_of(patterns@.map_values(|p: &str| p@)),
{
    let ghost views = patterns@.map_values(|p: &str| p@);
    let mut queries: Vec<String> = Vec::new();
    let mut i: usize = 0;
    while i < patterns.len()
        invariant
            i <= patterns@.len(),
            views == patterns@.map_values(|p: &str| p@),
            queries@.map_values(|q: String| q@) == queries_of(views.take(i as int)),
        decreases patterns@.len() - i,
    {
        let query = trim(patterns[i]);
        proof {
            let t = views.take(i + 1);
            assert(t.drop_last() =~= views.take(i as int));
            assert(t.last() == patterns@[i as int]@);
        }
        if query.unicode_len() > 0 {
            let ghost before = queries@;
            queries.push(String::from_str(query));
            assert(queries@.map_values(|q: String| q@) =~= before.map_values(|q: String| q@).push(query@));
        }
        i += 1;
    }
    assert(views.take(patterns@.len() as int) =~= views);
    queries
}

} // verus!
