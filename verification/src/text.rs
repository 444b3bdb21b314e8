//! Plain text helpers shared by the composer and the serializer: trimming
//! whitespace and stripping the issue reference marker.

use vstd::prelude::*;

verus! {

/// The characters that count as whitespace when trimming: the Unicode
/// `White_Space` code points.
pub open spec fn spec_is_ws(c: char) -> bool {
    let u = c as u32;
    (0x09 <= u && u <= 0x0d) || u == 0x20 || u == 0x85 || u == 0xa0 || u == 0x1680 || (0x2000
        <= u && u <= 0x200a) || u == 0x2028 || u == 0x2029 || u == 0x202f || u == 0x205f || u
        == 0x3000
}

fn is_ws(c: char) -> (r: bool)
    ensures
        r == spec_is_ws(c),
{
    let u = c as u32;
    (0x09 <= u && u <= 0x0d) || u == 0x20 || u == 0x85 || u == 0xa0 || u == 0x1680 || (0x2000
        <= u && u <= 0x200a) || u == 0x2028 || u == 0x2029 || u == 0x202f || u == 0x205f || u
        == 0x3000
}

/// `s` without its leading whitespace.
pub open spec fn spec_trim_start(s: Seq<char>) -> Seq<char>
    decreases s.len(),
{
    if s.len() > 0 && spec_is_ws(s[0]) {
        spec_trim_start(s.skip(1))
    } else {
        s
    }
}

/// `s` without its trailing whitespace.
pub open spec fn spec_trim_end(s: Seq<char>) -> Seq<char>
    decreases s.len(),
{
    if s.len() > 0 && spec_is_ws(s[s.len() - 1]) {
        spec_trim_end(s.take(s.len() - 1))
    } else {
        s
    }
}

/// `s` without leading and trailing whitespace.
pub open spec fn spec_trim(s: Seq<char>) -> Seq<char> {
    spec_trim_end(spec_trim_start(s))
}

proof fn lemma_trim_start_at(s: Seq<char>, i: int)
    requires
        0 <= i <= s.len(),
        forall|k: int| 0 <= k < i ==> spec_is_ws(s[k]),
        i < s.len() ==> !spec_is_ws(s[i]),
    ensures
        spec_trim_start(s) == s.skip(i),
    decreases i,
{
    if i == 0 {
        assert(s.skip(0) =~= s);
    } else {
        lemma_trim_start_at(s.skip(1), i - 1);
        assert(s.skip(1).skip(i - 1) =~= s.skip(i));
    }
}

proof fn lemma_trim_end_at(s: Seq<char>, j: int)
    requires
        0 <= j <= s.len(),
        forall|k: int| j <= k < s.len() ==> spec_is_ws(s[k]),
        j > 0 ==> !spec_is_ws(s[j - 1]),
    ensures
        spec_trim_end(s) == s.take(j),
    decreases s.len() - j,
{
    if j == s.len() {
        assert(s.take(j) =~= s);
    } else {
        lemma_trim_end_at(s.take(s.len() - 1), j);
        assert(s.take(s.len() - 1).take(j) =~= s.take(j));
    }
}

/// Remove leading and trailing whitespace, as the composer does to the
/// scope and issue inputs and the serializer does to the body.
pub fn trim(s: &str) -> (r: String)
    ensures
        r@ == spec_trim(s@),
{
    let n = s.unicode_len();
    let mut start: usize = 0;
    while start < n
        invariant
            n == s@.len(),
            start <= n,
            forall|k: int| 0 <= k < start ==> spec_is_ws(s@[k]),
        ensures
            start <= n,
            forall|k: int| 0 <= k < start ==> spec_is_ws(s@[k]),
            start < n ==> !spec_is_ws(s@[start as int]),
        decreases n - start,
    {
        if !is_ws(s.get_char(start)) {
            break ;
        }
        start += 1;
    }
    let mut end: usize = n;
    while end > start
        invariant
            n == s@.len(),
            start <= end <= n,
            forall|k: int| end <= k < n ==> spec_is_ws(s@[k]),
        ensures
            start <= end <= n,
            forall|k: int| end <= k < n ==> spec_is_ws(s@[k]),
            end > start ==> !spec_is_ws(s@[end - 1]),
        decreases end,
    {
        if !is_ws(s.get_char(end - 1)) {
            break ;
        }
        end -= 1;
    }
    proof {
        lemma_trim_start_at(s@, start as int);
        if end == start {
            lemma_trim_end_at(s@.skip(start as int), 0);
        } else {
            lemma_trim_end_at(s@.skip(start as int), end - start);
        }
        assert(s@.skip(start as int).take(end - start) =~= s@.subrange(
            start as int,
            end as int,
        ));
    }
    let r = s.substring_char(start, end);
    r.to_owned()
}

/// `s` without its leading `#` reference markers.
pub open spec fn spec_strip_marker(s: Seq<char>) -> Seq<char>
    decreases s.len(),
{
    if s.len() > 0 && s[0] == '#' {
        spec_strip_marker(s.skip(1))
    } else {
        s
    }
}

proof fn lemma_strip_marker_at(s: Seq<char>, i: int)
    requires
        0 <= i <= s.len(),
        forall|k: int| 0 <= k < i ==> s[k] == '#',
        i < s.len() ==> s[i] != '#',
    ensures
        spec_strip_marker(s) == s.skip(i),
    decreases i,
{
    if i == 0 {
        assert(s.skip(0) =~= s);
    } else {
        lemma_strip_marker_at(s.skip(1), i - 1);
        assert(s.skip(1).skip(i - 1) =~= s.skip(i));
    }
}

/// Turn raw issue input into the stored identifier: trim it, then strip
/// leading `#` markers.
pub fn normalize_issue(raw: &str) -> (r: String)
    ensures
        r@ == spec_strip_marker(spec_trim(raw@)),
{
    let t = trim(raw);
    let ts = t.as_str();
    let n = ts.unicode_len();
    let mut i: usize = 0;
    while i < n
        invariant
            n == ts@.len(),
            i <= n,
            forall|k: int| 0 <= k < i ==> ts@[k] == '#',
        ensures
            i <= n,
            forall|k: int| 0 <= k < i ==> ts@[k] == '#',
            i < n ==> ts@[i as int] != '#',
        decreases n - i,
    {
        if ts.get_char(i) != '#' {
            break ;
        }
        i += 1;
    }
    proof {
        lemma_strip_marker_at(ts@, i as int);
        assert(ts@.skip(i as int) =~= ts@.subrange(i as int, n as int));
    }
    let r = ts.substring_char(i, n);
    r.to_owned()
}

} // verus!
