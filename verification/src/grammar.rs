//! The grammar validator: the acceptance rule a commit-msg gate applies
//! to a candidate message.  The first line must read as one accepted
//! type tag, an optional `(scope)` group of lowercase letters, digits
//! and hyphens, an optional `!`, the literal `": "`, and a description
//! of one to `MAX_DESCRIPTION` characters.  A first line that starts
//! with `Merge` is exempt and accepted as it stands.

use vstd::prelude::*;
use crate::record::CommitType;

verus! {

/// The longest accepted description, in characters.
pub const MAX_DESCRIPTION: usize = 100;

/// The characters a scope group may hold.
pub open spec fn spec_is_scope_char(c: char) -> bool {
    let u = c as u32;
    (0x61 <= u && u <= 0x7a) || (0x30 <= u && u <= 0x39) || u == 0x2d
}

fn is_scope_char(c: char) -> (r: bool)
    ensures
        r == spec_is_scope_char(c),
{
    let u = c as u32;
    (0x61 <= u && u <= 0x7a) || (0x30 <= u && u <= 0x39) || u == 0x2d
}

/// `p` is an initial segment of `s`.
pub open spec fn spec_is_prefix(p: Seq<char>, s: Seq<char>) -> bool {
    p.len() <= s.len() && s.take(p.len() as int) == p
}

/// The number of characters before the first newline, counting from `i`.
pub open spec fn spec_line_len_at(s: Seq<char>, i: int) -> int
    decreases s.len() - i,
{
    if i < s.len() && s[i] != '\n' {
        1 + spec_line_len_at(s, i + 1)
    } else {
        0
    }
}

/// The first line of a message: everything before the first newline.
pub open spec fn spec_first_line(s: Seq<char>) -> Seq<char> {
    s.take(spec_line_len_at(s, 0))
}

/// The number of consecutive scope characters from `i` on.
pub open spec fn spec_scope_run_at(s: Seq<char>, i: int) -> int
    decreases s.len() - i,
{
    if i < s.len() && spec_is_scope_char(s[i]) {
        1 + spec_scope_run_at(s, i + 1)
    } else {
        0
    }
}

/// The accepted type tag the line opens with, if any.  No tag is a
/// prefix of another, so at most one can match.
pub open spec fn spec_tag_of(line: Seq<char>) -> Option<CommitType> {
    if spec_is_prefix(CommitType::Feat.spec_tag(), line) {
        Some(CommitType::Feat)
    } else if spec_is_prefix(CommitType::Fix.spec_tag(), line) {
        Some(CommitType::Fix)
    } else if spec_is_prefix(CommitType::Docs.spec_tag(), line) {
        Some(CommitType::Docs)
    } else if spec_is_prefix(CommitType::Style.spec_tag(), line) {
        Some(CommitType::Style)
    } else if spec_is_prefix(CommitType::Refactor.spec_tag(), line) {
        Some(CommitType::Refactor)
    } else if spec_is_prefix(CommitType::Perf.spec_tag(), line) {
        Some(CommitType::Perf)
    } else if spec_is_prefix(CommitType::Test.spec_tag(), line) {
        Some(CommitType::Test)
    } else if spec_is_prefix(CommitType::Build.spec_tag(), line) {
        Some(CommitType::Build)
    } else if spec_is_prefix(CommitType::Ci.spec_tag(), line) {
        Some(CommitType::Ci)
    } else if spec_is_prefix(CommitType::Chore.spec_tag(), line) {
        Some(CommitType::Chore)
    } else if spec_is_prefix(CommitType::Revert.spec_tag(), line) {
        Some(CommitType::Revert)
    } else {
        None
    }
}

/// The separator and description: `": "` at `i`, then one to
/// `MAX_DESCRIPTION` characters to the end of the line.
pub open spec fn spec_sep_desc_at(line: Seq<char>, i: int) -> bool {
    &&& i + 2 <= line.len()
    &&& line[i] == ':'
    &&& line[i + 1] == ' '
    &&& 1 <= line.len() - (i + 2) <= MAX_DESCRIPTION
}

/// After the optional scope group: an optional `!`, then the separator
/// and description.
pub open spec fn spec_after_scope_at(line: Seq<char>, i: int) -> bool {
    if i < line.len() && line[i] == '!' {
        spec_sep_desc_at(line, i + 1)
    } else {
        spec_sep_desc_at(line, i)
    }
}

/// After the type tag: an optional `(scope)` group of one or more scope
/// characters, then the rest of the header.
pub open spec fn spec_after_type_at(line: Seq<char>, i: int) -> bool {
    if i < line.len() && line[i] == '(' {
        let n = spec_scope_run_at(line, i + 1);
        &&& n >= 1
        &&& i + 1 + n < line.len()
        &&& line[i + 1 + n] == ')'
        &&& spec_after_scope_at(line, i + 2 + n)
    } else {
        spec_after_scope_at(line, i)
    }
}

/// The line matches the header grammar.
pub open spec fn spec_header_ok(line: Seq<char>) -> bool {
    match spec_tag_of(line) {
        Some(t) => spec_after_type_at(line, t.spec_tag().len() as int),
        None => false,
    }
}

/// The merge exemption: a first line that starts with `Merge`.
pub open spec fn spec_merge_exempt(line: Seq<char>) -> bool {
    spec_is_prefix("Merge"@, line)
}

/// A candidate message is accepted when its first line is merge-exempt
/// or matches the header grammar.
pub open spec fn spec_accepts(message: Seq<char>) -> bool {
    spec_merge_exempt(spec_first_line(message)) || spec_header_ok(spec_first_line(message))
}

/// The reason handed back with every rejection, ready for display.
pub open spec fn spec_rejection_reason() -> Seq<char> {
    "Invalid commit message format!\n\nFormat: <type>[optional scope]: <description>\n\nTypes: feat, fix, docs, style, refactor, perf, test, build, ci, chore, revert\n\nExamples:\n  feat: add user authentication\n  fix(api): handle null pointer\n  feat!: breaking change\n"@
}

/// The accepted tags with a vertical bar between each pair.
pub open spec fn spec_join_tags(ts: Seq<CommitType>) -> Seq<char>
    decreases ts.len(),
{
    if ts.len() == 0 {
        Seq::<char>::empty()
    } else if ts.len() == 1 {
        ts[0].spec_tag()
    } else {
        spec_join_tags(ts.drop_last()) + "|"@ + ts.last().spec_tag()
    }
}

/// The extended regular expression a commit-msg gate script applies:
/// the same rule `validate` decides, rendered over the same type table.
pub open spec fn spec_gate_pattern() -> Seq<char> {
    "^("@ + spec_join_tags(CommitType::spec_all()) + ")(\\([a-z0-9-]+\\))?!?: .{1,100}$"@
}

/// The expression a commit-msg hook applies.  Its alternation holds
/// exactly the tags of `CommitType::spec_all`, so the hook and the
/// composer agree on the accepted types.
pub fn gate_pattern() -> (r: String)
    ensures
        r@ == spec_gate_pattern(),
{
    let types = CommitType::all();
    let mut pattern = String::new();
    pattern.append("^(");
    let mut i: usize = 0;
    while i < types.len()
        invariant
            types@ == CommitType::spec_all(),
            i <= types@.len(),
            pattern@ == "^("@ + spec_join_tags(CommitType::spec_all().take(i as int)),
        decreases types@.len() - i,
    {
        if i > 0 {
            pattern.append("|");
        }
        pattern.append(types[i].tag());
        proof {
            let all = CommitType::spec_all();
            assert(all.take(i + 1).drop_last() =~= all.take(i as int));
            assert(all.take(i + 1).last() == all[i as int]);
            assert(pattern@ =~= "^("@ + spec_join_tags(all.take(i + 1)));
        }
        i += 1;
    }
    proof {
        assert(CommitType::spec_all().take(CommitType::spec_all().len() as int)
            =~= CommitType::spec_all());
    }
    pattern.append(")(\\([a-z0-9-]+\\))?!?: .{1,100}$");
    proof {
        assert(pattern@ =~= spec_gate_pattern());
    }
    pattern
}

/// The validator's verdict on a candidate message.
pub enum Validation {
    Accepted,
    Rejected(String),
}

impl Validation {
    pub fn is_accepted(&self) -> (r: bool)
        ensures
            r == (self is Accepted),
    {
        match self {
            Validation::Accepted => true,
            Validation::Rejected(_) => false,
        }
    }
}

pub proof fn lemma_line_len_at(s: Seq<char>, i: int, m: int)
    requires
        0 <= i <= m <= s.len(),
        forall|k: int| i <= k < m ==> s[k] != '\n',
        m < s.len() ==> s[m] == '\n',
    ensures
        spec_line_len_at(s, i) == m - i,
    decreases m - i,
{
    if i < m {
        lemma_line_len_at(s, i + 1, m);
    }
}

/// Where the first line ends: within bounds, free of newlines, and at a
/// newline when it stops short of the whole text.
pub proof fn lemma_line_len_bounds(s: Seq<char>, i: int)
    requires
        0 <= i <= s.len(),
    ensures
        i <= i + spec_line_len_at(s, i) <= s.len(),
        forall|k: int| i <= k < i + spec_line_len_at(s, i) ==> s[k] != '\n',
        i + spec_line_len_at(s, i) < s.len() ==> s[i + spec_line_len_at(s, i)] == '\n',
    decreases s.len() - i,
{
    if i < s.len() && s[i] != '\n' {
        lemma_line_len_bounds(s, i + 1);
    }
}

pub proof fn lemma_scope_run_at(s: Seq<char>, i: int, m: int)
    requires
        0 <= i <= m <= s.len(),
        forall|k: int| i <= k < m ==> spec_is_scope_char(s[k]),
        m < s.len() ==> !spec_is_scope_char(s[m]),
    ensures
        spec_scope_run_at(s, i) == m - i,
    decreases m - i,
{
    if i < m {
        lemma_scope_run_at(s, i + 1, m);
    }
}

/// Where the scope run from `i` stops: within bounds, over scope
/// characters only, and at a non-scope character when it stops short.
pub proof fn lemma_scope_run_bounds(s: Seq<char>, i: int)
    requires
        0 <= i <= s.len(),
    ensures
        i <= i + spec_scope_run_at(s, i) <= s.len(),
        forall|k: int| i <= k < i + spec_scope_run_at(s, i) ==> spec_is_scope_char(s[k]),
        i + spec_scope_run_at(s, i) < s.len() ==> !spec_is_scope_char(
            s[i + spec_scope_run_at(s, i)],
        ),
    decreases s.len() - i,
{
    if i < s.len() && spec_is_scope_char(s[i]) {
        lemma_scope_run_bounds(s, i + 1);
    }
}

fn starts_with_text(s: &str, p: &str) -> (r: bool)
    ensures
        r == spec_is_prefix(p@, s@),
{
    let sn = s.unicode_len();
    let pn = p.unicode_len();
    if pn > sn {
        return false;
    }
    let mut i: usize = 0;
    while i < pn
        invariant
            pn <= sn,
            i <= pn,
            pn == p@.len(),
            sn == s@.len(),
            forall|k: int| 0 <= k < i ==> s@[k] == p@[k],
        decreases pn - i,
    {
        if s.get_char(i) != p.get_char(i) {
            proof {
                assert(s@.take(pn as int)[i as int] != p@[i as int]);
            }
            return false;
        }
        i += 1;
    }
    proof {
        assert(s@.take(pn as int) =~= p@);
    }
    true
}

/// The accepted tag the line opens with, mirroring `spec_tag_of`.
fn match_type(line: &str) -> (r: Option<CommitType>)
    ensures
        r == spec_tag_of(line@),
{
    if starts_with_text(line, "feat") {
        Some(CommitType::Feat)
    } else if starts_with_text(line, "fix") {
        Some(CommitType::Fix)
    } else if starts_with_text(line, "docs") {
        Some(CommitType::Docs)
    } else if starts_with_text(line, "style") {
        Some(CommitType::Style)
    } else if starts_with_text(line, "refactor") {
        Some(CommitType::Refactor)
    } else if starts_with_text(line, "perf") {
        Some(CommitType::Perf)
    } else if starts_with_text(line, "test") {
        Some(CommitType::Test)
    } else if starts_with_text(line, "build") {
        Some(CommitType::Build)
    } else if starts_with_text(line, "ci") {
        Some(CommitType::Ci)
    } else if starts_with_text(line, "chore") {
        Some(CommitType::Chore)
    } else if starts_with_text(line, "revert") {
        Some(CommitType::Revert)
    } else {
        None
    }
}

/// Check everything after the type tag, mirroring `spec_after_type_at`.
fn parse_after_type(line: &str, start: usize) -> (r: bool)
    requires
        start <= line@.len(),
    ensures
        r == spec_after_type_at(line@, start as int),
{
    let n = line.unicode_len();
    let mut i = start;
    if i < n && line.get_char(i) == '(' {
        let scope_start = i + 1;
        let mut j = scope_start;
        while j < n
            invariant
                scope_start <= j <= n,
                n == line@.len(),
                forall|k: int| scope_start <= k < j ==> spec_is_scope_char(line@[k]),
            ensures
                scope_start <= j <= n,
                n == line@.len(),
                forall|k: int| scope_start <= k < j ==> spec_is_scope_char(line@[k]),
                j < n ==> !spec_is_scope_char(line@[j as int]),
            decreases n - j,
        {
            if !is_scope_char(line.get_char(j)) {
                break ;
            }
            j += 1;
        }
        proof {
            lemma_scope_run_at(line@, scope_start as int, j as int);
        }
        if j == scope_start {
            return false;
        }
        if j < n && line.get_char(j) == ')' {
            i = j + 1;
        } else {
            return false;
        }
    }
    if i < n && line.get_char(i) == '!' {
        i += 1;
    }
    if i < n && line.get_char(i) == ':' {
        if i + 1 < n && line.get_char(i + 1) == ' ' {
            let desc_len = n - (i + 2);
            1 <= desc_len && desc_len <= MAX_DESCRIPTION
        } else {
            false
        }
    } else {
        false
    }
}

/// Decide a candidate message: accepted exactly when its first line is
/// merge-exempt or matches the header grammar, and rejected with the
/// fixed display reason otherwise.
pub fn validate(message: &str) -> (res: Validation)
    ensures
        (res is Accepted) == spec_accepts(message@),
        res matches Validation::Rejected(reason) ==> reason@ == spec_rejection_reason(),
{
    let n = message.unicode_len();
    let mut line_end: usize = 0;
    while line_end < n
        invariant
            line_end <= n,
            n == message@.len(),
            forall|k: int| 0 <= k < line_end ==> message@[k] != '\n',
        ensures
            line_end <= n,
            n == message@.len(),
            forall|k: int| 0 <= k < line_end ==> message@[k] != '\n',
            line_end < n ==> message@[line_end as int] == '\n',
        decreases n - line_end,
    {
        if message.get_char(line_end) == '\n' {
            break ;
        }
        line_end += 1;
    }
    proof {
        lemma_line_len_at(message@, 0, line_end as int);
    }
    let line = message.substring_char(0, line_end);
    proof {
        assert(line@ =~= spec_first_line(message@));
    }
    if starts_with_text(line, "Merge") {
        return Validation::Accepted;
    }
    let accepted = match match_type(line) {
        Some(t) => {
            let tag = t.tag();
            let tag_len = tag.unicode_len();
            proof {
                assert(spec_is_prefix(t.spec_tag(), line@));
            }
            parse_after_type(line, tag_len)
        },
        None => false,
    };
    if accepted {
        Validation::Accepted
    } else {
        Validation::Rejected(
            "Invalid commit message format!\n\nFormat: <type>[optional scope]: <description>\n\nTypes: feat, fix, docs, style, refactor, perf, test, build, ci, chore, revert\n\nExamples:\n  feat: add user authentication\n  fix(api): handle null pointer\n  feat!: breaking change\n".to_owned(),
        )
    }
}

} // verus!
