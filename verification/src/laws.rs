//! Agreement between the serializer and the grammar: a well-formed
//! record serializes to an accepted message, the boundary cases to a
//! rejected one — stated and proved over the spec-level record.

use vstd::prelude::*;
use crate::grammar::MAX_DESCRIPTION;
use crate::grammar::lemma_line_len_at;
use crate::grammar::lemma_line_len_bounds;
use crate::grammar::lemma_scope_run_at;
use crate::grammar::lemma_scope_run_bounds;
use crate::grammar::spec_after_type_at;
use crate::grammar::spec_accepts;
use crate::grammar::spec_after_scope_at;
use crate::grammar::spec_first_line;
use crate::grammar::spec_header_ok;
use crate::grammar::spec_is_prefix;
use crate::grammar::spec_is_scope_char;
use crate::grammar::spec_line_len_at;
use crate::grammar::spec_merge_exempt;
use crate::grammar::spec_scope_run_at;
use crate::grammar::spec_tag_of;
use crate::message::spec_breaking_part;
use crate::message::spec_body_part;
use crate::message::spec_header;
use crate::message::spec_issues_part;
use crate::message::spec_message;
use crate::message::spec_scope_part;
use crate::record::CommitRecordView;
use crate::record::CommitType;

verus! {

/// A scope the grammar can accept: at least one character, all of them
/// scope characters.
pub open spec fn spec_scope_ok(scope: Option<Seq<char>>) -> bool {
    match scope {
        Some(s) => s.len() >= 1 && (forall|k: int|
            0 <= k < s.len() ==> spec_is_scope_char(s[k])),
        None => true,
    }
}

/// `s` holds no newline.
pub open spec fn spec_has_no_newline(s: Seq<char>) -> bool {
    forall|k: int| 0 <= k < s.len() ==> s[k] != '\n'
}

proof fn lemma_not_prefix_at(p: Seq<char>, s: Seq<char>, k: int)
    requires
        0 <= k < p.len(),
        k < s.len(),
        p[k] != s[k],
    ensures
        !spec_is_prefix(p, s),
{
    if spec_is_prefix(p, s) {
        assert(s.take(p.len() as int)[k] == s[k]);
    }
}

proof fn lemma_tag_facts(t: CommitType)
    ensures
        2 <= t.spec_tag().len() <= 8,
        spec_has_no_newline(t.spec_tag()),
        t.spec_tag()[0] != 'M',
{
    reveal_strlit("feat");
    reveal_strlit("fix");
    reveal_strlit("docs");
    reveal_strlit("style");
    reveal_strlit("refactor");
    reveal_strlit("perf");
    reveal_strlit("test");
    reveal_strlit("build");
    reveal_strlit("ci");
    reveal_strlit("chore");
    reveal_strlit("revert");
}

/// A line that opens with the tag of `t` matches `t` and no other entry
/// of the chain: no accepted tag is a prefix of another.
proof fn lemma_tag_of_prefixed(t: CommitType, rest: Seq<char>)
    ensures
        spec_tag_of(t.spec_tag() + rest) == Some(t),
{
    reveal_strlit("feat");
    reveal_strlit("fix");
    reveal_strlit("docs");
    reveal_strlit("style");
    reveal_strlit("refactor");
    reveal_strlit("perf");
    reveal_strlit("test");
    reveal_strlit("build");
    reveal_strlit("ci");
    reveal_strlit("chore");
    reveal_strlit("revert");
    let line = t.spec_tag() + rest;
    assert(line.take(t.spec_tag().len() as int) =~= t.spec_tag());
    match t {
        CommitType::Feat => {
        },
        CommitType::Fix => {
            lemma_not_prefix_at("feat"@, line, 1);
        },
        CommitType::Docs => {
            lemma_not_prefix_at("feat"@, line, 0);
            lemma_not_prefix_at("fix"@, line, 0);
        },
        CommitType::Style => {
            lemma_not_prefix_at("feat"@, line, 0);
            lemma_not_prefix_at("fix"@, line, 0);
            lemma_not_prefix_at("docs"@, line, 0);
        },
        CommitType::Refactor => {
            lemma_not_prefix_at("feat"@, line, 0);
            lemma_not_prefix_at("fix"@, line, 0);
            lemma_not_prefix_at("docs"@, line, 0);
            lemma_not_prefix_at("style"@, line, 0);
        },
        CommitType::Perf => {
            lemma_not_prefix_at("feat"@, line, 0);
            lemma_not_prefix_at("fix"@, line, 0);
            lemma_not_prefix_at("docs"@, line, 0);
            lemma_not_prefix_at("style"@, line, 0);
            lemma_not_prefix_at("refactor"@, line, 0);
        },
        CommitType::Test => {
            lemma_not_prefix_at("feat"@, line, 0);
            lemma_not_prefix_at("fix"@, line, 0);
            lemma_not_prefix_at("docs"@, line, 0);
            lemma_not_prefix_at("style"@, line, 0);
            lemma_not_prefix_at("refactor"@, line, 0);
            lemma_not_prefix_at("perf"@, line, 0);
        },
        CommitType::Build => {
            lemma_not_prefix_at("feat"@, line, 0);
            lemma_not_prefix_at("fix"@, line, 0);
            lemma_not_prefix_at("docs"@, line, 0);
            lemma_not_prefix_at("style"@, line, 0);
            lemma_not_prefix_at("refactor"@, line, 0);
            lemma_not_prefix_at("perf"@, line, 0);
            lemma_not_prefix_at("test"@, line, 0);
        },
        CommitType::Ci => {
            lemma_not_prefix_at("feat"@, line, 0);
            lemma_not_prefix_at("fix"@, line, 0);
            lemma_not_prefix_at("docs"@, line, 0);
            lemma_not_prefix_at("style"@, line, 0);
            lemma_not_prefix_at("refactor"@, line, 0);
            lemma_not_prefix_at("perf"@, line, 0);
            lemma_not_prefix_at("test"@, line, 0);
            lemma_not_prefix_at("build"@, line, 0);
        },
        CommitType::Chore => {
            lemma_not_prefix_at("feat"@, line, 0);
            lemma_not_prefix_at("fix"@, line, 0);
            lemma_not_prefix_at("docs"@, line, 0);
            lemma_not_prefix_at("style"@, line, 0);
            lemma_not_prefix_at("refactor"@, line, 0);
            lemma_not_prefix_at("perf"@, line, 0);
            lemma_not_prefix_at("test"@, line, 0);
            lemma_not_prefix_at("build"@, line, 0);
            lemma_not_prefix_at("ci"@, line, 1);
        },
        CommitType::Revert => {
            lemma_not_prefix_at("feat"@, line, 0);
            lemma_not_prefix_at("fix"@, line, 0);
            lemma_not_prefix_at("docs"@, line, 0);
            lemma_not_prefix_at("style"@, line, 0);
            lemma_not_prefix_at("refactor"@, line, 2);
            lemma_not_prefix_at("perf"@, line, 0);
            lemma_not_prefix_at("test"@, line, 0);
            lemma_not_prefix_at("build"@, line, 0);
            lemma_not_prefix_at("ci"@, line, 0);
            lemma_not_prefix_at("chore"@, line, 0);
        },
    }
}

proof fn lemma_no_newline_concat(a: Seq<char>, b: Seq<char>)
    requires
        spec_has_no_newline(a),
        spec_has_no_newline(b),
    ensures
        spec_has_no_newline(a + b),
{
    assert forall|k: int| 0 <= k < (a + b).len() implies (a + b)[k] != '\n' by {
        if k < a.len() {
            assert((a + b)[k] == a[k]);
        } else {
            assert((a + b)[k] == b[k - a.len()]);
        }
    }
}

proof fn lemma_first_line_concat(a: Seq<char>, b: Seq<char>)
    requires
        spec_has_no_newline(a),
        b.len() > 0 ==> b[0] == '\n',
    ensures
        spec_first_line(a + b) == a,
{
    lemma_line_len_at(a + b, 0, a.len() as int);
    assert((a + b).take(a.len() as int) =~= a);
}

/// The header of a well-scoped record holds no newline when the
/// description holds none.
proof fn lemma_header_no_newline(r: CommitRecordView)
    requires
        spec_scope_ok(r.scope),
        spec_has_no_newline(r.description),
    ensures
        spec_has_no_newline(spec_header(r)),
{
    reveal_strlit("(");
    reveal_strlit(")");
    reveal_strlit("!");
    reveal_strlit(": ");
    lemma_tag_facts(r.commit_type);
    let bang: Seq<char> = if r.breaking {
        "!"@
    } else {
        Seq::<char>::empty()
    };
    assert(spec_has_no_newline(bang));
    assert(spec_has_no_newline(": "@));
    match r.scope {
        Some(s) => {
            assert(spec_has_no_newline(s));
            lemma_no_newline_concat("("@, s);
            lemma_no_newline_concat("("@ + s, ")"@);
            assert(spec_scope_part(r.scope) == "("@ + s + ")"@);
        },
        None => {
            assert(spec_has_no_newline(spec_scope_part(r.scope)));
        },
    }
    lemma_no_newline_concat(r.commit_type.spec_tag(), spec_scope_part(r.scope));
    lemma_no_newline_concat(r.commit_type.spec_tag() + spec_scope_part(r.scope), bang);
    lemma_no_newline_concat(
        r.commit_type.spec_tag() + spec_scope_part(r.scope) + bang,
        ": "@,
    );
    lemma_no_newline_concat(
        r.commit_type.spec_tag() + spec_scope_part(r.scope) + bang + ": "@,
        r.description,
    );
}

/// Everything the serializer emits after the header either is empty or
/// opens with a blank line.
proof fn lemma_tail_newline(r: CommitRecordView)
    ensures
        ({
            let tail = spec_body_part(r.body) + spec_breaking_part(r) + spec_issues_part(
                r.issues,
            );
            tail.len() > 0 ==> tail[0] == '\n'
        }),
{
    reveal_strlit("\n\n");
    let bp = spec_body_part(r.body);
    let brp = spec_breaking_part(r);
    let ip = spec_issues_part(r.issues);
    if bp.len() > 0 {
        assert((bp + brp + ip)[0] == bp[0]);
    } else if brp.len() > 0 {
        assert((bp + brp + ip)[0] == brp[0]);
    } else if ip.len() > 0 {
        assert((bp + brp + ip)[0] == ip[0]);
    }
}

/// The first line of a serialized record is exactly its header.
proof fn lemma_first_line_is_header(r: CommitRecordView)
    requires
        spec_scope_ok(r.scope),
        spec_has_no_newline(r.description),
    ensures
        spec_first_line(spec_message(r)) == spec_header(r),
{
    lemma_header_no_newline(r);
    lemma_tail_newline(r);
    let tail = spec_body_part(r.body) + spec_breaking_part(r) + spec_issues_part(r.issues);
    lemma_first_line_concat(spec_header(r), tail);
    assert(spec_message(r) =~= spec_header(r) + tail);
}

/// After the scope group (or straight after the tag): the optional `!`,
/// the separator, and the description's length decide acceptance.
proof fn lemma_after_scope_parse(h: Seq<char>, i: int, breaking: bool, desc: Seq<char>)
    requires
        0 <= i,
        h.len() == i + (if breaking {
            1int
        } else {
            0int
        }) + 2 + desc.len(),
        breaking ==> h[i] == '!',
        !breaking ==> h[i] == ':',
        h[i + (if breaking {
            1int
        } else {
            0int
        })] == ':',
        h[i + (if breaking {
            1int
        } else {
            0int
        }) + 1] == ' ',
    ensures
        spec_after_scope_at(h, i) == (1 <= desc.len() <= MAX_DESCRIPTION),
{
}

/// A header with an acceptable scope parses back to its own record: the
/// grammar accepts it exactly when the description is one to
/// `MAX_DESCRIPTION` characters long.
proof fn lemma_header_parse(r: CommitRecordView)
    requires
        spec_scope_ok(r.scope),
    ensures
        spec_header_ok(spec_header(r)) == (1 <= r.description.len() <= MAX_DESCRIPTION),
{
    reveal_strlit("(");
    reveal_strlit(")");
    reveal_strlit("!");
    reveal_strlit(": ");
    lemma_tag_facts(r.commit_type);
    let t = r.commit_type;
    let tag = t.spec_tag();
    let tl = tag.len() as int;
    let bang: Seq<char> = if r.breaking {
        "!"@
    } else {
        Seq::<char>::empty()
    };
    let bl: int = if r.breaking {
        1int
    } else {
        0int
    };
    let h = spec_header(r);
    let rest = spec_scope_part(r.scope) + bang + ": "@ + r.description;
    assert(h =~= tag + rest);
    lemma_tag_of_prefixed(t, rest);
    assert(spec_tag_of(h) == Some(t));
    match r.scope {
        Some(s) => {
            let sl = s.len() as int;
            assert(h =~= tag + "("@ + s + ")"@ + bang + ": "@ + r.description);
            assert(h.len() == tl + 2 + sl + bl + 2 + r.description.len());
            assert(h[tl] == '(');
            assert(forall|k: int| 0 <= k < sl ==> h[tl + 1 + k] == s[k]);
            assert(h[tl + 1 + sl] == ')');
            assert(!spec_is_scope_char(')'));
            lemma_scope_run_at(h, tl + 1, tl + 1 + sl);
            assert(spec_scope_run_at(h, tl + 1) == sl);
            let after = tl + 2 + sl;
            assert(h[after] == (if r.breaking {
                '!'
            } else {
                ':'
            }));
            assert(h[after + bl] == ':');
            assert(h[after + bl + 1] == ' ');
            lemma_after_scope_parse(h, after, r.breaking, r.description);
        },
        None => {
            assert(h =~= tag + bang + ": "@ + r.description);
            assert(h.len() == tl + bl + 2 + r.description.len());
            assert(h[tl] == (if r.breaking {
                '!'
            } else {
                ':'
            }));
            assert(h[tl] != '(');
            assert(h[tl + bl] == ':');
            assert(h[tl + bl + 1] == ' ');
            lemma_after_scope_parse(h, tl, r.breaking, r.description);
        },
    }
}

/// A first line that opens with an accepted tag cannot be merge-exempt.
proof fn lemma_tag_line_not_merge(t: CommitType, line: Seq<char>)
    requires
        line.len() >= 1,
        line[0] == t.spec_tag()[0],
    ensures
        !spec_merge_exempt(line),
{
    reveal_strlit("Merge");
    lemma_tag_facts(t);
    if spec_merge_exempt(line) {
        assert(line.take(5)[0] == line[0]);
    }
}

/// The merge exemption: any message whose first line starts with
/// `Merge` is accepted, whatever the rest of the line or message holds.
pub proof fn lemma_merge_exempt_accepted(message: Seq<char>)
    requires
        spec_is_prefix("Merge"@, spec_first_line(message)),
    ensures
        spec_accepts(message),
{
}

/// Serializer/validator agreement: a record whose scope, when present,
/// is a non-empty run of scope characters, and whose description is a
/// single line of one to `MAX_DESCRIPTION` characters, serializes to a
/// message the grammar accepts — whatever its body, breaking flag and
/// issues are.
pub proof fn lemma_round_trip_accepted(r: CommitRecordView)
    requires
        spec_scope_ok(r.scope),
        spec_has_no_newline(r.description),
        1 <= r.description.len() <= MAX_DESCRIPTION,
    ensures
        spec_accepts(spec_message(r)),
{
    lemma_first_line_is_header(r);
    lemma_header_parse(r);
}

/// Every commit type makes an accepted header on its own: a record with
/// a description of one to `MAX_DESCRIPTION` single-line characters and
/// nothing else serializes to an accepted message.
pub proof fn lemma_plain_record_accepted(t: CommitType, desc: Seq<char>)
    requires
        spec_has_no_newline(desc),
        1 <= desc.len() <= MAX_DESCRIPTION,
    ensures
        spec_accepts(
            spec_message(
                CommitRecordView {
                    commit_type: t,
                    scope: None,
                    description: desc,
                    body: None,
                    breaking: false,
                    issues: Seq::<Seq<char>>::empty(),
                },
            ),
        ),
{
    lemma_round_trip_accepted(
        CommitRecordView {
            commit_type: t,
            scope: None,
            description: desc,
            body: None,
            breaking: false,
            issues: Seq::<Seq<char>>::empty(),
        },
    );
}

/// Description length is a boundary: an empty or over-long description
/// makes the serialized message rejected, however the other fields are
/// set.
pub proof fn lemma_description_length_rejected(r: CommitRecordView)
    requires
        spec_scope_ok(r.scope),
        spec_has_no_newline(r.description),
        r.description.len() == 0 || r.description.len() > MAX_DESCRIPTION,
    ensures
        !spec_accepts(spec_message(r)),
{
    lemma_first_line_is_header(r);
    lemma_header_parse(r);
    lemma_tag_facts(r.commit_type);
    let line = spec_first_line(spec_message(r));
    assert(line[0] == r.commit_type.spec_tag()[0]);
    lemma_tag_line_not_merge(r.commit_type, line);
}

/// A scope with a character outside the accepted set makes the
/// serialized message rejected, whatever the other fields hold — as
/// long as the scope has no closing parenthesis, which would end the
/// scope group early instead.
pub proof fn lemma_foreign_scope_rejected(r: CommitRecordView)
    requires
        r.scope is Some,
        exists|k: int|
            0 <= k < r.scope->0.len() && !spec_is_scope_char(r.scope->0[k]),
        forall|k: int| 0 <= k < r.scope->0.len() ==> r.scope->0[k] != ')',
    ensures
        !spec_accepts(spec_message(r)),
{
    reveal_strlit("(");
    reveal_strlit(")");
    lemma_tag_facts(r.commit_type);
    let s = r.scope->0;
    let t = r.commit_type;
    let tag = t.spec_tag();
    let tl = tag.len() as int;
    let msg = spec_message(r);
    let after = ")"@ + (if r.breaking {
        "!"@
    } else {
        Seq::<char>::empty()
    }) + ": "@ + r.description + spec_body_part(r.body) + spec_breaking_part(r)
        + spec_issues_part(r.issues);
    assert(msg =~= tag + "("@ + s + after);
    assert(forall|k: int| 0 <= k < tl ==> msg[k] == tag[k]);
    assert(msg[tl] == '(');
    assert(forall|k: int| 0 <= k < s.len() ==> msg[tl + 1 + k] == s[k]);

    let rs = spec_scope_run_at(s, 0);
    lemma_scope_run_bounds(s, 0);
    assert(rs < s.len()) by {
        if rs == s.len() {
            let k = choose|k: int| 0 <= k < s.len() && !spec_is_scope_char(s[k]);
            assert(spec_is_scope_char(s[k]));
        }
    }
    let p = tl + 1 + rs;

    let ll = spec_line_len_at(msg, 0);
    lemma_line_len_bounds(msg, 0);
    let line = spec_first_line(msg);
    assert(line.len() == ll);
    assert(ll >= p) by {
        if ll < p {
            assert(msg[ll] == '\n');
            if ll < tl {
                assert(msg[ll] == tag[ll]);
            } else if ll > tl {
                assert(msg[ll] == s[ll - tl - 1]);
                assert(spec_is_scope_char(s[ll - tl - 1]));
            }
        }
    }

    assert(line.take(tl) =~= tag);
    assert(line =~= tag + line.skip(tl));
    lemma_tag_of_prefixed(t, line.skip(tl));
    assert(spec_tag_of(line) == Some(t));

    assert(line[tl] == '(');
    assert(forall|k: int| tl + 1 <= k < p ==> spec_is_scope_char(line[k]));
    if ll == p {
        lemma_scope_run_at(line, tl + 1, p);
        assert(!spec_after_type_at(line, tl));
    } else {
        assert(line[p] == s[rs]);
        assert(!spec_is_scope_char(line[p]));
        lemma_scope_run_at(line, tl + 1, p);
        assert(!spec_after_type_at(line, tl));
    }
    assert(!spec_header_ok(line));
    assert(line[0] == tag[0]);
    lemma_tag_line_not_merge(t, line);
}

} // verus!
