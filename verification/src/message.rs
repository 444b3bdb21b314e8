//! The message serializer: a commit record rendered as the canonical
//! multi-line message string.

use vstd::prelude::*;
use crate::record::CommitInfo;
use crate::record::CommitRecordView;
use crate::text::spec_trim;
use crate::text::trim;

verus! {

/// The scope group of the header: `(scope)` when a scope is present.
pub open spec fn spec_scope_part(scope: Option<Seq<char>>) -> Seq<char> {
    match scope {
        Some(s) => "("@ + s + ")"@,
        None => Seq::<char>::empty(),
    }
}

/// The header line: tag, optional scope group, `!` when breaking, the
/// `": "` separator, then the description verbatim.
pub open spec fn spec_header(r: CommitRecordView) -> Seq<char> {
    r.commit_type.spec_tag() + spec_scope_part(r.scope) + (if r.breaking {
        "!"@
    } else {
        Seq::<char>::empty()
    }) + ": "@ + r.description
}

/// The body section: a blank line and the trimmed body, when the body is
/// present and not whitespace only.
pub open spec fn spec_body_part(body: Option<Seq<char>>) -> Seq<char> {
    match body {
        Some(b) => if spec_trim(b).len() > 0 {
            "\n\n"@ + spec_trim(b)
        } else {
            Seq::<char>::empty()
        },
        None => Seq::<char>::empty(),
    }
}

/// The breaking-change notice: a blank line and the description restated.
/// Restating the short description is deliberate; a distinct explanation
/// has no place in the record.
pub open spec fn spec_breaking_part(r: CommitRecordView) -> Seq<char> {
    if r.breaking {
        "\n\n"@ + "BREAKING CHANGE: "@ + r.description
    } else {
        Seq::<char>::empty()
    }
}

/// One `Closes #<issue>` line per issue, each newline-terminated, in
/// record order.
pub open spec fn spec_issue_lines(issues: Seq<Seq<char>>) -> Seq<char>
    decreases issues.len(),
{
    if issues.len() == 0 {
        Seq::<char>::empty()
    } else {
        spec_issue_lines(issues.drop_last()) + "Closes #"@ + issues.last() + "\n"@
    }
}

/// The issue section: a blank line and the issue lines, when any issues
/// were recorded.
pub open spec fn spec_issues_part(issues: Seq<Seq<char>>) -> Seq<char> {
    if issues.len() > 0 {
        "\n\n"@ + spec_issue_lines(issues)
    } else {
        Seq::<char>::empty()
    }
}

/// The canonical message of a record: header, then the optional body,
/// breaking-change and issue sections.
pub open spec fn spec_message(r: CommitRecordView) -> Seq<char> {
    spec_header(r) + spec_body_part(r.body) + spec_breaking_part(r) + spec_issues_part(r.issues)
}

impl CommitInfo {
    /// Serialize the record into the canonical message.  Total and
    /// deterministic: a malformed record still serializes, and the
    /// grammar check later rejects the result.
    pub fn to_message(&self) -> (message: String)
        ensures
            message@ == spec_message(self@),
    {
        let mut message = String::new();

        message.append(self.commit_type.tag());
        if let Some(scope) = &self.scope {
            message.append("(");
            message.append(scope.as_str());
            message.append(")");
        }
        if self.breaking {
            message.append("!");
        }
        message.append(": ");
        message.append(self.description.as_str());
        proof {
            assert(message@ =~= spec_header(self@));
        }

        if let Some(body) = &self.body {
            let trimmed = trim(body.as_str());
            if trimmed.as_str().unicode_len() > 0 {
                message.append("\n\n");
                message.append(trimmed.as_str());
            }
        }
        proof {
            assert(message@ =~= spec_header(self@) + spec_body_part(self@.body));
        }

        if self.breaking {
            message.append("\n\n");
            message.append("BREAKING CHANGE: ");
            message.append(self.description.as_str());
        }
        proof {
            assert(message@ =~= spec_header(self@) + spec_body_part(self@.body)
                + spec_breaking_part(self@));
        }

        if self.issues.len() > 0 {
            message.append("\n\n");
            let mut i: usize = 0;
            while i < self.issues.len()
                invariant
                    i <= self.issues.len(),
                    self@.issues.len() == self.issues.len(),
                    message@ == spec_header(self@) + spec_body_part(self@.body)
                        + spec_breaking_part(self@) + "\n\n"@ + spec_issue_lines(
                        self@.issues.take(i as int),
                    ),
                decreases self.issues.len() - i,
            {
                message.append("Closes #");
                message.append(self.issues[i].as_str());
                message.append("\n");
                proof {
                    let issues = self@.issues;
                    assert(issues.take(i + 1).drop_last() =~= issues.take(i as int));
                    assert(issues.take(i + 1).last() == issues[i as int]);
                    assert(message@ =~= spec_header(self@) + spec_body_part(self@.body)
                        + spec_breaking_part(self@) + "\n\n"@ + spec_issue_lines(
                        issues.take(i + 1),
                    ));
                }
                i += 1;
            }
            proof {
                assert(self@.issues.take(self.issues@.len() as int) =~= self@.issues);
            }
        }
        proof {
            assert(message@ =~= spec_message(self@));
        }
        message
    }
}

} // verus!
