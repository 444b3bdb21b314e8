//! The commit record: the fixed table of commit types and the structured
//! record that the composer fills step by step.

use vstd::prelude::*;
use crate::text::spec_strip_marker;
use crate::text::spec_trim;
use crate::text::normalize_issue;
use crate::text::trim;

verus! {

/// The closed set of commit types.  The composer offers exactly this list
/// and the grammar accepts exactly these tags, so the two can never
/// drift apart.
#[derive(Clone, Copy, PartialEq, Eq, Structural, Debug)]
pub enum CommitType {
    Feat,
    Fix,
    Docs,
    Style,
    Refactor,
    Perf,
    Test,
    Build,
    Ci,
    Chore,
    Revert,
}

impl CommitType {
    /// The tag that opens a message header of this type.
    pub open spec fn spec_tag(self) -> Seq<char> {
        match self {
            CommitType::Feat => "feat"@,
            CommitType::Fix => "fix"@,
            CommitType::Docs => "docs"@,
            CommitType::Style => "style"@,
            CommitType::Refactor => "refactor"@,
            CommitType::Perf => "perf"@,
            CommitType::Test => "test"@,
            CommitType::Build => "build"@,
            CommitType::Ci => "ci"@,
            CommitType::Chore => "chore"@,
            CommitType::Revert => "revert"@,
        }
    }

    pub fn tag(self) -> (r: &'static str)
        ensures
            r@ == self.spec_tag(),
    {
        match self {
            CommitType::Feat => "feat",
            CommitType::Fix => "fix",
            CommitType::Docs => "docs",
            CommitType::Style => "style",
            CommitType::Refactor => "refactor",
            CommitType::Perf => "perf",
            CommitType::Test => "test",
            CommitType::Build => "build",
            CommitType::Ci => "ci",
            CommitType::Chore => "chore",
            CommitType::Revert => "revert",
        }
    }

    /// The label shown beside each tag when the composer offers the list.
    pub open spec fn spec_label(self) -> Seq<char> {
        match self {
            CommitType::Feat => "New features"@,
            CommitType::Fix => "Bug fix"@,
            CommitType::Docs => "Documentation"@,
            CommitType::Style => "Code style (formatting)"@,
            CommitType::Refactor => "Code refactoring"@,
            CommitType::Perf => "Performance improvement"@,
            CommitType::Test => "Add or adjust tests"@,
            CommitType::Build => "Build system or dependencies"@,
            CommitType::Ci => "CI/CD changes"@,
            CommitType::Chore => "Maintenance tasks"@,
            CommitType::Revert => "Revert a commit"@,
        }
    }

    pub fn label(self) -> (r: &'static str)
        ensures
            r@ == self.spec_label(),
    {
        match self {
            CommitType::Feat => "New features",
            CommitType::Fix => "Bug fix",
            CommitType::Docs => "Documentation",
            CommitType::Style => "Code style (formatting)",
            CommitType::Refactor => "Code refactoring",
            CommitType::Perf => "Performance improvement",
            CommitType::Test => "Add or adjust tests",
            CommitType::Build => "Build system or dependencies",
            CommitType::Ci => "CI/CD changes",
            CommitType::Chore => "Maintenance tasks",
            CommitType::Revert => "Revert a commit",
        }
    }

    /// The table of types, in the order the composer offers them.
    pub open spec fn spec_all() -> Seq<CommitType> {
        seq![
            CommitType::Feat,
            CommitType::Fix,
            CommitType::Docs,
            CommitType::Style,
            CommitType::Refactor,
            CommitType::Perf,
            CommitType::Test,
            CommitType::Build,
            CommitType::Ci,
            CommitType::Chore,
            CommitType::Revert,
        ]
    }

    pub fn all() -> (r: Vec<CommitType>)
        ensures
            r@ == Self::spec_all(),
    {
        let mut v: Vec<CommitType> = Vec::new();
        v.push(CommitType::Feat);
        v.push(CommitType::Fix);
        v.push(CommitType::Docs);
        v.push(CommitType::Style);
        v.push(CommitType::Refactor);
        v.push(CommitType::Perf);
        v.push(CommitType::Test);
        v.push(CommitType::Build);
        v.push(CommitType::Ci);
        v.push(CommitType::Chore);
        v.push(CommitType::Revert);
        proof {
            assert(v@ =~= Self::spec_all());
        }
        v
    }

    /// The type at a selection index, as the single-choice prompt reports
    /// one.
    pub fn from_index(index: usize) -> (r: CommitType)
        requires
            index < CommitType::spec_all().len(),
        ensures
            r == CommitType::spec_all()[index as int],
    {
        if index == 0 {
            CommitType::Feat
        } else if index == 1 {
            CommitType::Fix
        } else if index == 2 {
            CommitType::Docs
        } else if index == 3 {
            CommitType::Style
        } else if index == 4 {
            CommitType::Refactor
        } else if index == 5 {
            CommitType::Perf
        } else if index == 6 {
            CommitType::Test
        } else if index == 7 {
            CommitType::Build
        } else if index == 8 {
            CommitType::Ci
        } else if index == 9 {
            CommitType::Chore
        } else {
            CommitType::Revert
        }
    }
}

/// The mathematical shape of a commit record.
#[verifier::ext_equal]
pub struct CommitRecordView {
    pub commit_type: CommitType,
    pub scope: Option<Seq<char>>,
    pub description: Seq<char>,
    pub body: Option<Seq<char>>,
    pub breaking: bool,
    pub issues: Seq<Seq<char>>,
}

/// The structured record the composer accumulates, serialized once into
/// the canonical message.
pub struct CommitInfo {
    pub commit_type: CommitType,
    pub scope: Option<String>,
    pub description: String,
    pub body: Option<String>,
    pub breaking: bool,
    pub issues: Vec<String>,
}

impl View for CommitInfo {
    type V = CommitRecordView;

    open spec fn view(&self) -> CommitRecordView {
        CommitRecordView {
            commit_type: self.commit_type,
            scope: match self.scope {
                Some(s) => Some(s@),
                None => None,
            },
            description: self.description@,
            body: match self.body {
                Some(b) => Some(b@),
                None => None,
            },
            breaking: self.breaking,
            issues: self.issues@.map_values(|s: String| s@),
        }
    }
}

impl CommitInfo {
    /// The record before any step has run: the default type selection and
    /// every other field still unanswered.
    pub fn new() -> (r: CommitInfo)
        ensures
            r@.commit_type == CommitType::Feat,
            r@.scope is None,
            r@.description == Seq::<char>::empty(),
            r@.body is None,
            r@.breaking == false,
            r@.issues == Seq::<Seq<char>>::empty(),
    {
        let r = CommitInfo {
            commit_type: CommitType::Feat,
            scope: None,
            description: String::new(),
            body: None,
            breaking: false,
            issues: Vec::new(),
        };
        proof {
            assert(r@.issues =~= Seq::<Seq<char>>::empty());
        }
        r
    }

    /// Record the selected commit type.
    pub fn choose_type(&mut self, index: usize)
        requires
            index < CommitType::spec_all().len(),
        ensures
            final(self)@ == (CommitRecordView {
                commit_type: CommitType::spec_all()[index as int],
                ..old(self)@
            }),
    {
        self.commit_type = CommitType::from_index(index);
    }

    /// Record the scope input: whitespace-only input means no scope,
    /// anything else is stored trimmed.
    pub fn set_scope(&mut self, raw: &str)
        ensures
            spec_trim(raw@).len() == 0 ==> final(self)@ == (CommitRecordView {
                scope: None,
                ..old(self)@
            }),
            spec_trim(raw@).len() > 0 ==> final(self)@ == (CommitRecordView {
                scope: Some(spec_trim(raw@)),
                ..old(self)@
            }),
    {
        let t = trim(raw);
        if t.as_str().unicode_len() == 0 {
            self.scope = None;
        } else {
            self.scope = Some(t);
        }
    }

    /// Record the short description exactly as entered.
    pub fn set_description(&mut self, text: String)
        ensures
            final(self)@ == (CommitRecordView { description: text@, ..old(self)@ }),
    {
        self.description = text;
    }

    /// Record the outcome of the long-description step: `None` when the
    /// step was declined or the editor aborted, otherwise the edited text
    /// as it came back (it is trimmed at serialization, not here).
    pub fn set_body(&mut self, edited: Option<String>)
        ensures
            final(self)@ == (CommitRecordView {
                body: match edited {
                    Some(b) => Some(b@),
                    None => None,
                },
                ..old(self)@
            }),
    {
        self.body = edited;
    }

    /// Record the breaking-change answer.
    pub fn set_breaking(&mut self, flag: bool)
        ensures
            final(self)@ == (CommitRecordView { breaking: flag, ..old(self)@ }),
    {
        self.breaking = flag;
    }

    /// Record one issue input.  Whitespace-only input stores nothing and
    /// reports `false`, which ends the issue loop; otherwise the trimmed
    /// identifier, leading `#` markers stripped, is appended in order.
    pub fn add_issue(&mut self, raw: &str) -> (stored: bool)
        ensures
            spec_trim(raw@).len() == 0 ==> !stored && final(self)@ == old(self)@,
            spec_trim(raw@).len() > 0 ==> stored && final(self)@ == (CommitRecordView {
                issues: old(self)@.issues.push(spec_strip_marker(spec_trim(raw@))),
                ..old(self)@
            }),
    {
        let t = trim(raw);
        if t.as_str().unicode_len() == 0 {
            return false;
        }
        let issue = normalize_issue(raw);
        self.issues.push(issue);
        proof {
            assert(self@.issues =~= old(self)@.issues.push(
                spec_strip_marker(spec_trim(raw@)),
            ));
        }
        true
    }
}

} // verus!
