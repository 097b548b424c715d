//! Lint message and result types, together with their mathematical views.
//!
//! Every rule emits `Emit` records; the engine tags each record with the
//! emitting rule's name into a `(LintSource, LintMessage)` pair and gathers
//! the pairs, along with skip bookkeeping, into `LintResults`.  The `*View`
//! datatypes are the spec-level models the engine contracts speak of.

use vstd::prelude::*;
use vstd::string::StringExecFns;

verus! {

/// Severity of a lint message.
#[derive(Clone, Copy, Debug, PartialEq, Eq, Structural)]
pub enum LintLevel {
    Warning,
    Error,
}

/// The granularity descriptor attached to a message: which target it is about.
#[derive(Debug, PartialEq, Eq)]
pub enum LintKind {
    Project,
    Package { name: String, workspace_path: String },
    File(String),
    Content(String),
}

impl Clone for LintKind {
    fn clone(&self) -> (r: Self)
        ensures
            r == *self,
    {
        match self {
            LintKind::Project => LintKind::Project,
            LintKind::Package { name, workspace_path } => LintKind::Package {
                name: name.clone(),
                workspace_path: workspace_path.clone(),
            },
            LintKind::File(p) => LintKind::File(p.clone()),
            LintKind::Content(p) => LintKind::Content(p.clone()),
        }
    }
}

/// Why a rule did not run against a target.
#[derive(Clone, Debug, PartialEq, Eq)]
pub enum SkipReason {
    UnsupportedExtension(Option<String>),
    NonUtf8Content,
    UnsupportedFile(String),
}

/// Outcome of consulting a rule for one target.
#[derive(Clone, Debug, PartialEq, Eq)]
pub enum RunStatus {
    Executed,
    Skipped(SkipReason),
}

/// One record emitted by a rule: target descriptor, severity and text.
#[derive(Clone, Debug, PartialEq, Eq)]
pub struct Emit {
    pub kind: LintKind,
    pub level: LintLevel,
    pub message: String,
}

/// A single reported message.
#[derive(Clone, Debug, PartialEq, Eq)]
pub struct LintMessage {
    pub level: LintLevel,
    pub message: String,
}

/// The rule and target a message was reported for.
#[derive(Clone, Debug, PartialEq, Eq)]
pub struct LintSource {
    pub name: String,
    pub kind: LintKind,
}

/// A recorded skip: which rule skipped which path, and why.
#[derive(Clone, Debug, PartialEq, Eq)]
pub struct SkipEntry {
    pub rule: String,
    pub path: String,
    pub reason: SkipReason,
}

/// Everything one engine run produced.
#[derive(Clone, Debug, PartialEq, Eq)]
pub struct LintResults {
    pub messages: Vec<(LintSource, LintMessage)>,
    pub skipped: Vec<SkipEntry>,
}

/// Spec-level model of a `LintKind`.
#[verifier::ext_equal]
pub enum KindView {
    Project,
    Package { name: Seq<char>, workspace_path: Seq<char> },
    File(Seq<char>),
    Content(Seq<char>),
}

/// Spec-level model of a `SkipReason`.
#[verifier::ext_equal]
pub enum SkipReasonView {
    UnsupportedExtension(Option<Seq<char>>),
    NonUtf8Content,
    UnsupportedFile(Seq<char>),
}

/// Spec-level model of a `RunStatus`.
#[verifier::ext_equal]
pub enum RunStatusView {
    Executed,
    Skipped(SkipReasonView),
}

/// Spec-level model of an `Emit`.
#[verifier::ext_equal]
pub struct EmitView {
    pub kind: KindView,
    pub level: LintLevel,
    pub message: Seq<char>,
}

/// Spec-level model of a tagged message: rule name plus emit contents.
#[verifier::ext_equal]
pub struct SourcedMessageView {
    pub name: Seq<char>,
    pub kind: KindView,
    pub level: LintLevel,
    pub message: Seq<char>,
}

/// Spec-level model of a `SkipEntry`.
#[verifier::ext_equal]
pub struct SkipView {
    pub rule: Seq<char>,
    pub path: Seq<char>,
    pub reason: SkipReasonView,
}

/// Spec-level model of `LintResults`.
#[verifier::ext_equal]
pub struct ResultsView {
    pub messages: Seq<SourcedMessageView>,
    pub skipped: Seq<SkipView>,
}

impl View for LintKind {
    type V = KindView;

    open spec fn view(&self) -> KindView {
        match self {
            LintKind::Project => KindView::Project,
            LintKind::Package { name, workspace_path } => KindView::Package {
                name: name@,
                workspace_path: workspace_path@,
            },
            LintKind::File(p) => KindView::File(p@),
            LintKind::Content(p) => KindView::Content(p@),
        }
    }
}

impl View for SkipReason {
    type V = SkipReasonView;

    open spec fn view(&self) -> SkipReasonView {
        match self {
            SkipReason::UnsupportedExtension(e) => SkipReasonView::UnsupportedExtension(
                match e {
                    Some(s) => Some(s@),
                    None => None,
                },
            ),
            SkipReason::NonUtf8Content => SkipReasonView::NonUtf8Content,
            SkipReason::UnsupportedFile(p) => SkipReasonView::UnsupportedFile(p@),
        }
    }
}

impl View for RunStatus {
    type V = RunStatusView;

    open spec fn view(&self) -> RunStatusView {
        match self {
            RunStatus::Executed => RunStatusView::Executed,
            RunStatus::Skipped(r) => RunStatusView::Skipped(r@),
        }
    }
}

impl View for Emit {
    type V = EmitView;

    open spec fn view(&self) -> EmitView {
        EmitView { kind: self.kind@, level: self.level, message: self.message@ }
    }
}

impl View for SkipEntry {
    type V = SkipView;

    open spec fn view(&self) -> SkipView {
        SkipView { rule: self.rule@, path: self.path@, reason: self.reason@ }
    }
}

impl View for LintResults {
    type V = ResultsView;

    open spec fn view(&self) -> ResultsView {
        ResultsView { messages: msgs_view(self.messages@), skipped: skips_view(self.skipped@) }
    }
}

/// View of a sequence of emits.
pub open spec fn emits_view(s: Seq<Emit>) -> Seq<EmitView> {
    s.map_values(|e: Emit| e@)
}

/// View of a sequence of tagged messages.
pub open spec fn msgs_view(s: Seq<(LintSource, LintMessage)>) -> Seq<SourcedMessageView> {
    s.map_values(
        |m: (LintSource, LintMessage)| SourcedMessageView {
            name: m.0.name@,
            kind: m.0.kind@,
            level: m.1.level,
            message: m.1.message@,
        },
    )
}

/// View of a sequence of skip entries.
pub open spec fn skips_view(s: Seq<SkipEntry>) -> Seq<SkipView> {
    s.map_values(|e: SkipEntry| e@)
}

/// The emits of one rule invocation tagged with the rule's name.
pub open spec fn tag_emits(name: Seq<char>, emits: Seq<EmitView>) -> Seq<SourcedMessageView> {
    emits.map_values(
        |e: EmitView| SourcedMessageView {
            name: name,
            kind: e.kind,
            level: e.level,
            message: e.message,
        },
    )
}

/// The view of a push is the push of the views.
pub proof fn lemma_emits_view_push(s: Seq<Emit>, e: Emit)
    ensures
        emits_view(s.push(e)) == emits_view(s).push(e@),
{
    assert forall|j: int| 0 <= j < s.len() + 1 implies emits_view(s.push(e))[j] == emits_view(
        s,
    ).push(e@)[j] by {
        if j < s.len() {
            assert(s.push(e)[j] == s[j]);
        } else {
            assert(s.push(e)[j] == e);
        }
    }
    assert(emits_view(s.push(e)) =~= emits_view(s).push(e@));
}

/// The view of a skip-entry push is the push of the views.
pub proof fn lemma_skips_view_push(s: Seq<SkipEntry>, e: SkipEntry)
    ensures
        skips_view(s.push(e)) == skips_view(s).push(e@),
{
    assert forall|j: int| 0 <= j < s.len() + 1 implies skips_view(s.push(e))[j] == skips_view(
        s,
    ).push(e@)[j] by {
        if j < s.len() {
            assert(s.push(e)[j] == s[j]);
        } else {
            assert(s.push(e)[j] == e);
        }
    }
    assert(skips_view(s.push(e)) =~= skips_view(s).push(e@));
}

/// Whether some emit in `emits` is error-level.
pub open spec fn has_error(emits: Seq<EmitView>) -> bool {
    exists|i: int| 0 <= i < emits.len() && emits[i].level is Error
}

impl LintMessage {
    /// The severity of this message.
    pub fn level(&self) -> (r: LintLevel)
        ensures
            r == self.level,
    {
        self.level
    }

    /// The text of this message.
    pub fn message(&self) -> (r: &String)
        ensures
            r@ == self.message@,
    {
        &self.message
    }
}

impl LintSource {
    /// The name of the rule that produced the message.
    pub fn name(&self) -> (r: &String)
        ensures
            r@ == self.name@,
    {
        &self.name
    }

    /// The target descriptor the message is about.
    pub fn kind(&self) -> (r: &LintKind)
        ensures
            r@ == self.kind@,
    {
        &self.kind
    }
}

/// Checks whether any emitted record is error-level.
pub fn emits_have_error(emits: &Vec<Emit>) -> (r: bool)
    ensures
        r == has_error(emits_view(emits@)),
{
    let n = emits.len();
    let mut i: usize = 0;
    while i < n
        invariant
            n == emits@.len(),
            i <= n,
            forall|j: int| 0 <= j < i ==> !(emits_view(emits@)[j].level is Error),
        decreases n - i,
    {
        if matches!(emits[i].level, LintLevel::Error) {
            proof {
                assert(emits_view(emits@)[i as int].level is Error);
            }
            return true;
        }
        i += 1;
    }
    proof {
        if has_error(emits_view(emits@)) {
            let j = choose|j: int|
                0 <= j < emits_view(emits@).len() && emits_view(emits@)[j].level is Error;
            assert(!(emits_view(emits@)[j].level is Error));
        }
    }
    false
}

/// Appends every emit, tagged with the rule name, to the accumulated messages.
pub fn push_tagged(
    acc: &mut Vec<(LintSource, LintMessage)>,
    name: &str,
    emits: Vec<Emit>,
) -> (has_err: bool)
    ensures
        msgs_view(final(acc)@) == msgs_view(old(acc)@) + tag_emits(name@, emits_view(emits@)),
        has_err == has_error(emits_view(emits@)),
{
    let has_err = emits_have_error(&emits);
    let n = emits.len();
    let ghost emv = emits_view(emits@);
    let mut i: usize = 0;
    proof {
        assert(msgs_view(acc@) + tag_emits(name@, emv.subrange(0, 0)) =~= msgs_view(acc@));
    }
    let ghost acc0 = acc@;
    while i < n
        invariant
            n == emits@.len(),
            i <= n,
            emv == emits_view(emits@),
            msgs_view(acc@) == msgs_view(acc0) + tag_emits(name@, emv.subrange(0, i as int)),
        decreases n - i,
    {
        let e = &emits[i];
        let src = LintSource { name: name.to_owned(), kind: e.kind.clone() };
        let msg = LintMessage { level: e.level, message: e.message.clone() };
        let ghost accprev = acc@;
        let ghost k = i as int;
        acc.push((src, msg));
        i += 1;
        proof {
            assert(emv[k] == emits@[k]@);
            assert(msgs_view(acc@) =~= msgs_view(accprev).push(
                SourcedMessageView {
                    name: name@,
                    kind: emv[k].kind,
                    level: emv[k].level,
                    message: emv[k].message,
                },
            ));
            assert(tag_emits(name@, emv.subrange(0, k + 1)) =~= tag_emits(
                name@,
                emv.subrange(0, k),
            ).push(
                SourcedMessageView {
                    name: name@,
                    kind: emv[k].kind,
                    level: emv[k].level,
                    message: emv[k].message,
                },
            ));
            assert(msgs_view(acc@) =~= msgs_view(acc0) + tag_emits(name@, emv.subrange(0, i as int)));
        }
    }
    proof {
        assert(emv.subrange(0, n as int) =~= emv);
    }
    has_err
}

} // verus!
