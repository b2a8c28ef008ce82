//! Schema compatibility checking for protocol evolution.
//!
//! Rules: adding optional fields or new message types is compatible;
//! removing a required field, changing a field's type, making an optional
//! field required, changing a type id, or removing a message type is
//! breaking.
//!
//! A schema lists its messages; as with a map keyed by name, when two entries
//! share a name the later one counts.  The same holds for the fields of a
//! message.
use vstd::prelude::*;
use crate::text::push_str;

verus! {

/// A message schema definition.
#[derive(Debug, Clone, PartialEq)]
pub struct MessageSchema {
    pub type_id: u16,
    pub name: String,
    pub fields: Vec<FieldSchema>,
}

/// A field of a message.
#[derive(Debug, Clone, PartialEq)]
pub struct FieldSchema {
    pub name: String,
    pub field_type: String,
    pub optional: bool,
}

/// A complete schema with version metadata.
#[derive(Debug, Clone)]
pub struct Schema {
    pub schema_id: u32,
    pub version: u16,
    pub min_compatible: u16,
    pub messages: Vec<MessageSchema>,
}

/// How two schemas relate.
#[derive(Debug, Clone, Copy, PartialEq, Eq, Structural)]
pub enum CompatibilityLevel {
    /// Same version, no breaking change.
    FullyCompatible,
    /// Newer version, no breaking change: new decoders read old messages.
    ForwardCompatible,
    /// Older version, no breaking change: old decoders read new messages.
    BackwardCompatible,
    /// A breaking change was found.
    Incompatible,
}

/// A breaking change found by the check.
#[derive(Debug, Clone, PartialEq)]
pub enum CompatibilityIssue {
    SchemaMismatch { old_id: u32, new_id: u32 },
    VersionTooOld { version: u16, min_compatible: u16 },
    MessageRemoved { name: String, type_id: u16 },
    RequiredFieldRemoved { message: String, field: String },
    FieldTypeChanged { message: String, field: String, old_type: String, new_type: String },
    FieldBecameRequired { message: String, field: String },
    TypeIdChanged { message: String, old_id: u16, new_id: u16 },
}

/// Result of a compatibility check.
#[derive(Debug)]
pub struct CompatibilityReport {
    pub level: CompatibilityLevel,
    pub issues: Vec<CompatibilityIssue>,
    pub warnings: Vec<String>,
}

/// Abstract field.
pub struct FieldView {
    pub name: Seq<char>,
    pub field_type: Seq<char>,
    pub optional: bool,
}

/// Abstract message schema.
pub struct MessageView {
    pub type_id: u16,
    pub name: Seq<char>,
    pub fields: Seq<FieldView>,
}

/// Abstract schema.
pub struct SchemaView {
    pub schema_id: u32,
    pub version: u16,
    pub min_compatible: u16,
    pub messages: Seq<MessageView>,
}

/// Abstract issue.
pub enum IssueView {
    SchemaMismatch { old_id: u32, new_id: u32 },
    VersionTooOld { version: u16, min_compatible: u16 },
    MessageRemoved { name: Seq<char>, type_id: u16 },
    RequiredFieldRemoved { message: Seq<char>, field: Seq<char> },
    FieldTypeChanged {
        message: Seq<char>,
        field: Seq<char>,
        old_type: Seq<char>,
        new_type: Seq<char>,
    },
    FieldBecameRequired { message: Seq<char>, field: Seq<char> },
    TypeIdChanged { message: Seq<char>, old_id: u16, new_id: u16 },
}

/// Abstract report.
pub struct ReportView {
    pub level: CompatibilityLevel,
    pub issues: Seq<IssueView>,
    pub warnings: Seq<Seq<char>>,
}

impl View for FieldSchema {
    type V = FieldView;

    open spec fn view(&self) -> FieldView {
        FieldView { name: self.name@, field_type: self.field_type@, optional: self.optional }
    }
}

impl View for MessageSchema {
    type V = MessageView;

    open spec fn view(&self) -> MessageView {
        MessageView {
            type_id: self.type_id,
            name: self.name@,
            fields: self.fields@.map_values(|f: FieldSchema| f@),
        }
    }
}

impl View for Schema {
    type V = SchemaView;

    open spec fn view(&self) -> SchemaView {
        SchemaView {
            schema_id: self.schema_id,
            version: self.version,
            min_compatible: self.min_compatible,
            messages: self.messages@.map_values(|m: MessageSchema| m@),
        }
    }
}

impl View for CompatibilityIssue {
    type V = IssueView;

    open spec fn view(&self) -> IssueView {
        match self {
            CompatibilityIssue::SchemaMismatch { old_id, new_id } => IssueView::SchemaMismatch {
                old_id: *old_id,
                new_id: *new_id,
            },
            CompatibilityIssue::VersionTooOld { version, min_compatible } =>
                IssueView::VersionTooOld { version: *version, min_compatible: *min_compatible },
            CompatibilityIssue::MessageRemoved { name, type_id } => IssueView::MessageRemoved {
                name: name@,
                type_id: *type_id,
            },
            CompatibilityIssue::RequiredFieldRemoved { message, field } =>
                IssueView::RequiredFieldRemoved { message: message@, field: field@ },
            CompatibilityIssue::FieldTypeChanged { message, field, old_type, new_type } =>
                IssueView::FieldTypeChanged {
                message: message@,
                field: field@,
                old_type: old_type@,
                new_type: new_type@,
            },
            CompatibilityIssue::FieldBecameRequired { message, field } =>
                IssueView::FieldBecameRequired { message: message@, field: field@ },
            CompatibilityIssue::TypeIdChanged { message, old_id, new_id } =>
                IssueView::TypeIdChanged { message: message@, old_id: *old_id, new_id: *new_id },
        }
    }
}

impl View for CompatibilityReport {
    type V = ReportView;

    open spec fn view(&self) -> ReportView {
        ReportView {
            level: self.level,
            issues: self.issues@.map_values(|i: CompatibilityIssue| i@),
            warnings: self.warnings@.map_values(|w: String| w@),
        }
    }
}

// ---------------------------------------------------------------------------
// Lookup by name (the later entry of a name counts)
// ---------------------------------------------------------------------------

/// Index of the last field named `name`, or -1.
pub open spec fn last_field(fs: Seq<FieldView>, name: Seq<char>) -> int
    decreases fs.len(),
{
    if fs.len() == 0 {
        -1
    } else if fs.last().name == name {
        fs.len() - 1
    } else {
        last_field(fs.drop_last(), name)
    }
}

/// True when field `i` is the last one of its name.
pub open spec fn field_counts(fs: Seq<FieldView>, i: int) -> bool {
    forall|j: int| i < j < fs.len() ==> fs[j].name != fs[i].name
}

/// Index of the last message named `name`, or -1.
pub open spec fn last_message(ms: Seq<MessageView>, name: Seq<char>) -> int
    decreases ms.len(),
{
    if ms.len() == 0 {
        -1
    } else if ms.last().name == name {
        ms.len() - 1
    } else {
        last_message(ms.drop_last(), name)
    }
}

/// True when message `i` is the last one of its name.
pub open spec fn message_counts(ms: Seq<MessageView>, i: int) -> bool {
    forall|j: int| i < j < ms.len() ==> ms[j].name != ms[i].name
}

// ---------------------------------------------------------------------------
// Warning texts
// ---------------------------------------------------------------------------

pub open spec fn warn_new_message(name: Seq<char>) -> Seq<char> {
    "New message type added: "@ + name
}

pub open spec fn warn_optional_removed(field: Seq<char>, msg: Seq<char>) -> Seq<char> {
    "Optional field '"@ + field + "' removed from message '"@ + msg + "'"@
}

pub open spec fn warn_became_optional(field: Seq<char>, msg: Seq<char>) -> Seq<char> {
    "Field '"@ + field + "' became optional in message '"@ + msg + "'"@
}

pub open spec fn warn_optional_added(field: Seq<char>, msg: Seq<char>) -> Seq<char> {
    "Optional field '"@ + field + "' added to message '"@ + msg + "'"@
}

pub open spec fn warn_required_added(field: Seq<char>, msg: Seq<char>) -> Seq<char> {
    "Required field '"@ + field + "' added to message '"@ + msg
        + "' (may break old decoders)"@
}

// ---------------------------------------------------------------------------
// The check, as a function on views
// ---------------------------------------------------------------------------

/// Issues and warnings found so far.
pub struct Findings {
    pub issues: Seq<IssueView>,
    pub warnings: Seq<Seq<char>>,
}

/// Findings of the first `i` old fields of a message.
pub open spec fn old_field_findings(
    msg: Seq<char>,
    oldf: Seq<FieldView>,
    newf: Seq<FieldView>,
    i: nat,
    acc: Findings,
) -> Findings
    decreases i,
{
    if i == 0 {
        acc
    } else {
        let prev = old_field_findings(msg, oldf, newf, (i - 1) as nat, acc);
        let k = i - 1;
        let f = oldf[k];
        if !field_counts(oldf, k) {
            prev
        } else if last_field(newf, f.name) < 0 {
            if !f.optional {
                Findings {
                    issues: prev.issues.push(
                        IssueView::RequiredFieldRemoved { message: msg, field: f.name },
                    ),
                    warnings: prev.warnings,
                }
            } else {
                Findings {
                    issues: prev.issues,
                    warnings: prev.warnings.push(warn_optional_removed(f.name, msg)),
                }
            }
        } else {
            let g = newf[last_field(newf, f.name)];
            let is1 = if f.field_type != g.field_type {
                prev.issues.push(
                    IssueView::FieldTypeChanged {
                        message: msg,
                        field: f.name,
                        old_type: f.field_type,
                        new_type: g.field_type,
                    },
                )
            } else {
                prev.issues
            };
            let is2 = if f.optional && !g.optional {
                is1.push(IssueView::FieldBecameRequired { message: msg, field: f.name })
            } else {
                is1
            };
            let ws = if !f.optional && g.optional {
                prev.warnings.push(warn_became_optional(f.name, msg))
            } else {
                prev.warnings
            };
            Findings { issues: is2, warnings: ws }
        }
    }
}

/// Findings of the first `i` new fields of a message (fields added).
pub open spec fn new_field_findings(
    msg: Seq<char>,
    oldf: Seq<FieldView>,
    newf: Seq<FieldView>,
    i: nat,
    acc: Findings,
) -> Findings
    decreases i,
{
    if i == 0 {
        acc
    } else {
        let prev = new_field_findings(msg, oldf, newf, (i - 1) as nat, acc);
        let k = i - 1;
        let g = newf[k];
        if !field_counts(newf, k) || last_field(oldf, g.name) >= 0 {
            prev
        } else if g.optional {
            Findings {
                issues: prev.issues,
                warnings: prev.warnings.push(warn_optional_added(g.name, msg)),
            }
        } else {
            Findings {
                issues: prev.issues,
                warnings: prev.warnings.push(warn_required_added(g.name, msg)),
            }
        }
    }
}

/// Findings of comparing two versions of one message.
pub open spec fn message_findings(
    msg: Seq<char>,
    old_m: MessageView,
    new_m: MessageView,
    acc: Findings,
) -> Findings {
    let a0 = if old_m.type_id != new_m.type_id {
        Findings {
            issues: acc.issues.push(
                IssueView::TypeIdChanged { message: msg, old_id: old_m.type_id, new_id: new_m.type_id },
            ),
            warnings: acc.warnings,
        }
    } else {
        acc
    };
    let a1 = old_field_findings(msg, old_m.fields, new_m.fields, old_m.fields.len(), a0);
    new_field_findings(msg, old_m.fields, new_m.fields, new_m.fields.len(), a1)
}

/// Findings of the first `i` old messages: removed messages.
pub open spec fn removed_findings(
    old: Seq<MessageView>,
    new: Seq<MessageView>,
    i: nat,
    acc: Findings,
) -> Findings
    decreases i,
{
    if i == 0 {
        acc
    } else {
        let prev = removed_findings(old, new, (i - 1) as nat, acc);
        let k = i - 1;
        if message_counts(old, k) && last_message(new, old[k].name) < 0 {
            Findings {
                issues: prev.issues.push(
                    IssueView::MessageRemoved { name: old[k].name, type_id: old[k].type_id },
                ),
                warnings: prev.warnings,
            }
        } else {
            prev
        }
    }
}

/// Findings of the first `i` old messages: changes to kept messages.
pub open spec fn changed_findings(
    old: Seq<MessageView>,
    new: Seq<MessageView>,
    i: nat,
    acc: Findings,
) -> Findings
    decreases i,
{
    if i == 0 {
        acc
    } else {
        let prev = changed_findings(old, new, (i - 1) as nat, acc);
        let k = i - 1;
        if message_counts(old, k) && last_message(new, old[k].name) >= 0 {
            message_findings(old[k].name, old[k], new[last_message(new, old[k].name)], prev)
        } else {
            prev
        }
    }
}

/// Findings of the first `i` new messages: added messages.
pub open spec fn added_findings(
    old: Seq<MessageView>,
    new: Seq<MessageView>,
    i: nat,
    acc: Findings,
) -> Findings
    decreases i,
{
    if i == 0 {
        acc
    } else {
        let prev = added_findings(old, new, (i - 1) as nat, acc);
        let k = i - 1;
        if message_counts(new, k) && last_message(old, new[k].name) < 0 {
            Findings { issues: prev.issues, warnings: prev.warnings.push(warn_new_message(new[k].name)) }
        } else {
            prev
        }
    }
}

/// All findings of comparing `old` with `new` (when the schema ids agree).
pub open spec fn schema_findings(old: SchemaView, new: SchemaView) -> Findings {
    let a0 = Findings { issues: Seq::empty(), warnings: Seq::empty() };
    let a1 = if new.version < old.min_compatible {
        Findings {
            issues: a0.issues.push(
                IssueView::VersionTooOld { version: new.version, min_compatible: old.min_compatible },
            ),
            warnings: a0.warnings,
        }
    } else {
        a0
    };
    let a2 = removed_findings(old.messages, new.messages, old.messages.len(), a1);
    let a3 = changed_findings(old.messages, new.messages, old.messages.len(), a2);
    added_findings(old.messages, new.messages, new.messages.len(), a3)
}

/// Level of a report without issues.
pub open spec fn level_by_version(old: SchemaView, new: SchemaView) -> CompatibilityLevel {
    if new.version > old.version {
        CompatibilityLevel::ForwardCompatible
    } else if new.version == old.version {
        CompatibilityLevel::FullyCompatible
    } else {
        CompatibilityLevel::BackwardCompatible
    }
}

/// The report `check_compatibility` gives for `old` and `new`.
pub open spec fn spec_check(old: SchemaView, new: SchemaView) -> ReportView {
    if old.schema_id != new.schema_id {
        ReportView {
            level: CompatibilityLevel::Incompatible,
            issues: seq![IssueView::SchemaMismatch { old_id: old.schema_id, new_id: new.schema_id }],
            warnings: Seq::empty(),
        }
    } else {
        let f = schema_findings(old, new);
        ReportView {
            level: if f.issues.len() > 0 {
                CompatibilityLevel::Incompatible
            } else {
                level_by_version(old, new)
            },
            issues: f.issues,
            warnings: f.warnings,
        }
    }
}

// ---------------------------------------------------------------------------
// Report operations
// ---------------------------------------------------------------------------

/// The report with no findings, fully compatible.
pub open spec fn empty_report() -> ReportView {
    ReportView {
        level: CompatibilityLevel::FullyCompatible,
        issues: Seq::empty(),
        warnings: Seq::empty(),
    }
}

/// A report after a breaking issue is recorded.
pub open spec fn report_with_issue(r: ReportView, issue: IssueView) -> ReportView {
    ReportView { level: CompatibilityLevel::Incompatible, issues: r.issues.push(issue), warnings: r.warnings }
}

/// A report after a warning is recorded.
pub open spec fn report_with_warning(r: ReportView, warning: Seq<char>) -> ReportView {
    ReportView { level: r.level, issues: r.issues, warnings: r.warnings.push(warning) }
}

/// One finding recorded in a report.
pub enum Finding {
    Issue(IssueView),
    Warning(Seq<char>),
}

/// A report after the findings, in order.
pub open spec fn report_after(r: ReportView, findings: Seq<Finding>) -> ReportView
    decreases findings.len(),
{
    if findings.len() == 0 {
        r
    } else {
        let before = report_after(r, findings.drop_last());
        match findings.last() {
            Finding::Issue(i) => report_with_issue(before, i),
            Finding::Warning(w) => report_with_warning(before, w),
        }
    }
}

/// Law: a report built from `compatible()` by any findings is compatible
/// exactly when it holds no issue; its issues and warnings are the findings
/// of each kind, in order.
pub proof fn lemma_report_compatible_iff_no_issues(findings: Seq<Finding>)
    ensures
        (report_after(empty_report(), findings).level != CompatibilityLevel::Incompatible) == (
        report_after(empty_report(), findings).issues.len() == 0),
        report_after(empty_report(), findings).level != CompatibilityLevel::BackwardCompatible,
        report_after(empty_report(), findings).level != CompatibilityLevel::ForwardCompatible,
    decreases findings.len(),
{
    if findings.len() > 0 {
        lemma_report_compatible_iff_no_issues(findings.drop_last());
    }
}

impl CompatibilityReport {
    /// A report with no findings, fully compatible.
    pub fn compatible() -> (r: Self)
        ensures
            r@ == empty_report(),
    {
        let r = CompatibilityReport {
            level: CompatibilityLevel::FullyCompatible,
            issues: Vec::new(),
            warnings: Vec::new(),
        };
        proof {
            assert(r@.issues =~= Seq::<IssueView>::empty());
            assert(r@.warnings =~= Seq::<Seq<char>>::empty());
        }
        r
    }

    /// True unless the level is `Incompatible`.
    pub fn is_compatible(&self) -> (r: bool)
        ensures
            r == (self.level != CompatibilityLevel::Incompatible),
    {
        self.level != CompatibilityLevel::Incompatible
    }

    /// Records a breaking issue: the level becomes `Incompatible`.
    pub fn add_issue(&mut self, issue: CompatibilityIssue)
        ensures
            final(self)@ == report_with_issue(old(self)@, issue@),
    {
        self.level = CompatibilityLevel::Incompatible;
        self.issues.push(issue);
        proof {
            assert(final(self)@.issues =~= old(self)@.issues.push(issue@));
        }
    }

    /// Records a non-breaking warning.
    pub fn add_warning(&mut self, warning: String)
        ensures
            final(self)@ == report_with_warning(old(self)@, warning@),
    {
        self.warnings.push(warning);
        proof {
            assert(final(self)@.warnings =~= old(self)@.warnings.push(warning@));
        }
    }
}

// ---------------------------------------------------------------------------
// Executable lookups
// ---------------------------------------------------------------------------

proof fn lemma_last_field(fs: Seq<FieldView>, name: Seq<char>)
    ensures
        -1 <= last_field(fs, name) < fs.len(),
        last_field(fs, name) >= 0 ==> fs[last_field(fs, name)].name == name,
        last_field(fs, name) >= 0 ==> forall|j: int|
            last_field(fs, name) < j < fs.len() ==> fs[j].name != name,
        last_field(fs, name) < 0 ==> forall|j: int| 0 <= j < fs.len() ==> fs[j].name != name,
    decreases fs.len(),
{
    if fs.len() > 0 {
        lemma_last_field(fs.drop_last(), name);
        let r = last_field(fs, name);
        assert forall|j: int| r < j < fs.len() implies #[trigger] fs[j].name != name by {
            if j < fs.len() - 1 {
                assert(fs.drop_last()[j] == fs[j]);
            }
        }
        if r >= 0 && r < fs.len() - 1 {
            assert(fs.drop_last()[r] == fs[r]);
        }
    }
}

proof fn lemma_last_message(ms: Seq<MessageView>, name: Seq<char>)
    ensures
        -1 <= last_message(ms, name) < ms.len(),
        last_message(ms, name) >= 0 ==> ms[last_message(ms, name)].name == name,
        last_message(ms, name) >= 0 ==> forall|j: int|
            last_message(ms, name) < j < ms.len() ==> ms[j].name != name,
        last_message(ms, name) < 0 ==> forall|j: int| 0 <= j < ms.len() ==> ms[j].name != name,
    decreases ms.len(),
{
    if ms.len() > 0 {
        lemma_last_message(ms.drop_last(), name);
        let r = last_message(ms, name);
        assert forall|j: int| r < j < ms.len() implies #[trigger] ms[j].name != name by {
            if j < ms.len() - 1 {
                assert(ms.drop_last()[j] == ms[j]);
            }
        }
        if r >= 0 && r < ms.len() - 1 {
            assert(ms.drop_last()[r] == ms[r]);
        }
    }
}

/// Index of the last field named `name`.
fn find_field(fields: &Vec<FieldSchema>, name: &String) -> (r: Option<usize>)
    ensures
        match r {
            Some(i) => i < fields@.len() && i as int == last_field(
                fields@.map_values(|f: FieldSchema| f@),
                name@,
            ),
            None => last_field(fields@.map_values(|f: FieldSchema| f@), name@) < 0,
        },
{
    let ghost fs = fields@.map_values(|f: FieldSchema| f@);
    proof {
        lemma_last_field(fs, name@);
    }
    let mut i: usize = fields.len();
    while i > 0
        invariant
            i <= fields@.len(),
            fs == fields@.map_values(|f: FieldSchema| f@),
            forall|j: int| i <= j < fs.len() ==> fs[j].name != name@,
            -1 <= last_field(fs, name@) < fs.len(),
            last_field(fs, name@) >= 0 ==> fs[last_field(fs, name@)].name == name@,
            last_field(fs, name@) >= 0 ==> forall|j: int|
                last_field(fs, name@) < j < fs.len() ==> fs[j].name != name@,
            last_field(fs, name@) < 0 ==> forall|j: int| 0 <= j < fs.len() ==> fs[j].name != name@,
        decreases i,
    {
        i = i - 1;
        if fields[i].name == *name {
            proof {
                assert(fs[i as int].name == name@);
            }
            return Some(i);
        }
        proof {
            assert(fs[i as int].name != name@);
        }
    }
    None
}

/// True when field `i` is the last of its name.
fn field_is_last(fields: &Vec<FieldSchema>, i: usize) -> (r: bool)
    requires
        i < fields@.len(),
    ensures
        r == field_counts(fields@.map_values(|f: FieldSchema| f@), i as int),
{
    let ghost fs = fields@.map_values(|f: FieldSchema| f@);
    let n = fields.len();
    let mut j: usize = i + 1;
    while j < n
        invariant
            i < j <= fields@.len(),
            n == fields@.len(),
            fs == fields@.map_values(|f: FieldSchema| f@),
            forall|k: int| i < k < j ==> fs[k].name != fs[i as int].name,
        decreases fields@.len() - j,
    {
        if fields[j].name == fields[i].name {
            proof {
                assert(fs[j as int].name == fs[i as int].name);
            }
            return false;
        }
        j = j + 1;
    }
    true
}

/// Index of the last message named `name`.
fn find_message(messages: &Vec<MessageSchema>, name: &String) -> (r: Option<usize>)
    ensures
        match r {
            Some(i) => i < messages@.len() && i as int == last_message(
                messages@.map_values(|m: MessageSchema| m@),
                name@,
            ),
            None => last_message(messages@.map_values(|m: MessageSchema| m@), name@) < 0,
        },
{
    let ghost ms = messages@.map_values(|m: MessageSchema| m@);
    proof {
        lemma_last_message(ms, name@);
    }
    let mut i: usize = messages.len();
    while i > 0
        invariant
            i <= messages@.len(),
            ms == messages@.map_values(|m: MessageSchema| m@),
            forall|j: int| i <= j < ms.len() ==> ms[j].name != name@,
            -1 <= last_message(ms, name@) < ms.len(),
            last_message(ms, name@) >= 0 ==> ms[last_message(ms, name@)].name == name@,
            last_message(ms, name@) >= 0 ==> forall|j: int|
                last_message(ms, name@) < j < ms.len() ==> ms[j].name != name@,
            last_message(ms, name@) < 0 ==> forall|j: int| 0 <= j < ms.len() ==> ms[j].name != name@,
        decreases i,
    {
        i = i - 1;
        if messages[i].name == *name {
            proof {
                assert(ms[i as int].name == name@);
            }
            return Some(i);
        }
        proof {
            assert(ms[i as int].name != name@);
        }
    }
    None
}

/// True when message `i` is the last of its name.
fn message_is_last(messages: &Vec<MessageSchema>, i: usize) -> (r: bool)
    requires
        i < messages@.len(),
    ensures
        r == message_counts(messages@.map_values(|m: MessageSchema| m@), i as int),
{
    let ghost ms = messages@.map_values(|m: MessageSchema| m@);
    let n = messages.len();
    let mut j: usize = i + 1;
    while j < n
        invariant
            i < j <= messages@.len(),
            n == messages@.len(),
            ms == messages@.map_values(|m: MessageSchema| m@),
            forall|k: int| i < k < j ==> ms[k].name != ms[i as int].name,
        decreases messages@.len() - j,
    {
        if messages[j].name == messages[i].name {
            proof {
                assert(ms[j as int].name == ms[i as int].name);
            }
            return false;
        }
        j = j + 1;
    }
    true
}

/// Builds `prefix + a + mid + b + suffix`.
fn text5(prefix: &str, a: &String, mid: &str, b: &String, suffix: &str) -> (r: String)
    ensures
        r@ == prefix@ + a@ + mid@ + b@ + suffix@,
{
    let mut s = String::new();
    push_str(&mut s, prefix);
    push_str(&mut s, a.as_str());
    push_str(&mut s, mid);
    push_str(&mut s, b.as_str());
    push_str(&mut s, suffix);
    proof {
        assert(s@ =~= prefix@ + a@ + mid@ + b@ + suffix@);
    }
    s
}

// ---------------------------------------------------------------------------
// The check
// ---------------------------------------------------------------------------

/// Adds to `report` the findings of comparing two versions of message `msg_name`.
fn check_message_compatibility(
    report: &mut CompatibilityReport,
    msg_name: &String,
    old_msg: &MessageSchema,
    new_msg: &MessageSchema,
)
    ensures
        ({
            let f = message_findings(
                msg_name@,
                old_msg@,
                new_msg@,
                Findings { issues: old(report)@.issues, warnings: old(report)@.warnings },
            );
            &&& final(report)@.issues == f.issues
            &&& final(report)@.warnings == f.warnings
            &&& final(report)@.level == (if f.issues.len() > old(report)@.issues.len() {
                CompatibilityLevel::Incompatible
            } else {
                old(report)@.level
            })
        }),
        final(report)@.issues.len() >= old(report)@.issues.len(),
{
    let ghost acc0 = Findings { issues: report@.issues, warnings: report@.warnings };
    let ghost level0 = report@.level;
    if old_msg.type_id != new_msg.type_id {
        report.add_issue(
            CompatibilityIssue::TypeIdChanged {
                message: msg_name.clone(),
                old_id: old_msg.type_id,
                new_id: new_msg.type_id,
            },
        );
    }
    let ghost acc1 = Findings { issues: report@.issues, warnings: report@.warnings };
    let ghost oldf = old_msg@.fields;
    let ghost newf = new_msg@.fields;
    proof {
        reveal_strlit("Optional field '");
        reveal_strlit("' removed from message '");
        reveal_strlit("'");
        reveal_strlit("Field '");
        reveal_strlit("' became optional in message '");
        reveal_strlit("' added to message '");
        reveal_strlit("Required field '");
        reveal_strlit("' added to message '");
        reveal_strlit("' (may break old decoders)");
    }
    let mut i: usize = 0;
    while i < old_msg.fields.len()
        invariant
            i <= old_msg.fields@.len(),
            oldf == old_msg@.fields,
            newf == new_msg@.fields,
            report@.issues == old_field_findings(msg_name@, oldf, newf, i as nat, acc1).issues,
            report@.warnings == old_field_findings(msg_name@, oldf, newf, i as nat, acc1).warnings,
            report@.issues.len() >= acc1.issues.len(),
            report@.issues.len() > acc1.issues.len() ==> report@.level
                == CompatibilityLevel::Incompatible,
            report@.issues.len() == acc1.issues.len() ==> report@.level == (if acc1.issues.len()
                > acc0.issues.len() {
                CompatibilityLevel::Incompatible
            } else {
                level0
            }),
            acc1.issues.len() >= acc0.issues.len(),
        decreases old_msg.fields@.len() - i,
    {
        let f = &old_msg.fields[i];
        if field_is_last(&old_msg.fields, i) {
            match find_field(&new_msg.fields, &f.name) {
                None => {
                    if !f.optional {
                        report.add_issue(
                            CompatibilityIssue::RequiredFieldRemoved {
                                message: msg_name.clone(),
                                field: f.name.clone(),
                            },
                        );
                    } else {
                        let w = text5(
                            "Optional field '",
                            &f.name,
                            "' removed from message '",
                            msg_name,
                            "'",
                        );
                        report.add_warning(w);
                    }
                },
                Some(j) => {
                    let g = &new_msg.fields[j];
                    if f.field_type != g.field_type {
                        report.add_issue(
                            CompatibilityIssue::FieldTypeChanged {
                                message: msg_name.clone(),
                                field: f.name.clone(),
                                old_type: f.field_type.clone(),
                                new_type: g.field_type.clone(),
                            },
                        );
                    }
                    if f.optional && !g.optional {
                        report.add_issue(
                            CompatibilityIssue::FieldBecameRequired {
                                message: msg_name.clone(),
                                field: f.name.clone(),
                            },
                        );
                    }
                    if !f.optional && g.optional {
                        let w = text5(
                            "Field '",
                            &f.name,
                            "' became optional in message '",
                            msg_name,
                            "'",
                        );
                        report.add_warning(w);
                    }
                },
            }
        }
        i = i + 1;
    }
    let ghost acc2 = Findings { issues: report@.issues, warnings: report@.warnings };
    let mut i: usize = 0;
    while i < new_msg.fields.len()
        invariant
            i <= new_msg.fields@.len(),
            oldf == old_msg@.fields,
            newf == new_msg@.fields,
            report@.issues == acc2.issues,
            report@.warnings == new_field_findings(msg_name@, oldf, newf, i as nat, acc2).warnings,
            new_field_findings(msg_name@, oldf, newf, i as nat, acc2).issues == acc2.issues,
            report@.level == old(report)@.level || report@.level
                == CompatibilityLevel::Incompatible,
            report@.issues.len() > acc0.issues.len() ==> report@.level
                == CompatibilityLevel::Incompatible,
            report@.issues.len() == acc0.issues.len() ==> report@.level == level0,
        decreases new_msg.fields@.len() - i,
    {
        let g = &new_msg.fields[i];
        if field_is_last(&new_msg.fields, i) {
            match find_field(&old_msg.fields, &g.name) {
                Some(_) => {},
                None => {
                    if g.optional {
                        let w = text5(
                            "Optional field '",
                            &g.name,
                            "' added to message '",
                            msg_name,
                            "'",
                        );
                        report.add_warning(w);
                    } else {
                        let w = text5(
                            "Required field '",
                            &g.name,
                            "' added to message '",
                            msg_name,
                            "' (may break old decoders)",
                        );
                        report.add_warning(w);
                    }
                },
            }
        }
        i = i + 1;
    }
}

/// Compares two schema versions.
///
/// Different schema ids give `Incompatible` with a single `SchemaMismatch`
/// issue.  Otherwise every breaking change is an issue (the level is then
/// `Incompatible`), non-breaking changes are warnings, and without issues
/// the level follows the versions: newer is `ForwardCompatible`, equal is
/// `FullyCompatible`, older is `BackwardCompatible`.
pub fn check_compatibility(old: &Schema, new: &Schema) -> (r: CompatibilityReport)
    ensures
        r@ == spec_check(old@, new@),
{
    let mut report = CompatibilityReport::compatible();
    if old.schema_id != new.schema_id {
        report.add_issue(CompatibilityIssue::SchemaMismatch { old_id: old.schema_id, new_id: new.schema_id });
        proof {
            assert(report@.issues =~= spec_check(old@, new@).issues);
        }
        return report;
    }
    if new.version < old.min_compatible {
        report.add_issue(
            CompatibilityIssue::VersionTooOld { version: new.version, min_compatible: old.min_compatible },
        );
    }
    let ghost om = old@.messages;
    let ghost nm = new@.messages;
    let ghost a1 = Findings { issues: report@.issues, warnings: report@.warnings };
    proof {
        assert(a1.issues =~= (if new.version < old.min_compatible {
            seq![IssueView::VersionTooOld { version: new.version, min_compatible: old.min_compatible }]
        } else {
            Seq::<IssueView>::empty()
        }));
        assert(a1.warnings =~= Seq::<Seq<char>>::empty());
    }
    let mut i: usize = 0;
    while i < old.messages.len()
        invariant
            i <= old.messages@.len(),
            om == old@.messages,
            nm == new@.messages,
            report@.issues == removed_findings(om, nm, i as nat, a1).issues,
            report@.warnings == removed_findings(om, nm, i as nat, a1).warnings,
            report@.issues.len() > 0 ==> report@.level == CompatibilityLevel::Incompatible,
            report@.issues.len() == 0 ==> report@.level == CompatibilityLevel::FullyCompatible,
        decreases old.messages@.len() - i,
    {
        if message_is_last(&old.messages, i) {
            let m = &old.messages[i];
            if find_message(&new.messages, &m.name).is_none() {
                report.add_issue(
                    CompatibilityIssue::MessageRemoved { name: m.name.clone(), type_id: m.type_id },
                );
            }
        }
        i = i + 1;
    }
    let ghost a2 = Findings { issues: report@.issues, warnings: report@.warnings };
    let mut i: usize = 0;
    while i < old.messages.len()
        invariant
            i <= old.messages@.len(),
            om == old@.messages,
            nm == new@.messages,
            report@.issues == changed_findings(om, nm, i as nat, a2).issues,
            report@.warnings == changed_findings(om, nm, i as nat, a2).warnings,
            report@.issues.len() > 0 ==> report@.level == CompatibilityLevel::Incompatible,
            report@.issues.len() == 0 ==> report@.level == CompatibilityLevel::FullyCompatible,
        decreases old.messages@.len() - i,
    {
        if message_is_last(&old.messages, i) {
            let m = &old.messages[i];
            match find_message(&new.messages, &m.name) {
                Some(j) => {
                    check_message_compatibility(&mut report, &m.name, m, &new.messages[j]);
                },
                None => {},
            }
        }
        i = i + 1;
    }
    let ghost a3 = Findings { issues: report@.issues, warnings: report@.warnings };
    proof {
        reveal_strlit("New message type added: ");
    }
    let mut i: usize = 0;
    while i < new.messages.len()
        invariant
            i <= new.messages@.len(),
            om == old@.messages,
            nm == new@.messages,
            report@.issues == a3.issues,
            report@.warnings == added_findings(om, nm, i as nat, a3).warnings,
            added_findings(om, nm, i as nat, a3).issues == a3.issues,
            report@.issues.len() > 0 ==> report@.level == CompatibilityLevel::Incompatible,
            report@.issues.len() == 0 ==> report@.level == CompatibilityLevel::FullyCompatible,
        decreases new.messages@.len() - i,
    {
        if message_is_last(&new.messages, i) {
            let m = &new.messages[i];
            if find_message(&old.messages, &m.name).is_none() {
                let mut w = String::new();
                push_str(&mut w, "New message type added: ");
                push_str(&mut w, m.name.as_str());
                report.add_warning(w);
            }
        }
        i = i + 1;
    }
    if report.level != CompatibilityLevel::Incompatible {
        report.level = determine_compatibility_level(&report, old, new);
    }
    report
}

/// Level of a report: `Incompatible` when it has issues, else by version.
fn determine_compatibility_level(
    report: &CompatibilityReport,
    old: &Schema,
    new: &Schema,
) -> (r: CompatibilityLevel)
    ensures
        r == (if report@.issues.len() > 0 {
            CompatibilityLevel::Incompatible
        } else {
            level_by_version(old@, new@)
        }),
{
    if report.issues.len() != 0 {
        return CompatibilityLevel::Incompatible;
    }
    if new.version > old.version {
        CompatibilityLevel::ForwardCompatible
    } else if new.version == old.version {
        CompatibilityLevel::FullyCompatible
    } else {
        CompatibilityLevel::BackwardCompatible
    }
}


// ---------------------------------------------------------------------------
// Laws
// ---------------------------------------------------------------------------

/// No two messages of the schema share a name, and no two fields of a
/// message share a name (a schema read from a map keyed by name).
pub open spec fn distinct_names(s: SchemaView) -> bool {
    &&& forall|i: int, j: int|
        0 <= i < j < s.messages.len() ==> s.messages[i].name != s.messages[j].name
    &&& forall|k: int, i: int, j: int|
        0 <= k < s.messages.len() && 0 <= i < j < s.messages[k].fields.len()
            ==> s.messages[k].fields[i].name != s.messages[k].fields[j].name
}

proof fn lemma_old_fields_mono(
    msg: Seq<char>,
    oldf: Seq<FieldView>,
    newf: Seq<FieldView>,
    i1: nat,
    i2: nat,
    acc: Findings,
)
    requires
        i1 <= i2 <= oldf.len(),
    ensures
        acc.issues.len() <= old_field_findings(msg, oldf, newf, i1, acc).issues.len()
            <= old_field_findings(msg, oldf, newf, i2, acc).issues.len(),
    decreases i2,
{
    if i2 > 0 {
        if i1 < i2 {
            lemma_old_fields_mono(msg, oldf, newf, i1, (i2 - 1) as nat, acc);
        } else {
            lemma_old_fields_mono(msg, oldf, newf, (i2 - 1) as nat, (i2 - 1) as nat, acc);
        }
    }
}

proof fn lemma_new_fields_issues(
    msg: Seq<char>,
    oldf: Seq<FieldView>,
    newf: Seq<FieldView>,
    i: nat,
    acc: Findings,
)
    ensures
        new_field_findings(msg, oldf, newf, i, acc).issues == acc.issues,
    decreases i,
{
    if i > 0 {
        lemma_new_fields_issues(msg, oldf, newf, (i - 1) as nat, acc);
    }
}

proof fn lemma_message_mono(msg: Seq<char>, old_m: MessageView, new_m: MessageView, acc: Findings)
    ensures
        acc.issues.len() <= message_findings(msg, old_m, new_m, acc).issues.len(),
{
    let a0 = if old_m.type_id != new_m.type_id {
        Findings {
            issues: acc.issues.push(
                IssueView::TypeIdChanged { message: msg, old_id: old_m.type_id, new_id: new_m.type_id },
            ),
            warnings: acc.warnings,
        }
    } else {
        acc
    };
    lemma_old_fields_mono(msg, old_m.fields, new_m.fields, 0, old_m.fields.len(), a0);
    let a1 = old_field_findings(msg, old_m.fields, new_m.fields, old_m.fields.len(), a0);
    lemma_new_fields_issues(msg, old_m.fields, new_m.fields, new_m.fields.len(), a1);
}

proof fn lemma_removed_mono(old: Seq<MessageView>, new: Seq<MessageView>, i1: nat, i2: nat, acc: Findings)
    requires
        i1 <= i2 <= old.len(),
    ensures
        acc.issues.len() <= removed_findings(old, new, i1, acc).issues.len()
            <= removed_findings(old, new, i2, acc).issues.len(),
    decreases i2,
{
    if i2 > 0 {
        if i1 < i2 {
            lemma_removed_mono(old, new, i1, (i2 - 1) as nat, acc);
        } else {
            lemma_removed_mono(old, new, (i2 - 1) as nat, (i2 - 1) as nat, acc);
        }
    }
}

proof fn lemma_changed_mono(old: Seq<MessageView>, new: Seq<MessageView>, i1: nat, i2: nat, acc: Findings)
    requires
        i1 <= i2 <= old.len(),
    ensures
        acc.issues.len() <= changed_findings(old, new, i1, acc).issues.len()
            <= changed_findings(old, new, i2, acc).issues.len(),
    decreases i2,
{
    if i2 > 0 {
        if i1 < i2 {
            lemma_changed_mono(old, new, i1, (i2 - 1) as nat, acc);
        } else {
            lemma_changed_mono(old, new, (i2 - 1) as nat, (i2 - 1) as nat, acc);
        }
        let prev = changed_findings(old, new, (i2 - 1) as nat, acc);
        let k = i2 - 1;
        if message_counts(old, k) && last_message(new, old[k].name) >= 0 {
            lemma_message_mono(old[k].name, old[k], new[last_message(new, old[k].name)], prev);
        }
    }
}

proof fn lemma_added_issues(old: Seq<MessageView>, new: Seq<MessageView>, i: nat, acc: Findings)
    ensures
        added_findings(old, new, i, acc).issues == acc.issues,
    decreases i,
{
    if i > 0 {
        lemma_added_issues(old, new, (i - 1) as nat, acc);
    }
}

/// Issues found before the message-by-message comparison stay in the report.
proof fn lemma_schema_findings_from_changed(old: SchemaView, new: SchemaView, k: nat, acc: Findings)
    requires
        k < old.messages.len(),
        message_counts(old.messages, k as int),
        last_message(new.messages, old.messages[k as int].name) >= 0,
        message_findings(
            old.messages[k as int].name,
            old.messages[k as int],
            new.messages[last_message(new.messages, old.messages[k as int].name)],
            acc,
        ).issues.len() > acc.issues.len(),
        acc == changed_findings(
            old.messages,
            new.messages,
            k,
            removed_findings(
                old.messages,
                new.messages,
                old.messages.len(),
                schema_findings_start(old, new),
            ),
        ),
    ensures
        schema_findings(old, new).issues.len() > 0,
{
    let a2 = removed_findings(old.messages, new.messages, old.messages.len(), schema_findings_start(old, new));
    lemma_changed_mono(old.messages, new.messages, k + 1, old.messages.len(), a2);
    lemma_changed_mono(old.messages, new.messages, k, k, a2);
    let a3 = changed_findings(old.messages, new.messages, old.messages.len(), a2);
    lemma_added_issues(old.messages, new.messages, new.messages.len(), a3);
}

/// Findings before the messages are compared: the version check.
pub open spec fn schema_findings_start(old: SchemaView, new: SchemaView) -> Findings {
    let a0 = Findings { issues: Seq::empty(), warnings: Seq::empty() };
    if new.version < old.min_compatible {
        Findings {
            issues: a0.issues.push(
                IssueView::VersionTooOld { version: new.version, min_compatible: old.min_compatible },
            ),
            warnings: a0.warnings,
        }
    } else {
        a0
    }
}

/// Law: the level is `Incompatible` exactly when the report has an issue.
pub proof fn lemma_incompatible_iff_issues(old: SchemaView, new: SchemaView)
    ensures
        (spec_check(old, new).level == CompatibilityLevel::Incompatible) == (spec_check(
            old,
            new,
        ).issues.len() > 0),
{
}

/// Law: schemas with different ids are incompatible, with the single issue
/// `SchemaMismatch`.
pub proof fn lemma_schema_mismatch(old: SchemaView, new: SchemaView)
    requires
        old.schema_id != new.schema_id,
    ensures
        spec_check(old, new).level == CompatibilityLevel::Incompatible,
        spec_check(old, new).issues == seq![
            IssueView::SchemaMismatch { old_id: old.schema_id, new_id: new.schema_id },
        ],
{
}

/// Law: a version below the old schema's minimum compatible version is
/// incompatible.
pub proof fn lemma_version_too_old(old: SchemaView, new: SchemaView)
    requires
        new.version < old.min_compatible,
    ensures
        spec_check(old, new).level == CompatibilityLevel::Incompatible,
{
    if old.schema_id == new.schema_id {
        let a1 = schema_findings_start(old, new);
        lemma_removed_mono(old.messages, new.messages, 0, old.messages.len(), a1);
        let a2 = removed_findings(old.messages, new.messages, old.messages.len(), a1);
        lemma_changed_mono(old.messages, new.messages, 0, old.messages.len(), a2);
        let a3 = changed_findings(old.messages, new.messages, old.messages.len(), a2);
        lemma_added_issues(old.messages, new.messages, new.messages.len(), a3);
    }
}

/// Law: removing a message type is incompatible.
pub proof fn lemma_removed_message(old: SchemaView, new: SchemaView, k: int)
    requires
        0 <= k < old.messages.len(),
        forall|j: int| 0 <= j < new.messages.len() ==> new.messages[j].name != old.messages[k].name,
    ensures
        spec_check(old, new).level == CompatibilityLevel::Incompatible,
{
    if old.schema_id == new.schema_id {
        let name = old.messages[k].name;
        lemma_last_message(old.messages, name);
        lemma_last_message(new.messages, name);
        let r = last_message(old.messages, name);
        assert(message_counts(old.messages, r));
        let a1 = schema_findings_start(old, new);
        lemma_removed_mono(old.messages, new.messages, (r + 1) as nat, old.messages.len(), a1);
        lemma_removed_mono(old.messages, new.messages, r as nat, r as nat, a1);
        let a2 = removed_findings(old.messages, new.messages, old.messages.len(), a1);
        lemma_changed_mono(old.messages, new.messages, 0, old.messages.len(), a2);
        let a3 = changed_findings(old.messages, new.messages, old.messages.len(), a2);
        lemma_added_issues(old.messages, new.messages, new.messages.len(), a3);
    }
}

/// Comparison of message `k` of `old` with its namesake in `new` adds an
/// issue when `cond` holds of the effective versions; the check is then
/// incompatible.
proof fn lemma_message_issue_breaks(old: SchemaView, new: SchemaView, k: int)
    requires
        0 <= k < old.messages.len(),
        message_counts(old.messages, k),
        last_message(new.messages, old.messages[k].name) >= 0,
        forall|acc: Findings|
            #![trigger message_findings(old.messages[k].name, old.messages[k], new.messages[last_message(new.messages, old.messages[k].name)], acc)]
            message_findings(
                old.messages[k].name,
                old.messages[k],
                new.messages[last_message(new.messages, old.messages[k].name)],
                acc,
            ).issues.len() > acc.issues.len(),
    ensures
        spec_check(old, new).level == CompatibilityLevel::Incompatible,
{
    if old.schema_id == new.schema_id {
        let a1 = schema_findings_start(old, new);
        let a2 = removed_findings(old.messages, new.messages, old.messages.len(), a1);
        let acc = changed_findings(old.messages, new.messages, k as nat, a2);
        lemma_schema_findings_from_changed(old, new, k as nat, acc);
    }
}

/// Law: changing the type id of a message is incompatible.
pub proof fn lemma_type_id_changed(old: SchemaView, new: SchemaView, k: int, j: int)
    requires
        distinct_names(old),
        distinct_names(new),
        0 <= k < old.messages.len(),
        0 <= j < new.messages.len(),
        old.messages[k].name == new.messages[j].name,
        old.messages[k].type_id != new.messages[j].type_id,
    ensures
        spec_check(old, new).level == CompatibilityLevel::Incompatible,
{
    let name = old.messages[k].name;
    lemma_last_message(new.messages, name);
    let jj = last_message(new.messages, name);
    assert(jj == j);
    assert forall|acc: Findings|
        #![trigger message_findings(name, old.messages[k], new.messages[jj], acc)]
        message_findings(name, old.messages[k], new.messages[jj], acc).issues.len()
            > acc.issues.len() by {
        let a0 = Findings {
            issues: acc.issues.push(
                IssueView::TypeIdChanged {
                    message: name,
                    old_id: old.messages[k].type_id,
                    new_id: new.messages[j].type_id,
                },
            ),
            warnings: acc.warnings,
        };
        let om = old.messages[k];
        let nm = new.messages[j];
        lemma_old_fields_mono(name, om.fields, nm.fields, 0, om.fields.len(), a0);
        let a1 = old_field_findings(name, om.fields, nm.fields, om.fields.len(), a0);
        lemma_new_fields_issues(name, om.fields, nm.fields, nm.fields.len(), a1);
    }
    lemma_message_issue_breaks(old, new, k);
}

/// A field of the old message whose comparison pushes an issue makes the
/// message comparison add one.
proof fn lemma_field_issue(
    msg: Seq<char>,
    om: MessageView,
    nm: MessageView,
    a: int,
    acc: Findings,
)
    requires
        0 <= a < om.fields.len(),
        old_field_findings(msg, om.fields, nm.fields, (a + 1) as nat, acc).issues.len()
            > old_field_findings(msg, om.fields, nm.fields, a as nat, acc).issues.len(),
    ensures
        old_field_findings(msg, om.fields, nm.fields, om.fields.len(), acc).issues.len()
            > acc.issues.len(),
{
    lemma_old_fields_mono(msg, om.fields, nm.fields, (a + 1) as nat, om.fields.len(), acc);
    lemma_old_fields_mono(msg, om.fields, nm.fields, a as nat, a as nat, acc);
}

/// The comparison of message versions adds an issue when a field comparison does.
proof fn lemma_message_issue_from_field(msg: Seq<char>, om: MessageView, nm: MessageView, a: int)
    requires
        0 <= a < om.fields.len(),
        forall|acc: Findings|
            #![trigger old_field_findings(msg, om.fields, nm.fields, a as nat, acc)]
            old_field_findings(msg, om.fields, nm.fields, (a + 1) as nat, acc).issues.len()
                > old_field_findings(msg, om.fields, nm.fields, a as nat, acc).issues.len(),
    ensures
        forall|acc: Findings|
            #![trigger message_findings(msg, om, nm, acc)]
            message_findings(msg, om, nm, acc).issues.len() > acc.issues.len(),
{
    assert forall|acc: Findings|
        #![trigger message_findings(msg, om, nm, acc)]
        message_findings(msg, om, nm, acc).issues.len() > acc.issues.len() by {
        let a0 = if om.type_id != nm.type_id {
            Findings {
                issues: acc.issues.push(
                    IssueView::TypeIdChanged { message: msg, old_id: om.type_id, new_id: nm.type_id },
                ),
                warnings: acc.warnings,
            }
        } else {
            acc
        };
        assert(old_field_findings(msg, om.fields, nm.fields, (a + 1) as nat, a0).issues.len()
            > old_field_findings(msg, om.fields, nm.fields, a as nat, a0).issues.len());
        lemma_field_issue(msg, om, nm, a, a0);
        let a1 = old_field_findings(msg, om.fields, nm.fields, om.fields.len(), a0);
        lemma_new_fields_issues(msg, om.fields, nm.fields, nm.fields.len(), a1);
    }
}

/// Law: removing a required field from a message that stays is incompatible.
pub proof fn lemma_required_field_removed(old: SchemaView, new: SchemaView, k: int, j: int, a: int)
    requires
        distinct_names(old),
        distinct_names(new),
        0 <= k < old.messages.len(),
        0 <= j < new.messages.len(),
        old.messages[k].name == new.messages[j].name,
        0 <= a < old.messages[k].fields.len(),
        !old.messages[k].fields[a].optional,
        forall|b: int|
            0 <= b < new.messages[j].fields.len() ==> new.messages[j].fields[b].name
                != old.messages[k].fields[a].name,
    ensures
        spec_check(old, new).level == CompatibilityLevel::Incompatible,
{
    let name = old.messages[k].name;
    lemma_last_message(new.messages, name);
    assert(last_message(new.messages, name) == j);
    let om = old.messages[k];
    let nm = new.messages[j];
    lemma_last_field(nm.fields, om.fields[a].name);
    assert(field_counts(om.fields, a));
    lemma_message_issue_from_field(name, om, nm, a);
    lemma_message_issue_breaks(old, new, k);
}

/// Law: changing the type of a field is incompatible.
pub proof fn lemma_field_type_changed(
    old: SchemaView,
    new: SchemaView,
    k: int,
    j: int,
    a: int,
    b: int,
)
    requires
        distinct_names(old),
        distinct_names(new),
        0 <= k < old.messages.len(),
        0 <= j < new.messages.len(),
        old.messages[k].name == new.messages[j].name,
        0 <= a < old.messages[k].fields.len(),
        0 <= b < new.messages[j].fields.len(),
        old.messages[k].fields[a].name == new.messages[j].fields[b].name,
        old.messages[k].fields[a].field_type != new.messages[j].fields[b].field_type,
    ensures
        spec_check(old, new).level == CompatibilityLevel::Incompatible,
{
    let name = old.messages[k].name;
    lemma_last_message(new.messages, name);
    assert(last_message(new.messages, name) == j);
    let om = old.messages[k];
    let nm = new.messages[j];
    lemma_last_field(nm.fields, om.fields[a].name);
    assert(last_field(nm.fields, om.fields[a].name) == b);
    assert(field_counts(om.fields, a));
    lemma_message_issue_from_field(name, om, nm, a);
    lemma_message_issue_breaks(old, new, k);
}

/// Law: making an optional field required is incompatible.
pub proof fn lemma_field_became_required(
    old: SchemaView,
    new: SchemaView,
    k: int,
    j: int,
    a: int,
    b: int,
)
    requires
        distinct_names(old),
        distinct_names(new),
        0 <= k < old.messages.len(),
        0 <= j < new.messages.len(),
        old.messages[k].name == new.messages[j].name,
        0 <= a < old.messages[k].fields.len(),
        0 <= b < new.messages[j].fields.len(),
        old.messages[k].fields[a].name == new.messages[j].fields[b].name,
        old.messages[k].fields[a].optional,
        !new.messages[j].fields[b].optional,
    ensures
        spec_check(old, new).level == CompatibilityLevel::Incompatible,
{
    let name = old.messages[k].name;
    lemma_last_message(new.messages, name);
    assert(last_message(new.messages, name) == j);
    let om = old.messages[k];
    let nm = new.messages[j];
    lemma_last_field(nm.fields, om.fields[a].name);
    assert(last_field(nm.fields, om.fields[a].name) == b);
    assert(field_counts(om.fields, a));
    lemma_message_issue_from_field(name, om, nm, a);
    lemma_message_issue_breaks(old, new, k);
}

/// The field names are pairwise distinct.
pub open spec fn field_names_distinct(fs: Seq<FieldView>) -> bool {
    forall|a: int, b: int| 0 <= a < b < fs.len() ==> fs[a].name != fs[b].name
}

/// In fields with distinct names, the field named like field `j` is found at
/// `j`; a name that no field has is not found.
proof fn lemma_last_field_distinct(fs: Seq<FieldView>, name: Seq<char>)
    requires
        field_names_distinct(fs),
    ensures
        forall|j: int| 0 <= j < fs.len() && fs[j].name == name ==> last_field(fs, name) == j,
        (forall|j: int| 0 <= j < fs.len() ==> fs[j].name != name) ==> last_field(fs, name) == -1,
    decreases fs.len(),
{
    if fs.len() > 0 {
        let t = fs.drop_last();
        assert(field_names_distinct(t));
        lemma_last_field_distinct(t, name);
        if fs.last().name != name {
            assert forall|j: int| 0 <= j < fs.len() && fs[j].name == name implies last_field(fs, name)
                == j by {
                assert(j < fs.len() - 1);
                assert(t[j] == fs[j]);
            }
            assert((forall|j: int| 0 <= j < fs.len() ==> fs[j].name != name) ==> (forall|j: int|
                0 <= j < t.len() ==> t[j].name != name)) by {
                if forall|j: int| 0 <= j < fs.len() ==> fs[j].name != name {
                    assert forall|j: int| 0 <= j < t.len() implies t[j].name != name by {
                        assert(t[j] == fs[j]);
                    }
                }
            }
        }
    }
}

/// The old fields up to `i`, with field `k` removed in the new version and
/// every other field kept, give exactly the finding for `k` once `i` passes
/// it: a warning for an optional field, an issue for a required one.
proof fn lemma_old_fields_one_removed(
    msg: Seq<char>,
    oldf: Seq<FieldView>,
    k: int,
    i: nat,
    acc: Findings,
)
    requires
        field_names_distinct(oldf),
        0 <= k < oldf.len(),
        i <= oldf.len(),
    ensures
        old_field_findings(msg, oldf, oldf.remove(k), i, acc) == (if i <= k {
            acc
        } else if oldf[k].optional {
            Findings { issues: acc.issues, warnings: acc.warnings.push(warn_optional_removed(oldf[k].name, msg)) }
        } else {
            Findings {
                issues: acc.issues.push(IssueView::RequiredFieldRemoved { message: msg, field: oldf[k].name }),
                warnings: acc.warnings,
            }
        }),
    decreases i,
{
    let newf = oldf.remove(k);
    if i > 0 {
        lemma_old_fields_one_removed(msg, oldf, k, (i - 1) as nat, acc);
        let j = i - 1;
        let f = oldf[j];
        assert(field_counts(oldf, j));
        assert(field_names_distinct(newf)) by {
            assert forall|a: int, b: int| 0 <= a < b < newf.len() implies newf[a].name != newf[b].name by {
                let oa = if a < k { a } else { a + 1 };
                let ob = if b < k { b } else { b + 1 };
                assert(newf[a] == oldf[oa]);
                assert(newf[b] == oldf[ob]);
            }
        }
        lemma_last_field_distinct(newf, f.name);
        if j == k {
            assert forall|t: int| 0 <= t < newf.len() implies newf[t].name != f.name by {
                let ot = if t < k { t } else { t + 1 };
                assert(newf[t] == oldf[ot]);
            }
            assert(last_field(newf, f.name) == -1);
        } else {
            let nj = if j < k { j } else { j - 1 };
            assert(newf[nj] == oldf[j]);
            assert(last_field(newf, f.name) == nj);
        }
    }
}

/// The new fields up to `i`, all present in the old version, add nothing.
proof fn lemma_new_fields_all_kept(
    msg: Seq<char>,
    oldf: Seq<FieldView>,
    k: int,
    i: nat,
    acc: Findings,
)
    requires
        field_names_distinct(oldf),
        0 <= k < oldf.len(),
        i <= oldf.remove(k).len(),
    ensures
        new_field_findings(msg, oldf, oldf.remove(k), i, acc) == acc,
    decreases i,
{
    let newf = oldf.remove(k);
    if i > 0 {
        lemma_new_fields_all_kept(msg, oldf, k, (i - 1) as nat, acc);
        let t = i - 1;
        let ot = if t < k { t } else { t + 1 };
        assert(newf[t] == oldf[ot]);
        lemma_last_field_distinct(oldf, newf[t].name);
        assert(last_field(oldf, newf[t].name) == ot);
    }
}

/// Law: when the new version of a message keeps its type id and all its
/// fields but one optional field (field names distinct), the comparison adds
/// no issue and exactly one warning, that the optional field was removed.
pub proof fn lemma_optional_field_removal_is_compatible(
    msg: Seq<char>,
    old_m: MessageView,
    new_m: MessageView,
    k: int,
    acc: Findings,
)
    requires
        field_names_distinct(old_m.fields),
        0 <= k < old_m.fields.len(),
        old_m.fields[k].optional,
        new_m.type_id == old_m.type_id,
        new_m.fields == old_m.fields.remove(k),
    ensures
        message_findings(msg, old_m, new_m, acc) == (Findings {
            issues: acc.issues,
            warnings: acc.warnings.push(warn_optional_removed(old_m.fields[k].name, msg)),
        }),
{
    let oldf = old_m.fields;
    lemma_old_fields_one_removed(msg, oldf, k, oldf.len(), acc);
    let a1 = Findings {
        issues: acc.issues,
        warnings: acc.warnings.push(warn_optional_removed(oldf[k].name, msg)),
    };
    lemma_new_fields_all_kept(msg, oldf, k, oldf.remove(k).len(), a1);
}

/// Law: when the new version of a message keeps its type id and all its
/// fields but one required field (field names distinct), the comparison adds
/// exactly one issue, that the required field was removed, and no warning.
pub proof fn lemma_required_field_removal_breaks(
    msg: Seq<char>,
    old_m: MessageView,
    new_m: MessageView,
    k: int,
    acc: Findings,
)
    requires
        field_names_distinct(old_m.fields),
        0 <= k < old_m.fields.len(),
        !old_m.fields[k].optional,
        new_m.type_id == old_m.type_id,
        new_m.fields == old_m.fields.remove(k),
    ensures
        message_findings(msg, old_m, new_m, acc) == (Findings {
            issues: acc.issues.push(
                IssueView::RequiredFieldRemoved { message: msg, field: old_m.fields[k].name },
            ),
            warnings: acc.warnings,
        }),
{
    let oldf = old_m.fields;
    lemma_old_fields_one_removed(msg, oldf, k, oldf.len(), acc);
    let a1 = Findings {
        issues: acc.issues.push(IssueView::RequiredFieldRemoved { message: msg, field: oldf[k].name }),
        warnings: acc.warnings,
    };
    lemma_new_fields_all_kept(msg, oldf, k, oldf.remove(k).len(), a1);
}

} // verus!
