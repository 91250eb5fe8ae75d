//! Errors of the work graph.

use vstd::prelude::*;

use crate::text::{push_str, string_from_chars};
use crate::types::TaskStatus;

verus! {

/// Which stored name could not be read.
#[derive(Debug, Clone, Copy, PartialEq, Eq, Structural)]
pub enum ValueKind {
    GoalStatus,
    GoalPlanPreset,
    TaskStatus,
    TaskPriority,
    ApprovalStatus,
    RunStatus,
    BudgetScope,
    TaskListAction,
}

/// Which table a record belongs to.
#[derive(Debug, Clone, Copy, PartialEq, Eq, Structural)]
pub enum RecordKind {
    Goal,
    Task,
    TaskTemplate,
    Comment,
    Link,
    Run,
    Approval,
    Cost,
    Budget,
    RecurringTask,
    Materialization,
}

/// A refused request or unreadable record.
#[derive(Debug)]
pub enum WorkError {
    /// A stored name that names no value of its kind.
    UnknownValue { value_kind: ValueKind, value: String },
    /// No record of this kind has the id.
    NotFound { kind: RecordKind, id: String },
    /// A record of this kind already has the id.
    DuplicateId { kind: RecordKind, id: String },
    /// Only pending or blocked tasks can be claimed.
    ClaimFromStatus { id: String, status: TaskStatus },
    /// The task waits on tasks that are neither completed nor cancelled.
    ClaimBlocked { id: String, blocked_by: Vec<String> },
    /// A template's parent is not in the tree being instantiated.
    MissingParentTemplate { template_id: String, parent_template_id: String },
    /// A template depends on a template outside the tree being instantiated.
    DependencyOutsideTree { template_id: String, dependency_id: String },
    /// A template tree that leads back into itself.
    TemplateCycle { template_id: String },
    /// When a schedule next runs could not be worked out.
    Schedule { message: String },
    /// The tokens counted against a budget exceed the largest stored total.
    TokenTotalOverflow,
    /// A markdown file that does not open with `---`.
    MissingFrontmatter,
    /// A markdown file whose frontmatter has no closing `---`.
    MissingFrontmatterEnd,
    /// A request lacks a parameter it needs.
    MissingParameter { name: String },
    /// Langfuse tracing is enabled without a host.
    LangfuseHostMissing,
    /// Langfuse tracing is enabled without a public key.
    LangfusePublicKeyMissing,
    /// Langfuse tracing is enabled without a secret key.
    LangfuseSecretKeyMissing,
}

impl WorkError {
    pub open spec fn is_unknown_value(self, kind: ValueKind, value: Seq<char>) -> bool {
        self matches WorkError::UnknownValue { value_kind: k, value: v } && k == kind && v@ == value
    }

    pub open spec fn is_not_found(self, kind: RecordKind, id: Seq<char>) -> bool {
        self matches WorkError::NotFound { kind: k, id: v } && k == kind && v@ == id
    }

    pub open spec fn is_duplicate(self, kind: RecordKind, id: Seq<char>) -> bool {
        self matches WorkError::DuplicateId { kind: k, id: v } && k == kind && v@ == id
    }
}


/// The words a message uses for a kind of stored name.
pub open spec fn value_kind_name(k: ValueKind) -> Seq<char> {
    match k {
        ValueKind::GoalStatus => "goal status"@,
        ValueKind::GoalPlanPreset => "goal plan preset"@,
        ValueKind::TaskStatus => "task status"@,
        ValueKind::TaskPriority => "task priority"@,
        ValueKind::ApprovalStatus => "approval status"@,
        ValueKind::RunStatus => "run status"@,
        ValueKind::BudgetScope => "budget scope"@,
        ValueKind::TaskListAction => "task_list action"@,
    }
}

/// The words a message uses for a kind of record.
pub open spec fn record_kind_name(k: RecordKind) -> Seq<char> {
    match k {
        RecordKind::Goal => "goal"@,
        RecordKind::Task => "task"@,
        RecordKind::TaskTemplate => "task template"@,
        RecordKind::Comment => "comment"@,
        RecordKind::Link => "tracker link"@,
        RecordKind::Run => "task run"@,
        RecordKind::Approval => "approval"@,
        RecordKind::Cost => "cost entry"@,
        RecordKind::Budget => "budget"@,
        RecordKind::RecurringTask => "recurring task"@,
        RecordKind::Materialization => "materialization"@,
    }
}

/// Ids separated by a comma and a space.
pub open spec fn joined(ids: Seq<String>) -> Seq<char>
    decreases ids.len(),
{
    if ids.len() == 0 {
        Seq::empty()
    } else if ids.len() == 1 {
        ids[0]@
    } else {
        joined(ids.drop_last()) + ", "@ + ids.last()@
    }
}

/// The text that describes an error.
pub open spec fn message_spec(e: WorkError) -> Seq<char> {
    match e {
        WorkError::UnknownValue { value_kind, value } => "unknown "@ + value_kind_name(value_kind) + ": "@ + value@,
        WorkError::NotFound { kind, id } => record_kind_name(kind) + " "@ + id@ + " not found"@,
        WorkError::DuplicateId { kind, id } => record_kind_name(kind) + " "@ + id@ + " already exists"@,
        WorkError::ClaimFromStatus { id, status } => "task "@ + id@ + " cannot be claimed from status "@ + status.name(),
        WorkError::ClaimBlocked { id, blocked_by } => "task "@ + id@ + " is blocked by incomplete tasks: "@ + joined(
            blocked_by@,
        ),
        WorkError::MissingParentTemplate { template_id, parent_template_id } => "template "@ + template_id@
            + " references missing parent template "@ + parent_template_id@,
        WorkError::DependencyOutsideTree { template_id, dependency_id } => "template "@ + template_id@
            + " depends on template "@ + dependency_id@ + " outside the instantiated tree"@,
        WorkError::TemplateCycle { template_id } => "template "@ + template_id@ + " leads back into its own tree"@,
        WorkError::Schedule { message } => message@,
        WorkError::TokenTotalOverflow => "budget token total exceeds the largest stored total"@,
        WorkError::MissingFrontmatter => "markdown file must start with YAML frontmatter delimited by ---"@,
        WorkError::MissingFrontmatterEnd => "markdown file is missing closing ---"@,
        WorkError::MissingParameter { name } => "missing required parameter: "@ + name@,
        WorkError::LangfuseHostMissing => "metrics.langfuse.enabled = true but metrics.langfuse.host is missing"@,
        WorkError::LangfusePublicKeyMissing => "metrics.langfuse.enabled = true but metrics.langfuse.public_key is missing"@,
        WorkError::LangfuseSecretKeyMissing => "metrics.langfuse.enabled = true but metrics.langfuse.secret_key is missing"@,
    }
}

fn value_kind_text(k: ValueKind) -> (r: &'static str)
    ensures
        r@ == value_kind_name(k),
{
    match k {
        ValueKind::GoalStatus => "goal status",
        ValueKind::GoalPlanPreset => "goal plan preset",
        ValueKind::TaskStatus => "task status",
        ValueKind::TaskPriority => "task priority",
        ValueKind::ApprovalStatus => "approval status",
        ValueKind::RunStatus => "run status",
        ValueKind::BudgetScope => "budget scope",
        ValueKind::TaskListAction => "task_list action",
    }
}

fn record_kind_text(k: RecordKind) -> (r: &'static str)
    ensures
        r@ == record_kind_name(k),
{
    match k {
        RecordKind::Goal => "goal",
        RecordKind::Task => "task",
        RecordKind::TaskTemplate => "task template",
        RecordKind::Comment => "comment",
        RecordKind::Link => "tracker link",
        RecordKind::Run => "task run",
        RecordKind::Approval => "approval",
        RecordKind::Cost => "cost entry",
        RecordKind::Budget => "budget",
        RecordKind::RecurringTask => "recurring task",
        RecordKind::Materialization => "materialization",
    }
}

fn push_joined(out: &mut Vec<char>, ids: &Vec<String>)
    ensures
        final(out)@ == old(out)@ + joined(ids@),
{
    let mut i: usize = 0;
    while i < ids.len()
        invariant
            i <= ids.len(),
            out@ == old(out)@ + joined(ids@.take(i as int)),
        decreases ids.len() - i,
    {
        let ghost before = out@;
        if i > 0 {
            push_str(out, ", ");
        }
        push_str(out, ids[i].as_str());
        proof {
            let t = ids@.take(i as int + 1);
            assert(t.drop_last() =~= ids@.take(i as int));
            if i == 0 {
                assert(joined(ids@.take(0)) =~= Seq::<char>::empty());
                assert(out@ =~= old(out)@ + joined(t));
            } else {
                assert(out@ =~= old(out)@ + joined(t));
            }
        }
        i += 1;
    }
    assert(ids@.take(i as int) =~= ids@);
}

impl WorkError {
    /// The text that describes this error.
    pub fn message(&self) -> (r: String)
        ensures
            r@ == message_spec(*self),
    {
        let mut out: Vec<char> = Vec::new();
        match self {
            WorkError::UnknownValue { value_kind, value } => {
                push_str(&mut out, "unknown ");
                push_str(&mut out, value_kind_text(*value_kind));
                push_str(&mut out, ": ");
                push_str(&mut out, value.as_str());
            },
            WorkError::NotFound { kind, id } => {
                push_str(&mut out, record_kind_text(*kind));
                push_str(&mut out, " ");
                push_str(&mut out, id.as_str());
                push_str(&mut out, " not found");
            },
            WorkError::DuplicateId { kind, id } => {
                push_str(&mut out, record_kind_text(*kind));
                push_str(&mut out, " ");
                push_str(&mut out, id.as_str());
                push_str(&mut out, " already exists");
            },
            WorkError::ClaimFromStatus { id, status } => {
                push_str(&mut out, "task ");
                push_str(&mut out, id.as_str());
                push_str(&mut out, " cannot be claimed from status ");
                push_str(&mut out, status.as_str());
            },
            WorkError::ClaimBlocked { id, blocked_by } => {
                push_str(&mut out, "task ");
                push_str(&mut out, id.as_str());
                push_str(&mut out, " is blocked by incomplete tasks: ");
                push_joined(&mut out, blocked_by);
            },
            WorkError::MissingParentTemplate { template_id, parent_template_id } => {
                push_str(&mut out, "template ");
                push_str(&mut out, template_id.as_str());
                push_str(&mut out, " references missing parent template ");
                push_str(&mut out, parent_template_id.as_str());
            },
            WorkError::DependencyOutsideTree { template_id, dependency_id } => {
                push_str(&mut out, "template ");
                push_str(&mut out, template_id.as_str());
                push_str(&mut out, " depends on template ");
                push_str(&mut out, dependency_id.as_str());
                push_str(&mut out, " outside the instantiated tree");
            },
            WorkError::TemplateCycle { template_id } => {
                push_str(&mut out, "template ");
                push_str(&mut out, template_id.as_str());
                push_str(&mut out, " leads back into its own tree");
            },
            WorkError::Schedule { message } => {
                push_str(&mut out, message.as_str());
            },
            WorkError::TokenTotalOverflow => {
                push_str(&mut out, "budget token total exceeds the largest stored total");
            },
            WorkError::MissingFrontmatter => {
                push_str(&mut out, "markdown file must start with YAML frontmatter delimited by ---");
            },
            WorkError::MissingFrontmatterEnd => {
                push_str(&mut out, "markdown file is missing closing ---");
            },
            WorkError::MissingParameter { name } => {
                push_str(&mut out, "missing required parameter: ");
                push_str(&mut out, name.as_str());
            },
            WorkError::LangfuseHostMissing => {
                push_str(&mut out, "metrics.langfuse.enabled = true but metrics.langfuse.host is missing");
            },
            WorkError::LangfusePublicKeyMissing => {
                push_str(&mut out, "metrics.langfuse.enabled = true but metrics.langfuse.public_key is missing");
            },
            WorkError::LangfuseSecretKeyMissing => {
                push_str(&mut out, "metrics.langfuse.enabled = true but metrics.langfuse.secret_key is missing");
            },
        }
        string_from_chars(out.as_slice())
    }
}

} // verus!
