//! Status, priority, preset and scope enumerations of the work graph, with
//! their stored names.

use vstd::prelude::*;

use crate::error::{ValueKind, WorkError};
use crate::text::{owned, str_equal};

verus! {

#[derive(Debug, Clone, Copy, PartialEq, Eq, Structural, Default)]
pub enum GoalStatus {
    #[default]
    Pending,
    Active,
    Blocked,
    Completed,
    Cancelled,
}

impl GoalStatus {
    /// The stored name of the goal status.
    pub open spec fn name(self) -> Seq<char> {
        match self {
            GoalStatus::Pending => "pending"@,
            GoalStatus::Active => "active"@,
            GoalStatus::Blocked => "blocked"@,
            GoalStatus::Completed => "completed"@,
            GoalStatus::Cancelled => "cancelled"@,
        }
    }

    pub fn as_str(self) -> (s: &'static str)
        ensures
            s@ == self.name(),
    {
        match self {
            GoalStatus::Pending => "pending",
            GoalStatus::Active => "active",
            GoalStatus::Blocked => "blocked",
            GoalStatus::Completed => "completed",
            GoalStatus::Cancelled => "cancelled",
        }
    }

    /// Reads a stored name; any other text is refused as an unknown goal status.
    pub fn parse(value: &str) -> (r: Result<Self, WorkError>)
        ensures
            match r {
                Ok(x) => x.name() == value@,
                Err(e) => (forall|x: Self| x.name() != value@) && e.is_unknown_value(ValueKind::GoalStatus, value@),
            },
    {
        if str_equal(value, "pending") {
            return Ok(GoalStatus::Pending);
        }
        if str_equal(value, "active") {
            return Ok(GoalStatus::Active);
        }
        if str_equal(value, "blocked") {
            return Ok(GoalStatus::Blocked);
        }
        if str_equal(value, "completed") {
            return Ok(GoalStatus::Completed);
        }
        if str_equal(value, "cancelled") {
            return Ok(GoalStatus::Cancelled);
        }
        proof {
            assert forall|x: Self| x.name() != value@ by {
                match x {
                    GoalStatus::Pending => {},
                    GoalStatus::Active => {},
                    GoalStatus::Blocked => {},
                    GoalStatus::Completed => {},
                    GoalStatus::Cancelled => {},
                }
            }
        }
        Err(WorkError::UnknownValue { value_kind: ValueKind::GoalStatus, value: owned(value) })
    }

    /// Distinct values have distinct stored names.
    pub proof fn lemma_names_distinct(a: Self, b: Self)
        ensures
            a.name() == b.name() ==> a == b,
    {
        reveal_strlit("pending");
        reveal_strlit("active");
        reveal_strlit("blocked");
        reveal_strlit("completed");
        reveal_strlit("cancelled");
        if a.name() == b.name() {
            assert(a.name()[0] == b.name()[0]);
            assert(a.name()[1] == b.name()[1]);
        }
    }
}

impl core::str::FromStr for GoalStatus {
    type Err = WorkError;

    fn from_str(value: &str) -> (r: Result<Self, WorkError>)
        ensures
            match r {
                Ok(x) => x.name() == value@,
                Err(e) => (forall|x: Self| x.name() != value@) && e.is_unknown_value(ValueKind::GoalStatus, value@),
            },
    {
        Self::parse(value)
    }
}

#[derive(Debug, Clone, Copy, PartialEq, Eq, Structural, Default)]
pub enum GoalPlanPreset {
    #[default]
    Delivery,
    Investigation,
    Maintenance,
}

impl GoalPlanPreset {
    /// The stored name of the goal plan preset.
    pub open spec fn name(self) -> Seq<char> {
        match self {
            GoalPlanPreset::Delivery => "delivery"@,
            GoalPlanPreset::Investigation => "investigation"@,
            GoalPlanPreset::Maintenance => "maintenance"@,
        }
    }

    pub fn as_str(self) -> (s: &'static str)
        ensures
            s@ == self.name(),
    {
        match self {
            GoalPlanPreset::Delivery => "delivery",
            GoalPlanPreset::Investigation => "investigation",
            GoalPlanPreset::Maintenance => "maintenance",
        }
    }

    /// Reads a stored name; any other text is refused as an unknown goal plan preset.
    pub fn parse(value: &str) -> (r: Result<Self, WorkError>)
        ensures
            match r {
                Ok(x) => x.name() == value@,
                Err(e) => (forall|x: Self| x.name() != value@) && e.is_unknown_value(ValueKind::GoalPlanPreset, value@),
            },
    {
        if str_equal(value, "delivery") {
            return Ok(GoalPlanPreset::Delivery);
        }
        if str_equal(value, "investigation") {
            return Ok(GoalPlanPreset::Investigation);
        }
        if str_equal(value, "maintenance") {
            return Ok(GoalPlanPreset::Maintenance);
        }
        proof {
            assert forall|x: Self| x.name() != value@ by {
                match x {
                    GoalPlanPreset::Delivery => {},
                    GoalPlanPreset::Investigation => {},
                    GoalPlanPreset::Maintenance => {},
                }
            }
        }
        Err(WorkError::UnknownValue { value_kind: ValueKind::GoalPlanPreset, value: owned(value) })
    }

    /// Distinct values have distinct stored names.
    pub proof fn lemma_names_distinct(a: Self, b: Self)
        ensures
            a.name() == b.name() ==> a == b,
    {
        reveal_strlit("delivery");
        reveal_strlit("investigation");
        reveal_strlit("maintenance");
        if a.name() == b.name() {
            assert(a.name()[0] == b.name()[0]);
            assert(a.name()[1] == b.name()[1]);
        }
    }
}

impl core::str::FromStr for GoalPlanPreset {
    type Err = WorkError;

    fn from_str(value: &str) -> (r: Result<Self, WorkError>)
        ensures
            match r {
                Ok(x) => x.name() == value@,
                Err(e) => (forall|x: Self| x.name() != value@) && e.is_unknown_value(ValueKind::GoalPlanPreset, value@),
            },
    {
        Self::parse(value)
    }
}

#[derive(Debug, Clone, Copy, PartialEq, Eq, Structural, Default)]
pub enum TaskStatus {
    #[default]
    Pending,
    InProgress,
    Blocked,
    Completed,
    Cancelled,
}

impl TaskStatus {
    /// The stored name of the task status.
    pub open spec fn name(self) -> Seq<char> {
        match self {
            TaskStatus::Pending => "pending"@,
            TaskStatus::InProgress => "in_progress"@,
            TaskStatus::Blocked => "blocked"@,
            TaskStatus::Completed => "completed"@,
            TaskStatus::Cancelled => "cancelled"@,
        }
    }

    pub fn as_str(self) -> (s: &'static str)
        ensures
            s@ == self.name(),
    {
        match self {
            TaskStatus::Pending => "pending",
            TaskStatus::InProgress => "in_progress",
            TaskStatus::Blocked => "blocked",
            TaskStatus::Completed => "completed",
            TaskStatus::Cancelled => "cancelled",
        }
    }

    /// Reads a stored name; any other text is refused as an unknown task status.
    pub fn parse(value: &str) -> (r: Result<Self, WorkError>)
        ensures
            match r {
                Ok(x) => x.name() == value@,
                Err(e) => (forall|x: Self| x.name() != value@) && e.is_unknown_value(ValueKind::TaskStatus, value@),
            },
    {
        if str_equal(value, "pending") {
            return Ok(TaskStatus::Pending);
        }
        if str_equal(value, "in_progress") {
            return Ok(TaskStatus::InProgress);
        }
        if str_equal(value, "blocked") {
            return Ok(TaskStatus::Blocked);
        }
        if str_equal(value, "completed") {
            return Ok(TaskStatus::Completed);
        }
        if str_equal(value, "cancelled") {
            return Ok(TaskStatus::Cancelled);
        }
        proof {
            assert forall|x: Self| x.name() != value@ by {
                match x {
                    TaskStatus::Pending => {},
                    TaskStatus::InProgress => {},
                    TaskStatus::Blocked => {},
                    TaskStatus::Completed => {},
                    TaskStatus::Cancelled => {},
                }
            }
        }
        Err(WorkError::UnknownValue { value_kind: ValueKind::TaskStatus, value: owned(value) })
    }

    /// Distinct values have distinct stored names.
    pub proof fn lemma_names_distinct(a: Self, b: Self)
        ensures
            a.name() == b.name() ==> a == b,
    {
        reveal_strlit("pending");
        reveal_strlit("in_progress");
        reveal_strlit("blocked");
        reveal_strlit("completed");
        reveal_strlit("cancelled");
        if a.name() == b.name() {
            assert(a.name()[0] == b.name()[0]);
            assert(a.name()[1] == b.name()[1]);
        }
    }
}

impl core::str::FromStr for TaskStatus {
    type Err = WorkError;

    fn from_str(value: &str) -> (r: Result<Self, WorkError>)
        ensures
            match r {
                Ok(x) => x.name() == value@,
                Err(e) => (forall|x: Self| x.name() != value@) && e.is_unknown_value(ValueKind::TaskStatus, value@),
            },
    {
        Self::parse(value)
    }
}

#[derive(Debug, Clone, Copy, PartialEq, Eq, Structural, Default)]
pub enum TaskPriority {
    Low,
    #[default]
    Medium,
    High,
    Critical,
}

impl TaskPriority {
    /// The stored name of the task priority.
    pub open spec fn name(self) -> Seq<char> {
        match self {
            TaskPriority::Low => "low"@,
            TaskPriority::Medium => "medium"@,
            TaskPriority::High => "high"@,
            TaskPriority::Critical => "critical"@,
        }
    }

    pub fn as_str(self) -> (s: &'static str)
        ensures
            s@ == self.name(),
    {
        match self {
            TaskPriority::Low => "low",
            TaskPriority::Medium => "medium",
            TaskPriority::High => "high",
            TaskPriority::Critical => "critical",
        }
    }

    /// Reads a stored name; any other text is refused as an unknown task priority.
    pub fn parse(value: &str) -> (r: Result<Self, WorkError>)
        ensures
            match r {
                Ok(x) => x.name() == value@,
                Err(e) => (forall|x: Self| x.name() != value@) && e.is_unknown_value(ValueKind::TaskPriority, value@),
            },
    {
        if str_equal(value, "low") {
            return Ok(TaskPriority::Low);
        }
        if str_equal(value, "medium") {
            return Ok(TaskPriority::Medium);
        }
        if str_equal(value, "high") {
            return Ok(TaskPriority::High);
        }
        if str_equal(value, "critical") {
            return Ok(TaskPriority::Critical);
        }
        proof {
            assert forall|x: Self| x.name() != value@ by {
                match x {
                    TaskPriority::Low => {},
                    TaskPriority::Medium => {},
                    TaskPriority::High => {},
                    TaskPriority::Critical => {},
                }
            }
        }
        Err(WorkError::UnknownValue { value_kind: ValueKind::TaskPriority, value: owned(value) })
    }

    /// Distinct values have distinct stored names.
    pub proof fn lemma_names_distinct(a: Self, b: Self)
        ensures
            a.name() == b.name() ==> a == b,
    {
        reveal_strlit("low");
        reveal_strlit("medium");
        reveal_strlit("high");
        reveal_strlit("critical");
        if a.name() == b.name() {
            assert(a.name()[0] == b.name()[0]);
            assert(a.name()[1] == b.name()[1]);
        }
    }
}

impl core::str::FromStr for TaskPriority {
    type Err = WorkError;

    fn from_str(value: &str) -> (r: Result<Self, WorkError>)
        ensures
            match r {
                Ok(x) => x.name() == value@,
                Err(e) => (forall|x: Self| x.name() != value@) && e.is_unknown_value(ValueKind::TaskPriority, value@),
            },
    {
        Self::parse(value)
    }
}

#[derive(Debug, Clone, Copy, PartialEq, Eq, Structural, Default)]
pub enum ApprovalStatus {
    #[default]
    Pending,
    Approved,
    Rejected,
}

impl ApprovalStatus {
    /// The stored name of the approval status.
    pub open spec fn name(self) -> Seq<char> {
        match self {
            ApprovalStatus::Pending => "pending"@,
            ApprovalStatus::Approved => "approved"@,
            ApprovalStatus::Rejected => "rejected"@,
        }
    }

    pub fn as_str(self) -> (s: &'static str)
        ensures
            s@ == self.name(),
    {
        match self {
            ApprovalStatus::Pending => "pending",
            ApprovalStatus::Approved => "approved",
            ApprovalStatus::Rejected => "rejected",
        }
    }

    /// Reads a stored name; any other text is refused as an unknown approval status.
    pub fn parse(value: &str) -> (r: Result<Self, WorkError>)
        ensures
            match r {
                Ok(x) => x.name() == value@,
                Err(e) => (forall|x: Self| x.name() != value@) && e.is_unknown_value(ValueKind::ApprovalStatus, value@),
            },
    {
        if str_equal(value, "pending") {
            return Ok(ApprovalStatus::Pending);
        }
        if str_equal(value, "approved") {
            return Ok(ApprovalStatus::Approved);
        }
        if str_equal(value, "rejected") {
            return Ok(ApprovalStatus::Rejected);
        }
        proof {
            assert forall|x: Self| x.name() != value@ by {
                match x {
                    ApprovalStatus::Pending => {},
                    ApprovalStatus::Approved => {},
                    ApprovalStatus::Rejected => {},
                }
            }
        }
        Err(WorkError::UnknownValue { value_kind: ValueKind::ApprovalStatus, value: owned(value) })
    }

    /// Distinct values have distinct stored names.
    pub proof fn lemma_names_distinct(a: Self, b: Self)
        ensures
            a.name() == b.name() ==> a == b,
    {
        reveal_strlit("pending");
        reveal_strlit("approved");
        reveal_strlit("rejected");
        if a.name() == b.name() {
            assert(a.name()[0] == b.name()[0]);
            assert(a.name()[1] == b.name()[1]);
        }
    }
}

impl core::str::FromStr for ApprovalStatus {
    type Err = WorkError;

    fn from_str(value: &str) -> (r: Result<Self, WorkError>)
        ensures
            match r {
                Ok(x) => x.name() == value@,
                Err(e) => (forall|x: Self| x.name() != value@) && e.is_unknown_value(ValueKind::ApprovalStatus, value@),
            },
    {
        Self::parse(value)
    }
}

#[derive(Debug, Clone, Copy, PartialEq, Eq, Structural, Default)]
pub enum RunStatus {
    #[default]
    Pending,
    Running,
    Completed,
    Failed,
    Cancelled,
}

impl RunStatus {
    /// The stored name of the run status.
    pub open spec fn name(self) -> Seq<char> {
        match self {
            RunStatus::Pending => "pending"@,
            RunStatus::Running => "running"@,
            RunStatus::Completed => "completed"@,
            RunStatus::Failed => "failed"@,
            RunStatus::Cancelled => "cancelled"@,
        }
    }

    pub fn as_str(self) -> (s: &'static str)
        ensures
            s@ == self.name(),
    {
        match self {
            RunStatus::Pending => "pending",
            RunStatus::Running => "running",
            RunStatus::Completed => "completed",
            RunStatus::Failed => "failed",
            RunStatus::Cancelled => "cancelled",
        }
    }

    /// Reads a stored name; any other text is refused as an unknown run status.
    pub fn parse(value: &str) -> (r: Result<Self, WorkError>)
        ensures
            match r {
                Ok(x) => x.name() == value@,
                Err(e) => (forall|x: Self| x.name() != value@) && e.is_unknown_value(ValueKind::RunStatus, value@),
            },
    {
        if str_equal(value, "pending") {
            return Ok(RunStatus::Pending);
        }
        if str_equal(value, "running") {
            return Ok(RunStatus::Running);
        }
        if str_equal(value, "completed") {
            return Ok(RunStatus::Completed);
        }
        if str_equal(value, "failed") {
            return Ok(RunStatus::Failed);
        }
        if str_equal(value, "cancelled") {
            return Ok(RunStatus::Cancelled);
        }
        proof {
            assert forall|x: Self| x.name() != value@ by {
                match x {
                    RunStatus::Pending => {},
                    RunStatus::Running => {},
                    RunStatus::Completed => {},
                    RunStatus::Failed => {},
                    RunStatus::Cancelled => {},
                }
            }
        }
        Err(WorkError::UnknownValue { value_kind: ValueKind::RunStatus, value: owned(value) })
    }

    /// Distinct values have distinct stored names.
    pub proof fn lemma_names_distinct(a: Self, b: Self)
        ensures
            a.name() == b.name() ==> a == b,
    {
        reveal_strlit("pending");
        reveal_strlit("running");
        reveal_strlit("completed");
        reveal_strlit("failed");
        reveal_strlit("cancelled");
        if a.name() == b.name() {
            assert(a.name()[0] == b.name()[0]);
            assert(a.name()[1] == b.name()[1]);
        }
    }
}

impl core::str::FromStr for RunStatus {
    type Err = WorkError;

    fn from_str(value: &str) -> (r: Result<Self, WorkError>)
        ensures
            match r {
                Ok(x) => x.name() == value@,
                Err(e) => (forall|x: Self| x.name() != value@) && e.is_unknown_value(ValueKind::RunStatus, value@),
            },
    {
        Self::parse(value)
    }
}

#[derive(Debug, Clone, Copy, PartialEq, Eq, Structural, Default)]
pub enum BudgetScope {
    #[default]
    Task,
    Goal,
    Project,
}

impl BudgetScope {
    /// The stored name of the budget scope.
    pub open spec fn name(self) -> Seq<char> {
        match self {
            BudgetScope::Task => "task"@,
            BudgetScope::Goal => "goal"@,
            BudgetScope::Project => "project"@,
        }
    }

    pub fn as_str(self) -> (s: &'static str)
        ensures
            s@ == self.name(),
    {
        match self {
            BudgetScope::Task => "task",
            BudgetScope::Goal => "goal",
            BudgetScope::Project => "project",
        }
    }

    /// Reads a stored name; any other text is refused as an unknown budget scope.
    pub fn parse(value: &str) -> (r: Result<Self, WorkError>)
        ensures
            match r {
                Ok(x) => x.name() == value@,
                Err(e) => (forall|x: Self| x.name() != value@) && e.is_unknown_value(ValueKind::BudgetScope, value@),
            },
    {
        if str_equal(value, "task") {
            return Ok(BudgetScope::Task);
        }
        if str_equal(value, "goal") {
            return Ok(BudgetScope::Goal);
        }
        if str_equal(value, "project") {
            return Ok(BudgetScope::Project);
        }
        proof {
            assert forall|x: Self| x.name() != value@ by {
                match x {
                    BudgetScope::Task => {},
                    BudgetScope::Goal => {},
                    BudgetScope::Project => {},
                }
            }
        }
        Err(WorkError::UnknownValue { value_kind: ValueKind::BudgetScope, value: owned(value) })
    }

    /// Distinct values have distinct stored names.
    pub proof fn lemma_names_distinct(a: Self, b: Self)
        ensures
            a.name() == b.name() ==> a == b,
    {
        reveal_strlit("task");
        reveal_strlit("goal");
        reveal_strlit("project");
        if a.name() == b.name() {
            assert(a.name()[0] == b.name()[0]);
            assert(a.name()[1] == b.name()[1]);
        }
    }
}

impl core::str::FromStr for BudgetScope {
    type Err = WorkError;

    fn from_str(value: &str) -> (r: Result<Self, WorkError>)
        ensures
            match r {
                Ok(x) => x.name() == value@,
                Err(e) => (forall|x: Self| x.name() != value@) && e.is_unknown_value(ValueKind::BudgetScope, value@),
            },
    {
        Self::parse(value)
    }
}

} // verus!
