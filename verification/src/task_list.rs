//! The shared task list tool's requests: reading the names and defaults
//! of its parameters into the work graph's requests.  Reading the
//! parameters out of JSON, and writing results back, is the caller's part.

use vstd::prelude::*;

use crate::error::{ValueKind, WorkError};
use crate::records::{
    ExternalTaskLinkFilter, GoalPlanRequest, InstantiateTaskTemplate, NewRecurringTask, NewTask, NewTaskComment,
    NewTaskTemplate, RecurringTaskFilter, RecurringTaskPatch, TaskFilter, TaskPatch, TaskTemplateFilter,
    TaskTemplatePatch, TrackerImportRequest,
};
use crate::text::{owned, str_equal};
use crate::types::{GoalPlanPreset, TaskPriority, TaskStatus};

verus! {

/// The parameters of a task list request, each alias already resolved
/// (`subject` or `title`, `list_id` or `listId`, and so on).
#[derive(Debug, Clone, Default)]
pub struct TaskListParams {
    pub list_id: Option<String>,
    pub subject: Option<String>,
    pub description: Option<String>,
    pub status: Option<String>,
    pub priority: Option<String>,
    pub goal_id: Option<String>,
    pub parent_task_id: Option<String>,
    pub owner: Option<String>,
    pub project_id: Option<String>,
    pub session_key: Option<String>,
    pub blocked_by: Option<Vec<String>>,
    pub slug: Option<String>,
    pub parent_template_id: Option<String>,
    pub id: Option<String>,
    pub task_id: Option<String>,
    pub template_id: Option<String>,
    pub recurring_id: Option<String>,
    pub author: Option<String>,
    pub body: Option<String>,
    pub preset: Option<String>,
    pub instantiate: Option<bool>,
    pub provider: Option<String>,
    pub remote_id: Option<String>,
    pub remote_title: Option<String>,
    pub remote_body: Option<String>,
    pub remote_status: Option<String>,
    pub remote_url: Option<String>,
    pub remote_updated_at: Option<String>,
    pub limit: Option<u32>,
    pub name: Option<String>,
    pub schedule_json: Option<String>,
    pub enabled: Option<bool>,
    pub force: Option<bool>,
    pub now_ms: Option<u64>,
}

/// The actions of the task list tool.
#[derive(Debug, Clone, Copy, PartialEq, Eq, Structural)]
pub enum TaskListAction {
    Create,
    List,
    Get,
    Update,
    Claim,
    Comment,
    Comments,
    GoalPlan,
    TrackerImport,
    TrackerLinks,
    TemplateCreate,
    TemplateList,
    TemplateGet,
    TemplateUpdate,
    TemplateInstantiate,
    RecurringCreate,
    RecurringList,
    RecurringGet,
    RecurringUpdate,
    RecurringMaterialize,
}

impl TaskListAction {
    /// The action's name in a request.
    pub open spec fn name(self) -> Seq<char> {
        match self {
            TaskListAction::Create => "create"@,
            TaskListAction::List => "list"@,
            TaskListAction::Get => "get"@,
            TaskListAction::Update => "update"@,
            TaskListAction::Claim => "claim"@,
            TaskListAction::Comment => "comment"@,
            TaskListAction::Comments => "comments"@,
            TaskListAction::GoalPlan => "goal_plan"@,
            TaskListAction::TrackerImport => "tracker_import"@,
            TaskListAction::TrackerLinks => "tracker_links"@,
            TaskListAction::TemplateCreate => "template_create"@,
            TaskListAction::TemplateList => "template_list"@,
            TaskListAction::TemplateGet => "template_get"@,
            TaskListAction::TemplateUpdate => "template_update"@,
            TaskListAction::TemplateInstantiate => "template_instantiate"@,
            TaskListAction::RecurringCreate => "recurring_create"@,
            TaskListAction::RecurringList => "recurring_list"@,
            TaskListAction::RecurringGet => "recurring_get"@,
            TaskListAction::RecurringUpdate => "recurring_update"@,
            TaskListAction::RecurringMaterialize => "recurring_materialize"@,
        }
    }

    /// Reads an action name; any other text is refused as an unknown action.
    pub fn parse(value: &str) -> (r: Result<Self, WorkError>)
        ensures
            match r {
                Ok(x) => x.name() == value@,
                Err(e) => (forall|x: Self| x.name() != value@) && e.is_unknown_value(ValueKind::TaskListAction, value@),
            },
    {
        if str_equal(value, "create") {
            return Ok(TaskListAction::Create);
        }
        if str_equal(value, "list") {
            return Ok(TaskListAction::List);
        }
        if str_equal(value, "get") {
            return Ok(TaskListAction::Get);
        }
        if str_equal(value, "update") {
            return Ok(TaskListAction::Update);
        }
        if str_equal(value, "claim") {
            return Ok(TaskListAction::Claim);
        }
        if str_equal(value, "comment") {
            return Ok(TaskListAction::Comment);
        }
        if str_equal(value, "comments") {
            return Ok(TaskListAction::Comments);
        }
        if str_equal(value, "goal_plan") {
            return Ok(TaskListAction::GoalPlan);
        }
        if str_equal(value, "tracker_import") {
            return Ok(TaskListAction::TrackerImport);
        }
        if str_equal(value, "tracker_links") {
            return Ok(TaskListAction::TrackerLinks);
        }
        if str_equal(value, "template_create") {
            return Ok(TaskListAction::TemplateCreate);
        }
        if str_equal(value, "template_list") {
            return Ok(TaskListAction::TemplateList);
        }
        if str_equal(value, "template_get") {
            return Ok(TaskListAction::TemplateGet);
        }
        if str_equal(value, "template_update") {
            return Ok(TaskListAction::TemplateUpdate);
        }
        if str_equal(value, "template_instantiate") {
            return Ok(TaskListAction::TemplateInstantiate);
        }
        if str_equal(value, "recurring_create") {
            return Ok(TaskListAction::RecurringCreate);
        }
        if str_equal(value, "recurring_list") {
            return Ok(TaskListAction::RecurringList);
        }
        if str_equal(value, "recurring_get") {
            return Ok(TaskListAction::RecurringGet);
        }
        if str_equal(value, "recurring_update") {
            return Ok(TaskListAction::RecurringUpdate);
        }
        if str_equal(value, "recurring_materialize") {
            return Ok(TaskListAction::RecurringMaterialize);
        }
        proof {
            assert forall|x: Self| x.name() != value@ by {
                match x {
                    TaskListAction::Create => {},
                    TaskListAction::List => {},
                    TaskListAction::Get => {},
                    TaskListAction::Update => {},
                    TaskListAction::Claim => {},
                    TaskListAction::Comment => {},
                    TaskListAction::Comments => {},
                    TaskListAction::GoalPlan => {},
                    TaskListAction::TrackerImport => {},
                    TaskListAction::TrackerLinks => {},
                    TaskListAction::TemplateCreate => {},
                    TaskListAction::TemplateList => {},
                    TaskListAction::TemplateGet => {},
                    TaskListAction::TemplateUpdate => {},
                    TaskListAction::TemplateInstantiate => {},
                    TaskListAction::RecurringCreate => {},
                    TaskListAction::RecurringList => {},
                    TaskListAction::RecurringGet => {},
                    TaskListAction::RecurringUpdate => {},
                    TaskListAction::RecurringMaterialize => {},
                }
            }
        }
        Err(WorkError::UnknownValue { value_kind: ValueKind::TaskListAction, value: owned(value) })
    }
}

/// `r` is what reading an optional status gives.
pub open spec fn status_read(v: Option<String>, r: Result<Option<TaskStatus>, WorkError>) -> bool {
    match v {
        None => r matches Ok(None),
        Some(s) => match r {
            Ok(Some(x)) => x.name() == s@,
            Ok(None) => false,
            Err(e) => (forall|x: TaskStatus| x.name() != s@) && e.is_unknown_value(ValueKind::TaskStatus, s@),
        },
    }
}

/// `r` is what reading an optional priority gives.
pub open spec fn priority_read(v: Option<String>, r: Result<Option<TaskPriority>, WorkError>) -> bool {
    match v {
        None => r matches Ok(None),
        Some(s) => match r {
            Ok(Some(x)) => x.name() == s@,
            Ok(None) => false,
            Err(e) => (forall|x: TaskPriority| x.name() != s@) && e.is_unknown_value(ValueKind::TaskPriority, s@),
        },
    }
}

/// Reads an optional task status.
pub fn parse_task_status(value: &Option<String>) -> (r: Result<Option<TaskStatus>, WorkError>)
    ensures
        status_read(*value, r),
{
    match value {
        None => Ok(None),
        Some(s) => match TaskStatus::parse(s.as_str()) {
            Ok(x) => Ok(Some(x)),
            Err(e) => Err(e),
        },
    }
}

/// Reads an optional task priority.
pub fn parse_task_priority(value: &Option<String>) -> (r: Result<Option<TaskPriority>, WorkError>)
    ensures
        priority_read(*value, r),
{
    match value {
        None => Ok(None),
        Some(s) => match TaskPriority::parse(s.as_str()) {
            Ok(x) => Ok(Some(x)),
            Err(e) => Err(e),
        },
    }
}

/// Reads a goal plan preset; without one, a delivery plan.
pub fn parse_goal_plan_preset(value: Option<&str>) -> (r: Result<GoalPlanPreset, WorkError>)
    ensures
        match value {
            None => r == Ok::<GoalPlanPreset, WorkError>(GoalPlanPreset::Delivery),
            Some(s) => match r {
                Ok(x) => x.name() == s@,
                Err(e) => (forall|x: GoalPlanPreset| x.name() != s@) && e.is_unknown_value(ValueKind::GoalPlanPreset, s@),
            },
        },
{
    match value {
        None => Ok(GoalPlanPreset::Delivery),
        Some(s) => GoalPlanPreset::parse(s),
    }
}

/// The list a request names, else the default list.
pub open spec fn list_or_default(list_id: Option<String>) -> Seq<char> {
    match list_id {
        Some(l) => l@,
        None => "default"@,
    }
}

fn list_key_or_default(list_id: &Option<String>) -> (r: String)
    ensures
        r@ == list_or_default(*list_id),
{
    match list_id {
        Some(l) => l.clone(),
        None => owned("default"),
    }
}

/// An optional status that is absent or names a status.
pub open spec fn status_ok(v: Option<String>) -> bool {
    match v {
        None => true,
        Some(s) => exists|x: TaskStatus| x.name() == s@,
    }
}

/// An optional priority that is absent or names a priority.
pub open spec fn priority_ok(v: Option<String>) -> bool {
    match v {
        None => true,
        Some(s) => exists|x: TaskPriority| x.name() == s@,
    }
}

/// The status a request sets, or `default` when it names none.
pub open spec fn status_or(v: Option<String>, t: TaskStatus, default: TaskStatus) -> bool {
    match v {
        None => t == default,
        Some(s) => t.name() == s@,
    }
}

/// The priority a request sets, or `default` when it names none.
pub open spec fn priority_or(v: Option<String>, t: TaskPriority, default: TaskPriority) -> bool {
    match v {
        None => t == default,
        Some(s) => t.name() == s@,
    }
}

/// Dependencies a request names, else none.
pub open spec fn deps_or_none(b: Option<Vec<String>>) -> Seq<String> {
    match b {
        Some(v) => v@,
        None => Seq::empty(),
    }
}

/// The request lacks the named parameter.
pub open spec fn is_missing(e: WorkError, name: Seq<char>) -> bool {
    e matches WorkError::MissingParameter { name: n } && n@ == name
}

/// The task a `create` request asks for: a subject is required; the list
/// defaults to `default`, the status to pending, the priority to medium and
/// the dependencies to none.
pub fn create_task_request(p: TaskListParams) -> (r: Result<NewTask, WorkError>)
    ensures
        p.subject is None ==> (r matches Err(e) && is_missing(e, "subject"@)),
        p.subject is Some && !status_ok(p.status) ==> (r matches Err(e) && status_read(p.status, Err(e))),
        p.subject is Some && status_ok(p.status) && !priority_ok(p.priority) ==> (r matches Err(e) && priority_read(
            p.priority,
            Err(e),
        )),
        p.subject is Some && status_ok(p.status) && priority_ok(p.priority) ==> (r matches Ok(t) && {
            &&& t.title == p.subject->0
            &&& t.list_key matches Some(l) && l@ == list_or_default(p.list_id)
            &&& t.description == p.description
            &&& status_or(p.status, t.status, TaskStatus::Pending)
            &&& priority_or(p.priority, t.priority, TaskPriority::Medium)
            &&& t.goal_id == p.goal_id && t.parent_task_id == p.parent_task_id && t.owner == p.owner
            &&& t.project_id == p.project_id && t.session_key == p.session_key
            &&& t.blocked_by@ == deps_or_none(p.blocked_by)
        }),
{
    let title = match p.subject {
        Some(s) => s,
        None => return Err(WorkError::MissingParameter { name: owned("subject") }),
    };
    let list_key = list_key_or_default(&p.list_id);
    let status = match parse_task_status(&p.status) {
        Ok(s) => s,
        Err(e) => return Err(e),
    };
    let priority = match parse_task_priority(&p.priority) {
        Ok(x) => x,
        Err(e) => return Err(e),
    };
    let blocked_by = match p.blocked_by {
        Some(b) => b,
        None => Vec::new(),
    };
    Ok(NewTask {
        list_key: Some(list_key),
        title,
        description: p.description,
        status: match status {
            Some(s) => s,
            None => TaskStatus::Pending,
        },
        priority: match priority {
            Some(x) => x,
            None => TaskPriority::Medium,
        },
        goal_id: p.goal_id,
        parent_task_id: p.parent_task_id,
        owner: p.owner,
        project_id: p.project_id,
        session_key: p.session_key,
        blocked_by,
    })
}



/// The filter a `list` request asks for: the named list, else `default`,
/// and the other fields as given.
pub fn list_task_filter(p: TaskListParams) -> (r: Result<TaskFilter, WorkError>)
    ensures
        !status_ok(p.status) ==> (r matches Err(e) && status_read(p.status, Err(e))),
        status_ok(p.status) ==> (r matches Ok(f) && {
            &&& f.list_key matches Some(l) && l@ == list_or_default(p.list_id)
            &&& f.goal_id == p.goal_id && f.project_id == p.project_id && f.session_key == p.session_key
            &&& f.owner == p.owner
            &&& status_read(p.status, Ok(f.status))
        }),
{
    let list_key = list_key_or_default(&p.list_id);
    let status = match parse_task_status(&p.status) {
        Ok(s) => s,
        Err(e) => return Err(e),
    };
    Ok(TaskFilter {
        list_key: Some(list_key),
        goal_id: p.goal_id,
        project_id: p.project_id,
        session_key: p.session_key,
        owner: p.owner,
        status,
    })
}

/// The patch an `update` request asks for: every field as given, absent
/// ones unchanged.
pub fn update_task_patch(p: TaskListParams) -> (r: Result<TaskPatch, WorkError>)
    ensures
        !status_ok(p.status) ==> (r matches Err(e) && status_read(p.status, Err(e))),
        status_ok(p.status) && !priority_ok(p.priority) ==> (r matches Err(e) && priority_read(p.priority, Err(e))),
        status_ok(p.status) && priority_ok(p.priority) ==> (r matches Ok(t) && {
            &&& t.list_key == p.list_id && t.title == p.subject && t.description == p.description
            &&& status_read(p.status, Ok(t.status))
            &&& priority_read(p.priority, Ok(t.priority))
            &&& t.goal_id == p.goal_id && t.parent_task_id == p.parent_task_id && t.owner == p.owner
            &&& t.project_id == p.project_id && t.session_key == p.session_key
            &&& t.blocked_by == p.blocked_by
        }),
{
    let status = match parse_task_status(&p.status) {
        Ok(s) => s,
        Err(e) => return Err(e),
    };
    let priority = match parse_task_priority(&p.priority) {
        Ok(x) => x,
        Err(e) => return Err(e),
    };
    Ok(TaskPatch {
        list_key: p.list_id,
        title: p.subject,
        description: p.description,
        status,
        priority,
        goal_id: p.goal_id,
        parent_task_id: p.parent_task_id,
        owner: p.owner,
        project_id: p.project_id,
        session_key: p.session_key,
        blocked_by: p.blocked_by,
    })
}

/// Who a `claim` binds the task to: the named owner, else the claiming
/// session, else `agent`.
pub fn claim_owner(owner: Option<String>, session_key: &Option<String>) -> (r: String)
    ensures
        r@ == match owner {
            Some(o) => o@,
            None => match *session_key {
                Some(s) => s@,
                None => "agent"@,
            },
        },
{
    match owner {
        Some(o) => o,
        None => match session_key {
            Some(s) => s.clone(),
            None => owned("agent"),
        },
    }
}

/// The template a `template_create` request asks for: a subject is
/// required; the priority defaults to medium and the dependencies to none.
pub fn create_template_request(p: TaskListParams) -> (r: Result<NewTaskTemplate, WorkError>)
    ensures
        p.subject is None ==> (r matches Err(e) && is_missing(e, "subject"@)),
        p.subject is Some && !priority_ok(p.priority) ==> (r matches Err(e) && priority_read(p.priority, Err(e))),
        p.subject is Some && priority_ok(p.priority) ==> (r matches Ok(t) && {
            &&& t.title == p.subject->0 && t.slug == p.slug && t.description == p.description
            &&& priority_or(p.priority, t.priority, TaskPriority::Medium)
            &&& t.list_key == p.list_id && t.goal_id == p.goal_id && t.parent_template_id == p.parent_template_id
            &&& t.owner == p.owner && t.project_id == p.project_id
            &&& t.blocked_by@ == deps_or_none(p.blocked_by)
        }),
{
    let title = match p.subject {
        Some(s) => s,
        None => return Err(WorkError::MissingParameter { name: owned("subject") }),
    };
    let priority = match parse_task_priority(&p.priority) {
        Ok(x) => x,
        Err(e) => return Err(e),
    };
    let blocked_by = match p.blocked_by {
        Some(b) => b,
        None => Vec::new(),
    };
    Ok(NewTaskTemplate {
        slug: p.slug,
        title,
        description: p.description,
        priority: match priority {
            Some(x) => x,
            None => TaskPriority::Medium,
        },
        list_key: p.list_id,
        goal_id: p.goal_id,
        parent_template_id: p.parent_template_id,
        owner: p.owner,
        project_id: p.project_id,
        blocked_by,
    })
}

/// The patch a `template_update` request asks for.
pub fn update_template_patch(p: TaskListParams) -> (r: Result<TaskTemplatePatch, WorkError>)
    ensures
        !priority_ok(p.priority) ==> (r matches Err(e) && priority_read(p.priority, Err(e))),
        priority_ok(p.priority) ==> (r matches Ok(t) && {
            &&& t.slug == p.slug && t.title == p.subject && t.description == p.description
            &&& priority_read(p.priority, Ok(t.priority))
            &&& t.list_key == p.list_id && t.goal_id == p.goal_id && t.parent_template_id == p.parent_template_id
            &&& t.owner == p.owner && t.project_id == p.project_id
            &&& t.blocked_by == p.blocked_by
        }),
{
    let priority = match parse_task_priority(&p.priority) {
        Ok(x) => x,
        Err(e) => return Err(e),
    };
    Ok(TaskTemplatePatch {
        slug: p.slug,
        title: p.subject,
        description: p.description,
        priority,
        list_key: p.list_id,
        goal_id: p.goal_id,
        parent_template_id: p.parent_template_id,
        owner: p.owner,
        project_id: p.project_id,
        blocked_by: p.blocked_by,
    })
}

/// The first of two optional values that is present.
pub open spec fn first_given(a: Option<String>, b: Option<String>) -> Option<String> {
    match a {
        Some(x) => Some(x),
        None => b,
    }
}

fn first_present(a: Option<String>, b: Option<String>) -> (r: Option<String>)
    ensures
        r == first_given(a, b),
{
    match a {
        Some(x) => Some(x),
        None => b,
    }
}

/// The comment a `comment` request asks for: the task's id and a body are
/// required.
pub fn comment_request(p: TaskListParams) -> (r: Result<NewTaskComment, WorkError>)
    ensures
        p.id is None ==> (r matches Err(e) && is_missing(e, "id"@)),
        p.id is Some && p.body is None ==> (r matches Err(e) && is_missing(e, "body"@)),
        p.id is Some && p.body is Some ==> r == Ok::<NewTaskComment, WorkError>(
            NewTaskComment { task_id: p.id->0, author: p.author, body: p.body->0 },
        ),
{
    let task_id = match p.id {
        Some(i) => i,
        None => return Err(WorkError::MissingParameter { name: owned("id") }),
    };
    let body = match p.body {
        Some(b) => b,
        None => return Err(WorkError::MissingParameter { name: owned("body") }),
    };
    Ok(NewTaskComment { task_id, author: p.author, body })
}

/// The plan a `goal_plan` request asks for: the goal (`id`, else
/// `goal_id`) is required; the preset defaults to delivery and
/// instantiating to no.
pub fn goal_plan_request(p: TaskListParams) -> (r: Result<GoalPlanRequest, WorkError>)
    ensures
        first_given(p.id, p.goal_id) is None ==> (r matches Err(e) && is_missing(e, "goal_id"@)),
        first_given(p.id, p.goal_id) is Some ==> match p.preset {
            Some(s) if forall|x: GoalPlanPreset| x.name() != s@ => r matches Err(e) && e.is_unknown_value(ValueKind::GoalPlanPreset, s@),
            _ => r matches Ok(g) && {
                &&& g.goal_id == first_given(p.id, p.goal_id)->0
                &&& match p.preset {
                    Some(s) => g.preset.name() == s@,
                    None => g.preset == GoalPlanPreset::Delivery,
                }
                &&& g.list_key == p.list_id && g.owner == p.owner && g.project_id == p.project_id
                &&& g.instantiate == (p.instantiate == Some(true))
            },
        },
{
    let goal_id = match first_present(p.id, p.goal_id) {
        Some(g) => g,
        None => return Err(WorkError::MissingParameter { name: owned("goal_id") }),
    };
    let preset = match &p.preset {
        Some(s) => match GoalPlanPreset::parse(s.as_str()) {
            Ok(x) => x,
            Err(e) => return Err(e),
        },
        None => GoalPlanPreset::Delivery,
    };
    let instantiate = match p.instantiate {
        Some(b) => b,
        None => false,
    };
    Ok(GoalPlanRequest { goal_id, preset, list_key: p.list_id, owner: p.owner, project_id: p.project_id, instantiate })
}

/// The import a `tracker_import` request asks for: the provider, remote id,
/// remote title and remote status are required, in that order; the task is
/// `id`, else `task_id`, if either is given.
pub fn tracker_import_request(p: TaskListParams) -> (r: Result<TrackerImportRequest, WorkError>)
    ensures
        p.provider is None ==> (r matches Err(e) && is_missing(e, "provider"@)),
        p.provider is Some && p.remote_id is None ==> (r matches Err(e) && is_missing(e, "remote_id"@)),
        p.provider is Some && p.remote_id is Some && p.remote_title is None ==> (r matches Err(e) && is_missing(e, "remote_title"@)),
        p.provider is Some && p.remote_id is Some && p.remote_title is Some && p.remote_status is None ==> (r matches Err(e)
            && is_missing(e, "remote_status"@)),
        p.provider is Some && p.remote_id is Some && p.remote_title is Some && p.remote_status is Some ==> r
            == Ok::<TrackerImportRequest, WorkError>(TrackerImportRequest {
            provider: p.provider->0,
            remote_id: p.remote_id->0,
            remote_title: p.remote_title->0,
            remote_body: p.remote_body,
            remote_status: p.remote_status->0,
            remote_url: p.remote_url,
            remote_updated_at: p.remote_updated_at,
            task_id: first_given(p.id, p.task_id),
            list_key: p.list_id,
            goal_id: p.goal_id,
            owner: p.owner,
            project_id: p.project_id,
        }),
{
    let provider = match p.provider {
        Some(x) => x,
        None => return Err(WorkError::MissingParameter { name: owned("provider") }),
    };
    let remote_id = match p.remote_id {
        Some(x) => x,
        None => return Err(WorkError::MissingParameter { name: owned("remote_id") }),
    };
    let remote_title = match p.remote_title {
        Some(x) => x,
        None => return Err(WorkError::MissingParameter { name: owned("remote_title") }),
    };
    let remote_status = match p.remote_status {
        Some(x) => x,
        None => return Err(WorkError::MissingParameter { name: owned("remote_status") }),
    };
    Ok(TrackerImportRequest {
        provider,
        remote_id,
        remote_title,
        remote_body: p.remote_body,
        remote_status,
        remote_url: p.remote_url,
        remote_updated_at: p.remote_updated_at,
        task_id: first_present(p.id, p.task_id),
        list_key: p.list_id,
        goal_id: p.goal_id,
        owner: p.owner,
        project_id: p.project_id,
    })
}

/// The links a `tracker_links` request lists: of the task `id`, else
/// `task_id`, and of the provider, if given.
pub fn tracker_link_filter(p: TaskListParams) -> (r: ExternalTaskLinkFilter)
    ensures
        r == (ExternalTaskLinkFilter { task_id: first_given(p.id, p.task_id), provider: p.provider, limit: p.limit }),
{
    ExternalTaskLinkFilter { task_id: first_present(p.id, p.task_id), provider: p.provider, limit: p.limit }
}

/// The templates a `template_list` request lists.
pub fn template_filter(p: TaskListParams) -> (r: TaskTemplateFilter)
    ensures
        r == (TaskTemplateFilter { goal_id: p.goal_id, project_id: p.project_id, parent_template_id: p.parent_template_id }),
{
    TaskTemplateFilter { goal_id: p.goal_id, project_id: p.project_id, parent_template_id: p.parent_template_id }
}

/// The instantiation a `template_instantiate` request asks for: the
/// template (`id`, else `template_id`) is required.
pub fn instantiate_request(p: TaskListParams) -> (r: Result<InstantiateTaskTemplate, WorkError>)
    ensures
        first_given(p.id, p.template_id) is None ==> (r matches Err(e) && is_missing(e, "template_id"@)),
        first_given(p.id, p.template_id) is Some ==> r == Ok::<InstantiateTaskTemplate, WorkError>(InstantiateTaskTemplate {
            template_id: first_given(p.id, p.template_id)->0,
            list_key: p.list_id,
            goal_id: p.goal_id,
            parent_task_id: p.parent_task_id,
            owner: p.owner,
            project_id: p.project_id,
        }),
{
    let template_id = match first_present(p.id, p.template_id) {
        Some(t) => t,
        None => return Err(WorkError::MissingParameter { name: owned("template_id") }),
    };
    Ok(InstantiateTaskTemplate {
        template_id,
        list_key: p.list_id,
        goal_id: p.goal_id,
        parent_task_id: p.parent_task_id,
        owner: p.owner,
        project_id: p.project_id,
    })
}

/// The recurring task a `recurring_create` request asks for: a name, a
/// template and a schedule are required, in that order; it is enabled
/// unless the request says otherwise.
pub fn recurring_create_request(p: TaskListParams) -> (r: Result<NewRecurringTask, WorkError>)
    ensures
        p.name is None ==> (r matches Err(e) && is_missing(e, "name"@)),
        p.name is Some && p.template_id is None ==> (r matches Err(e) && is_missing(e, "template_id"@)),
        p.name is Some && p.template_id is Some && p.schedule_json is None ==> (r matches Err(e) && is_missing(e, "schedule"@)),
        p.name is Some && p.template_id is Some && p.schedule_json is Some ==> r == Ok::<NewRecurringTask, WorkError>(
            NewRecurringTask {
                name: p.name->0,
                template_id: p.template_id->0,
                schedule_json: p.schedule_json->0,
                enabled: p.enabled != Some(false),
                list_key: p.list_id,
                goal_id: p.goal_id,
                owner: p.owner,
                project_id: p.project_id,
            },
        ),
{
    let name = match p.name {
        Some(x) => x,
        None => return Err(WorkError::MissingParameter { name: owned("name") }),
    };
    let template_id = match p.template_id {
        Some(x) => x,
        None => return Err(WorkError::MissingParameter { name: owned("template_id") }),
    };
    let schedule_json = match p.schedule_json {
        Some(x) => x,
        None => return Err(WorkError::MissingParameter { name: owned("schedule") }),
    };
    let enabled = match p.enabled {
        Some(b) => b,
        None => true,
    };
    Ok(NewRecurringTask { name, template_id, schedule_json, enabled, list_key: p.list_id, goal_id: p.goal_id, owner: p.owner, project_id: p.project_id })
}

/// The recurring tasks a `recurring_list` request lists.
pub fn recurring_filter(p: TaskListParams) -> (r: RecurringTaskFilter)
    ensures
        r == (RecurringTaskFilter { template_id: p.template_id, goal_id: p.goal_id, project_id: p.project_id, enabled: p.enabled }),
{
    RecurringTaskFilter { template_id: p.template_id, goal_id: p.goal_id, project_id: p.project_id, enabled: p.enabled }
}

/// The patch a `recurring_update` request asks for: every field as given.
pub fn recurring_patch(p: TaskListParams) -> (r: RecurringTaskPatch)
    ensures
        r == (RecurringTaskPatch {
            name: p.name,
            template_id: p.template_id,
            schedule_json: p.schedule_json,
            enabled: p.enabled,
            list_key: p.list_id,
            goal_id: p.goal_id,
            owner: p.owner,
            project_id: p.project_id,
        }),
{
    RecurringTaskPatch {
        name: p.name,
        template_id: p.template_id,
        schedule_json: p.schedule_json,
        enabled: p.enabled,
        list_key: p.list_id,
        goal_id: p.goal_id,
        owner: p.owner,
        project_id: p.project_id,
    }
}

/// What a `recurring_materialize` request asks for.
#[derive(Debug, Clone)]
pub struct MaterializeRequest {
    pub recurring_id: Option<String>,
    pub limit: Option<u32>,
    pub force: bool,
    pub now_ms: Option<u64>,
}

/// The materialization a `recurring_materialize` request asks for: of the
/// recurring task `id`, else `recurring_id`, if either is given; not forced
/// unless the request says so.
pub fn materialize_request(p: TaskListParams) -> (r: MaterializeRequest)
    ensures
        r == (MaterializeRequest {
            recurring_id: first_given(p.id, p.recurring_id),
            limit: p.limit,
            force: p.force == Some(true),
            now_ms: p.now_ms,
        }),
{
    let force = match p.force {
        Some(b) => b,
        None => false,
    };
    MaterializeRequest { recurring_id: first_present(p.id, p.recurring_id), limit: p.limit, force, now_ms: p.now_ms }
}

} // verus!
