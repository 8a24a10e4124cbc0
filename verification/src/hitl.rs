//! Conductor HITL: the tasks the conductor paused for the operator, and the
//! operator's resolution of one of them.
use vstd::prelude::*;

use crate::text::str_eq;

verus! {

/// The status of a task paused for the operator.
pub const AWAITING: &'static str = "awaiting_operator_resolution";

pub open spec fn awaiting_view() -> Seq<char> {
    "awaiting_operator_resolution"@
}

/// A task of the coordination queue, as far as the conductor reads it.
#[derive(Debug, Clone)]
pub struct QueueTask {
    pub id: String,
    pub title: String,
    pub project: String,
    pub status: String,
    pub build_codename: Option<String>,
    pub awaiting_assertion_id: Option<String>,
    pub resolution_deadline: Option<String>,
    pub priority: String,
    pub added: Option<String>,
}

/// A task paused for the operator, as listed.
#[derive(Debug, Clone)]
pub struct HitlTask {
    pub id: String,
    pub title: String,
    pub project: String,
    pub build_codename: Option<String>,
    pub awaiting_assertion_id: Option<String>,
    pub resolution_deadline: Option<String>,
    pub priority: String,
    pub added: Option<String>,
}

/// The operator's resolution.
#[derive(Debug, Clone)]
pub struct ResolveRequest {
    pub action: String,
}

/// The answer to a resolution.
#[derive(Debug, Clone, PartialEq, Eq)]
pub struct ResolveResponse {
    pub ok: bool,
    pub new_status: String,
}

/// The listed form of a queue task.
pub open spec fn hitl_of(t: QueueTask) -> HitlTask {
    HitlTask {
        id: t.id,
        title: t.title,
        project: t.project,
        build_codename: t.build_codename,
        awaiting_assertion_id: t.awaiting_assertion_id,
        resolution_deadline: t.resolution_deadline,
        priority: t.priority,
        added: t.added,
    }
}

/// The tasks of `ts` that await the operator, in queue order.
pub open spec fn awaiting_tasks(ts: Seq<QueueTask>) -> Seq<HitlTask>
    decreases ts.len(),
{
    if ts.len() == 0 {
        Seq::empty()
    } else if ts.last().status@ == awaiting_view() {
        awaiting_tasks(ts.drop_last()).push(hitl_of(ts.last()))
    } else {
        awaiting_tasks(ts.drop_last())
    }
}

fn hitl_task(t: &QueueTask) -> (h: HitlTask)
    ensures
        h == hitl_of(*t),
{
    HitlTask {
        id: t.id.clone(),
        title: t.title.clone(),
        project: t.project.clone(),
        build_codename: t.build_codename.clone(),
        awaiting_assertion_id: t.awaiting_assertion_id.clone(),
        resolution_deadline: t.resolution_deadline.clone(),
        priority: t.priority.clone(),
        added: t.added.clone(),
    }
}

/// The tasks awaiting the operator, in queue order.
pub fn list_awaiting(tasks: &Vec<QueueTask>) -> (r: Vec<HitlTask>)
    ensures
        r@ == awaiting_tasks(tasks@),
{
    let mut r: Vec<HitlTask> = Vec::new();
    let mut i: usize = 0;
    while i < tasks.len()
        invariant
            i <= tasks.len(),
            r@ == awaiting_tasks(tasks@.take(i as int)),
        decreases tasks.len() - i,
    {
        assert(tasks@.take(i + 1).drop_last() =~= tasks@.take(i as int));
        if str_eq(tasks[i].status.as_str(), AWAITING) {
            r.push(hitl_task(&tasks[i]));
        }
        i += 1;
    }
    assert(tasks@.take(tasks.len() as int) =~= tasks@);
    r
}

/// The status an action moves a task to: `approve` re-queues it
/// (`pending`), `reject` fails it; any other action is refused.
pub open spec fn status_for_action(action: Seq<char>) -> Option<Seq<char>> {
    if action == "approve"@ {
        Some("pending"@)
    } else if action == "reject"@ {
        Some("failed"@)
    } else {
        None
    }
}

/// The status an action moves a task to.
pub fn resolve_action(action: &str) -> (r: Option<&'static str>)
    ensures
        match r {
            Some(s) => status_for_action(action@) == Some(s@),
            None => status_for_action(action@) is None,
        },
{
    if str_eq(action, "approve") {
        Some("pending")
    } else if str_eq(action, "reject") {
        Some("failed")
    } else {
        None
    }
}

/// Why a resolution is refused.
#[derive(Debug, Clone, Copy, PartialEq, Eq, Structural)]
pub enum ResolveError {
    /// 422: the action is neither `approve` nor `reject`.
    BadAction,
    /// 404: no task has the id.
    NotFound,
    /// 409: the task is not awaiting the operator.
    NotAwaiting,
}

/// The index of the first task with the id.
pub open spec fn first_with_id(ts: Seq<QueueTask>, id: Seq<char>, from: int) -> Option<int>
    decreases ts.len() - from,
{
    if from < 0 || from >= ts.len() {
        None
    } else if ts[from].id@ == id {
        Some(from)
    } else {
        first_with_id(ts, id, from + 1)
    }
}

/// A task after its resolution: the new status, and no assertion or deadline.
pub open spec fn resolved(t: QueueTask, status: Seq<char>) -> bool {
    t.status@ == status && t.awaiting_assertion_id is None && t.resolution_deadline is None
}

/// Resolve the task `task_id` of the queue by `action`.  The action is
/// checked first (422), then the first task with the id is found (404) and
/// must be awaiting the operator (409); it then takes the new status and
/// loses its assertion and deadline, and no other task changes.  On a
/// refusal the queue is left as it was.
pub fn resolve_task(tasks: &mut Vec<QueueTask>, task_id: &str, action: &str) -> (r: Result<
    ResolveResponse,
    ResolveError,
>)
    ensures
        status_for_action(action@) is None ==> r == Err::<ResolveResponse, ResolveError>(
            ResolveError::BadAction,
        ),
        status_for_action(action@) is Some && first_with_id(old(tasks)@, task_id@, 0) is None ==> r
            == Err::<ResolveResponse, ResolveError>(ResolveError::NotFound),
        match first_with_id(old(tasks)@, task_id@, 0) {
            Some(k) => status_for_action(action@) is Some && old(tasks)@[k].status@ != awaiting_view()
                ==> r == Err::<ResolveResponse, ResolveError>(ResolveError::NotAwaiting),
            None => true,
        },
        (status_for_action(action@) is Some && (first_with_id(old(tasks)@, task_id@, 0) matches Some(k)
            && old(tasks)@[k].status@ == awaiting_view())) ==> r is Ok,
        r is Err ==> final(tasks)@ == old(tasks)@,
        r matches Ok(resp) ==> ({
            let k = first_with_id(old(tasks)@, task_id@, 0)->0;
            &&& status_for_action(action@) == Some(resp.new_status@)
            &&& resp.ok
            &&& first_with_id(old(tasks)@, task_id@, 0) is Some
            &&& old(tasks)@[k].status@ == awaiting_view()
            &&& final(tasks)@.len() == old(tasks)@.len()
            &&& resolved(final(tasks)@[k], resp.new_status@)
            &&& final(tasks)@[k].id == old(tasks)@[k].id
            &&& final(tasks)@[k].title == old(tasks)@[k].title
            &&& final(tasks)@[k].project == old(tasks)@[k].project
            &&& final(tasks)@[k].build_codename == old(tasks)@[k].build_codename
            &&& final(tasks)@[k].priority == old(tasks)@[k].priority
            &&& final(tasks)@[k].added == old(tasks)@[k].added
            &&& forall|j: int| 0 <= j < old(tasks)@.len() && j != k ==> final(tasks)@[j] == old(tasks)@[j]
        }),
{
    let new_status = match resolve_action(action) {
        Some(s) => s,
        None => {
            return Err(ResolveError::BadAction);
        },
    };
    let mut k: usize = 0;
    let mut found = false;
    while k < tasks.len() && !found
        invariant
            k <= tasks.len(),
            first_with_id(tasks@, task_id@, 0) == first_with_id(tasks@, task_id@, k as int),
            found ==> k < tasks.len() && tasks@[k as int].id@ == task_id@,
        decreases tasks.len() - k, if found { 0int } else { 1int },
    {
        if str_eq(tasks[k].id.as_str(), task_id) {
            found = true;
        } else {
            k += 1;
        }
    }
    if !found {
        return Err(ResolveError::NotFound);
    }
    if !str_eq(tasks[k].status.as_str(), AWAITING) {
        return Err(ResolveError::NotAwaiting);
    }
    let t = QueueTask {
        id: tasks[k].id.clone(),
        title: tasks[k].title.clone(),
        project: tasks[k].project.clone(),
        status: String::from_str(new_status),
        build_codename: tasks[k].build_codename.clone(),
        awaiting_assertion_id: None,
        resolution_deadline: None,
        priority: tasks[k].priority.clone(),
        added: tasks[k].added.clone(),
    };
    tasks.set(k, t);
    Ok(ResolveResponse { ok: true, new_status: String::from_str(new_status) })
}

} // verus!
