//! The tool layer: requests with text parameters, decoded into calls of the
//! store, and answers that describe the records those calls leave.
use vstd::prelude::*;
use vstd::string::*;
use crate::date::CalendarDate;
use crate::entity::{opt_str_view, ListOptions, ListScope, Model, MovePlacement, ProjectFilter, TodoStatus};
use crate::error::TodoError;
use crate::ids::{parse_uuid, uuid_parsed_from, uuid_text, uuid_text_of};
use crate::service::{has_id, record_of, TodoService};
use crate::text::{
    iso_date_parsed_from, iso_date_text, iso_text_of, lowercase_of, lowercase_text, parse_iso_date,
    rfc3339_of, rfc3339_text, trim_text, trimmed_of,
};

verus! {

/// Why a tool request failed.
#[derive(Clone, Debug, PartialEq, Eq)]
pub enum ToolError {
    Todo(TodoError),
    InvalidDate,
    InvalidScope,
}

impl ToolError {
    pub fn message(&self) -> (r: String)
        ensures
            self matches ToolError::Todo(e) ==> r@ == e.spec_message(),
            self matches ToolError::InvalidDate ==> r@ == "invalid date format, expected YYYY-MM-DD"@,
            self matches ToolError::InvalidScope ==> r@
                == "invalid scope, expected 'today', 'backlog', or YYYY-MM-DD"@,
    {
        match self {
            ToolError::Todo(e) => e.message(),
            ToolError::InvalidDate => String::from_str("invalid date format, expected YYYY-MM-DD"),
            ToolError::InvalidScope => String::from_str(
                "invalid scope, expected 'today', 'backlog', or YYYY-MM-DD",
            ),
        }
    }
}

/// The identifier a parameter names, or `InvalidUuid`.
pub open spec fn id_param(s: Seq<char>) -> Result<u128, TodoError> {
    match uuid_parsed_from(s) {
        Some(u) => Ok(u),
        None => Err(TodoError::InvalidUuid),
    }
}

/// The day a `YYYY-MM-DD` parameter names, surrounding white space ignored.
pub open spec fn date_param(s: Seq<char>) -> Result<CalendarDate, ToolError> {
    match iso_date_parsed_from(trimmed_of(s)) {
        Some(t) => Ok(CalendarDate { year: t.0, month: t.1, day: t.2 }),
        None => Err(ToolError::InvalidDate),
    }
}

/// The scope a parameter names: `today`, `backlog` or `someday` in any case,
/// or a `YYYY-MM-DD` day.
pub open spec fn scope_param(s: Seq<char>, today: CalendarDate) -> Result<ListScope, ToolError> {
    let t = lowercase_of(trimmed_of(s));
    if t == "today"@ {
        Ok(ListScope::Day(today))
    } else if t == "backlog"@ || t == "someday"@ {
        Ok(ListScope::Backlog)
    } else {
        match iso_date_parsed_from(t) {
            Some(d) => Ok(ListScope::Day(CalendarDate { year: d.0, month: d.1, day: d.2 })),
            None => Err(ToolError::InvalidScope),
        }
    }
}

/// `bottom` in any case places at the bottom; anything else at the top.
pub open spec fn placement_param(s: Option<String>) -> MovePlacement {
    match s {
        Some(t) => if lowercase_of(trimmed_of(t@)) == "bottom"@ {
            MovePlacement::Bottom
        } else {
            MovePlacement::Top
        },
        None => MovePlacement::Top,
    }
}

pub open spec fn status_name(s: TodoStatus) -> Seq<char> {
    match s {
        TodoStatus::Pending => "pending"@,
        TodoStatus::Done => "done"@,
    }
}

/// Title of the epic of `m` in `s`, where it has one that is there.
pub open spec fn epic_title_of(s: Seq<Model>, m: Model) -> Option<String> {
    match m.epic_id {
        Some(e) => if has_id(s, e) {
            Some(record_of(s, e).title)
        } else {
            None
        },
        None => None,
    }
}

/// The common fields of an answer describe the record `m` of the store `s`.
pub open spec fn summarizes(
    s: Seq<Model>,
    m: Model,
    id: String,
    title: String,
    status: String,
    scheduled_for: Option<String>,
    project: Option<String>,
    epic_id: Option<String>,
    epic_title: Option<String>,
) -> bool {
    &&& id@ == uuid_text_of(m.id)
    &&& title == m.title
    &&& status@ == status_name(m.status)
    &&& match m.scheduled_for {
        Some(d) => scheduled_for is Some && (d.wf() ==> scheduled_for.unwrap()@ == iso_text_of(
            d.year,
            d.month,
            d.day,
        )),
        None => scheduled_for is None,
    }
    &&& project == m.project
    &&& opt_str_view(epic_id) == match m.epic_id {
        Some(e) => Some(uuid_text_of(e)),
        None => None::<Seq<char>>,
    }
    &&& epic_title == epic_title_of(s, m)
}

/// Reads an identifier parameter.
pub fn parse_todo_id(s: &str) -> (r: Result<u128, TodoError>)
    ensures
        r == id_param(s@),
{
    match parse_uuid(s) {
        Some(u) => Ok(u),
        None => Err(TodoError::InvalidUuid),
    }
}

/// Reads a `YYYY-MM-DD` day, ignoring surrounding white space.
pub fn parse_date(s: &str) -> (r: Result<CalendarDate, ToolError>)
    ensures
        r == date_param(s@),
        r matches Ok(d) ==> d.wf(),
{
    match parse_iso_date(trim_text(s)) {
        Some(t) => Ok(CalendarDate { year: t.0, month: t.1, day: t.2 }),
        None => Err(ToolError::InvalidDate),
    }
}

/// Reads a scope: `today`, `backlog`, `someday`, or a `YYYY-MM-DD` day.
pub fn parse_scope(s: &str, today: CalendarDate) -> (r: Result<ListScope, ToolError>)
    ensures
        r == scope_param(s@, today),
{
    let t = lowercase_text(trim_text(s));
    if t.eq(&String::from_str("today")) {
        Ok(ListScope::Day(today))
    } else if t.eq(&String::from_str("backlog")) || t.eq(&String::from_str("someday")) {
        Ok(ListScope::Backlog)
    } else {
        match parse_iso_date(t.as_str()) {
            Some(d) => Ok(ListScope::Day(CalendarDate { year: d.0, month: d.1, day: d.2 })),
            None => Err(ToolError::InvalidScope),
        }
    }
}

/// Reads a placement: `bottom` in any case, else the top.
pub fn parse_placement(s: &Option<String>) -> (r: MovePlacement)
    ensures
        r == placement_param(*s),
{
    match s {
        Some(t) => {
            let l = lowercase_text(trim_text(t.as_str()));
            if l.eq(&String::from_str("bottom")) {
                MovePlacement::Bottom
            } else {
                MovePlacement::Top
            }
        },
        None => MovePlacement::Top,
    }
}

fn opt_uuid_text(id: Option<u128>) -> (r: Option<String>)
    ensures
        opt_str_view(r) == match id {
            Some(e) => Some(uuid_text_of(e)),
            None => None::<Seq<char>>,
        },
{
    match id {
        Some(e) => Some(uuid_text(e)),
        None => None,
    }
}

fn opt_date_text(d: Option<CalendarDate>) -> (r: Option<String>)
    ensures
        match d {
            Some(d) => r is Some && (d.wf() ==> r.unwrap()@ == iso_text_of(d.year, d.month, d.day)),
            None => r is None,
        },
{
    match d {
        Some(day) => Some(iso_date_text(day)),
        None => None,
    }
}

fn status_text(s: TodoStatus) -> (r: String)
    ensures
        r@ == status_name(s),
{
    String::from_str(s.as_str())
}

fn epic_title(service: &TodoService, m: &Model) -> (r: Option<String>)
    requires
        service.wf(),
    ensures
        r == epic_title_of(service@, *m),
{
    match m.epic_id {
        Some(e) => match service.get_epic_title(e) {
            Ok(t) => Some(t),
            Err(_) => None,
        },
        None => None,
    }
}

/// Parameters of the request that adds a todo.
#[derive(Clone, Debug, PartialEq, Eq)]
pub struct AddTodoParams {
    pub title: String,
    /// `YYYY-MM-DD`, `backlog` or empty for the backlog; absent for today.
    pub scheduled_for: Option<String>,
    pub notes: Option<String>,
    pub project: Option<String>,
    pub epic_id: Option<String>,
}

#[derive(Clone, Debug, PartialEq, Eq)]
pub struct AddTodoResult {
    pub id: String,
    pub title: String,
    pub status: String,
    pub scheduled_for: Option<String>,
    pub project: Option<String>,
    pub epic_id: Option<String>,
    pub epic_title: Option<String>,
    pub message: String,
}

/// The day an add request names: today when absent, the backlog for `backlog`
/// or an empty text, else a `YYYY-MM-DD` day.
pub open spec fn add_day_param(s: Option<String>, today: CalendarDate) -> Result<
    Option<CalendarDate>,
    ToolError,
> {
    match s {
        None => Ok(Some(today)),
        Some(t) => if t@ == "backlog"@ || t@.len() == 0 {
            Ok(None)
        } else {
            match date_param(t@) {
                Ok(d) => Ok(Some(d)),
                Err(e) => Err(e),
            }
        },
    }
}

/// The epic an add request names, if any.
pub open spec fn epic_param(s: Option<String>) -> Result<Option<u128>, TodoError> {
    match s {
        None => Ok(None),
        Some(t) => match id_param(t@) {
            Ok(u) => Ok(Some(u)),
            Err(e) => Err(e),
        },
    }
}

impl AddTodoParams {
    /// Adds the todo that the request describes, at the top of its column.
    pub fn execute(self, service: &mut TodoService, today: CalendarDate) -> (r: Result<
        AddTodoResult,
        ToolError,
    >)
        requires
            old(service).wf(),
        ensures
            final(service).wf(),
            add_day_param(self.scheduled_for, today) matches Err(e) ==> r == Err::<
                AddTodoResult,
                ToolError,
            >(e),
            add_day_param(self.scheduled_for, today) is Ok ==> (epic_param(self.epic_id) matches Err(
                e,
            ) ==> r == Err::<AddTodoResult, ToolError>(ToolError::Todo(e))),
            add_day_param(self.scheduled_for, today) is Ok && self.epic_id is None && old(
                service,
            )@.len() == 0 ==> r is Ok,
            r is Err ==> final(service)@ == old(service)@,
            r matches Ok(res) ==> {
                &&& final(service)@.len() == old(service)@.len() + 1
                &&& final(service)@.drop_last() == old(service)@
                &&& final(service)@.last().title == self.title
                &&& final(service)@.last().notes == self.notes
                &&& Ok::<Option<CalendarDate>, ToolError>(final(service)@.last().scheduled_for)
                    == add_day_param(self.scheduled_for, today)
                &&& summarizes(
                    final(service)@,
                    final(service)@.last(),
                    res.id,
                    res.title,
                    res.status,
                    res.scheduled_for,
                    res.project,
                    res.epic_id,
                    res.epic_title,
                )
            },
    {
        let scheduled_for = match &self.scheduled_for {
            None => Some(today),
            Some(t) => {
                if t.eq(&String::from_str("backlog")) || t.as_str().is_empty() {
                    None
                } else {
                    match parse_date(t.as_str()) {
                        Ok(d) => Some(d),
                        Err(e) => return Err(e),
                    }
                }
            },
        };
        let epic_id = match &self.epic_id {
            None => None,
            Some(t) => match parse_todo_id(t.as_str()) {
                Ok(u) => Some(u),
                Err(e) => return Err(ToolError::Todo(e)),
            },
        };
        let model = match service.add(self.title, scheduled_for, self.notes, self.project, epic_id) {
            Ok(m) => m,
            Err(e) => return Err(ToolError::Todo(e)),
        };
        let location = match model.scheduled_for {
            Some(d) => if d == today {
                String::from_str("today")
            } else {
                iso_date_text(d)
            },
            None => String::from_str("backlog"),
        };
        let mut message = String::from_str("Todo added to ");
        message.append(location.as_str());
        let title = epic_title(service, &model);
        assert(service@.drop_last() =~= old(service)@);
        Ok(AddTodoResult {
            id: uuid_text(model.id),
            title: model.title.clone(),
            status: status_text(model.status),
            scheduled_for: opt_date_text(model.scheduled_for),
            project: copy_project(&model.project),
            epic_id: opt_uuid_text(model.epic_id),
            epic_title: title,
            message,
        })
    }
}

/// Parameters of a request that names one todo.
#[derive(Clone, Debug, PartialEq, Eq)]
pub struct DeleteTodoParams {
    pub id: String,
}

#[derive(Clone, Debug, PartialEq, Eq)]
pub struct DeleteTodoResult {
    pub id: String,
    pub deleted: bool,
    pub message: String,
}

impl DeleteTodoParams {
    /// Deletes the todo; refused while other todos have it as their epic.
    pub fn execute(self, service: &mut TodoService) -> (r: Result<DeleteTodoResult, ToolError>)
        requires
            old(service).wf(),
        ensures
            final(service).wf(),
            id_param(self.id@) matches Err(e) ==> r == Err::<DeleteTodoResult, ToolError>(
                ToolError::Todo(e),
            ) && final(service)@ == old(service)@,
            id_param(self.id@) matches Ok(id) ==> !has_id(old(service)@, id) ==> r == Err::<
                DeleteTodoResult,
                ToolError,
            >(ToolError::Todo(TodoError::NotFound(id))),
            r matches Ok(res) ==> id_param(self.id@) matches Ok(id) && res.id == self.id
                && res.deleted && has_id(old(service)@, id) && !has_id(final(service)@, id)
                && res.message@ == "Todo deleted"@,
    {
        let id = match parse_todo_id(self.id.as_str()) {
            Ok(u) => u,
            Err(e) => return Err(ToolError::Todo(e)),
        };
        let ghost s0 = service@;
        proof {
            if !has_id(s0, id) {
                crate::service::lemma_no_dangling_children(s0, id);
            }
        }
        let deleted = match service.delete(id) {
            Ok(d) => d,
            Err(e) => return Err(ToolError::Todo(e)),
        };
        proof {
            let p = crate::service::pos_of(s0, id);
            crate::service::lemma_record_of(s0, p);
            if has_id(service@, id) {
                let j = choose|j: int| 0 <= j < service@.len() && service@[j].id == id;
                let j0 = if j < p { j } else { j + 1 };
                assert(s0[j0] == service@[j]);
            }
        }
        Ok(DeleteTodoResult { id: self.id, deleted, message: String::from_str("Todo deleted") })
    }
}

#[derive(Clone, Debug, PartialEq, Eq)]
pub struct GetTodoParams {
    pub id: String,
}

#[derive(Clone, Debug, PartialEq, Eq)]
pub struct GetTodoResult {
    pub id: String,
    pub title: String,
    pub status: String,
    pub scheduled_for: Option<String>,
    pub notes: Option<String>,
    pub order_index: i64,
    pub backlog_column: i64,
    pub project: Option<String>,
    pub epic_id: Option<String>,
    pub epic_title: Option<String>,
    pub created_at: String,
    pub updated_at: String,
}

impl GetTodoParams {
    /// Describes the todo in full.
    pub fn execute(self, service: &TodoService) -> (r: Result<GetTodoResult, ToolError>)
        requires
            service.wf(),
        ensures
            id_param(self.id@) matches Err(e) ==> r == Err::<GetTodoResult, ToolError>(
                ToolError::Todo(e),
            ),
            id_param(self.id@) matches Ok(id) ==> !has_id(service@, id) ==> r == Err::<
                GetTodoResult,
                ToolError,
            >(ToolError::Todo(TodoError::NotFound(id))),
            id_param(self.id@) matches Ok(id) ==> has_id(service@, id) ==> (r matches Ok(res) && {
                let m = record_of(service@, id);
                &&& summarizes(
                    service@,
                    m,
                    res.id,
                    res.title,
                    res.status,
                    res.scheduled_for,
                    res.project,
                    res.epic_id,
                    res.epic_title,
                )
                &&& res.notes == m.notes
                &&& res.order_index == m.order_index
                &&& res.backlog_column == m.backlog_column
                &&& res.created_at@ == rfc3339_of(m.created_at)
                &&& res.updated_at@ == rfc3339_of(m.updated_at)
            }),
    {
        let id = match parse_todo_id(self.id.as_str()) {
            Ok(u) => u,
            Err(e) => return Err(ToolError::Todo(e)),
        };
        let model = match service.get(id) {
            Ok(m) => m,
            Err(e) => return Err(ToolError::Todo(e)),
        };
        let title = epic_title(service, &model);
        Ok(GetTodoResult {
            id: uuid_text(model.id),
            title: model.title.clone(),
            status: status_text(model.status),
            scheduled_for: opt_date_text(model.scheduled_for),
            notes: copy_project(&model.notes),
            order_index: model.order_index,
            backlog_column: model.backlog_column,
            project: copy_project(&model.project),
            epic_id: opt_uuid_text(model.epic_id),
            epic_title: title,
            created_at: rfc3339_text(model.created_at),
            updated_at: rfc3339_text(model.updated_at),
        })
    }
}

#[derive(Clone, Debug, PartialEq, Eq)]
pub struct MarkDoneParams {
    pub id: String,
}

#[derive(Clone, Debug, PartialEq, Eq)]
pub struct MarkDoneResult {
    pub id: String,
    pub title: String,
    pub status: String,
    pub scheduled_for: Option<String>,
    pub project: Option<String>,
    pub epic_id: Option<String>,
    pub epic_title: Option<String>,
    pub message: String,
}

impl MarkDoneParams {
    /// Marks the todo done; a backlog todo moves into `today`.
    pub fn execute(self, service: &mut TodoService, today: CalendarDate) -> (r: Result<
        MarkDoneResult,
        ToolError,
    >)
        requires
            old(service).wf(),
        ensures
            final(service).wf(),
            id_param(self.id@) matches Err(e) ==> r == Err::<MarkDoneResult, ToolError>(
                ToolError::Todo(e),
            ),
            id_param(self.id@) matches Ok(id) ==> !has_id(old(service)@, id) ==> r == Err::<
                MarkDoneResult,
                ToolError,
            >(ToolError::Todo(TodoError::NotFound(id))),
            r is Err ==> final(service)@ == old(service)@,
            r matches Ok(res) ==> id_param(self.id@) matches Ok(id) && has_id(final(service)@, id)
                && record_of(final(service)@, id).is_done() && summarizes(
                final(service)@,
                record_of(final(service)@, id),
                res.id,
                res.title,
                res.status,
                res.scheduled_for,
                res.project,
                res.epic_id,
                res.epic_title,
            ) && res.message@ == "Todo marked as done"@,
    {
        let id = match parse_todo_id(self.id.as_str()) {
            Ok(u) => u,
            Err(e) => return Err(ToolError::Todo(e)),
        };
        let ghost s0 = service@;
        let model = match service.mark_done(id, today) {
            Ok(m) => m,
            Err(e) => return Err(ToolError::Todo(e)),
        };
        proof {
            crate::service::lemma_record_of(service@, crate::service::pos_of(s0, id));
        }
        let title = epic_title(service, &model);
        Ok(MarkDoneResult {
            id: uuid_text(model.id),
            title: model.title.clone(),
            status: status_text(model.status),
            scheduled_for: opt_date_text(model.scheduled_for),
            project: copy_project(&model.project),
            epic_id: opt_uuid_text(model.epic_id),
            epic_title: title,
            message: String::from_str("Todo marked as done"),
        })
    }
}

#[derive(Clone, Debug, PartialEq, Eq)]
pub struct MarkPendingParams {
    pub id: String,
}

#[derive(Clone, Debug, PartialEq, Eq)]
pub struct MarkPendingResult {
    pub id: String,
    pub title: String,
    pub status: String,
    pub scheduled_for: Option<String>,
    pub project: Option<String>,
    pub epic_id: Option<String>,
    pub epic_title: Option<String>,
    pub message: String,
}

impl MarkPendingParams {
    /// Marks the todo pending again, at the top of its column.
    pub fn execute(self, service: &mut TodoService) -> (r: Result<MarkPendingResult, ToolError>)
        requires
            old(service).wf(),
        ensures
            final(service).wf(),
            id_param(self.id@) matches Err(e) ==> r == Err::<MarkPendingResult, ToolError>(
                ToolError::Todo(e),
            ),
            id_param(self.id@) matches Ok(id) ==> !has_id(old(service)@, id) ==> r == Err::<
                MarkPendingResult,
                ToolError,
            >(ToolError::Todo(TodoError::NotFound(id))),
            r is Err ==> final(service)@ == old(service)@,
            r matches Ok(res) ==> id_param(self.id@) matches Ok(id) && has_id(final(service)@, id)
                && !record_of(final(service)@, id).is_done() && summarizes(
                final(service)@,
                record_of(final(service)@, id),
                res.id,
                res.title,
                res.status,
                res.scheduled_for,
                res.project,
                res.epic_id,
                res.epic_title,
            ) && res.message@ == "Todo marked as pending"@,
    {
        let id = match parse_todo_id(self.id.as_str()) {
            Ok(u) => u,
            Err(e) => return Err(ToolError::Todo(e)),
        };
        let ghost s0 = service@;
        let model = match service.mark_pending(id) {
            Ok(m) => m,
            Err(e) => return Err(ToolError::Todo(e)),
        };
        proof {
            crate::service::lemma_record_of(service@, crate::service::pos_of(s0, id));
        }
        let title = epic_title(service, &model);
        Ok(MarkPendingResult {
            id: uuid_text(model.id),
            title: model.title.clone(),
            status: status_text(model.status),
            scheduled_for: opt_date_text(model.scheduled_for),
            project: copy_project(&model.project),
            epic_id: opt_uuid_text(model.epic_id),
            epic_title: title,
            message: String::from_str("Todo marked as pending"),
        })
    }
}

#[derive(Clone, Debug, PartialEq, Eq)]
pub struct MoveTodoParams {
    pub id: String,
    /// `today`, `backlog`, or a `YYYY-MM-DD` day.
    pub scope: String,
    /// `top` or `bottom`; the top when absent.
    pub placement: Option<String>,
}

#[derive(Clone, Debug, PartialEq, Eq)]
pub struct MoveTodoResult {
    pub id: String,
    pub title: String,
    pub status: String,
    pub scheduled_for: Option<String>,
    pub project: Option<String>,
    pub epic_id: Option<String>,
    pub epic_title: Option<String>,
    pub message: String,
}

impl MoveTodoParams {
    /// Moves the todo into the named column.
    pub fn execute(self, service: &mut TodoService, today: CalendarDate) -> (r: Result<
        MoveTodoResult,
        ToolError,
    >)
        requires
            old(service).wf(),
        ensures
            final(service).wf(),
            id_param(self.id@) matches Err(e) ==> r == Err::<MoveTodoResult, ToolError>(
                ToolError::Todo(e),
            ),
            id_param(self.id@) is Ok ==> (scope_param(self.scope@, today) matches Err(e) ==> r
                == Err::<MoveTodoResult, ToolError>(e)),
            r is Err ==> final(service)@ == old(service)@,
            r matches Ok(res) ==> id_param(self.id@) matches Ok(id) && scope_param(
                self.scope@,
                today,
            ) matches Ok(scope) && has_id(final(service)@, id) && record_of(
                final(service)@,
                id,
            ).scheduled_for == scope.spec_date() && summarizes(
                final(service)@,
                record_of(final(service)@, id),
                res.id,
                res.title,
                res.status,
                res.scheduled_for,
                res.project,
                res.epic_id,
                res.epic_title,
            ),
    {
        let id = match parse_todo_id(self.id.as_str()) {
            Ok(u) => u,
            Err(e) => return Err(ToolError::Todo(e)),
        };
        let scope = match parse_scope(self.scope.as_str(), today) {
            Ok(s) => s,
            Err(e) => return Err(e),
        };
        let placement = parse_placement(&self.placement);
        let ghost s0 = service@;
        let model = match service.move_to_scope(id, scope, placement) {
            Ok(m) => m,
            Err(e) => return Err(ToolError::Todo(e)),
        };
        proof {
            crate::service::lemma_record_of(service@, crate::service::pos_of(s0, id));
        }
        let destination = match model.scheduled_for {
            Some(d) => if d == today {
                String::from_str("today")
            } else {
                iso_date_text(d)
            },
            None => String::from_str("backlog"),
        };
        let mut message = String::from_str("Todo moved to ");
        message.append(destination.as_str());
        let title = epic_title(service, &model);
        Ok(MoveTodoResult {
            id: uuid_text(model.id),
            title: model.title.clone(),
            status: status_text(model.status),
            scheduled_for: opt_date_text(model.scheduled_for),
            project: copy_project(&model.project),
            epic_id: opt_uuid_text(model.epic_id),
            epic_title: title,
            message,
        })
    }
}

/// Parameters of the request that edits a todo; each given field is changed,
/// in the order title, day, notes, project, epic.
#[derive(Clone, Debug, PartialEq, Eq)]
pub struct UpdateTodoParams {
    pub id: String,
    pub title: Option<String>,
    /// `YYYY-MM-DD`; `null` or empty moves the todo to the backlog.
    pub scheduled_for: Option<String>,
    /// Empty clears the notes.
    pub notes: Option<String>,
    /// `null` or empty clears the project.
    pub project: Option<String>,
    /// `null` or empty unlinks the epic.
    pub epic_id: Option<String>,
}

#[derive(Clone, Debug, PartialEq, Eq)]
pub struct UpdateTodoResult {
    pub id: String,
    pub title: String,
    pub status: String,
    pub scheduled_for: Option<String>,
    pub notes: Option<String>,
    pub project: Option<String>,
    pub epic_id: Option<String>,
    pub epic_title: Option<String>,
    pub message: String,
}

/// An empty text or `null` clears a field.
pub open spec fn clears(t: Seq<char>) -> bool {
    t.len() == 0 || t == "null"@
}

/// Names joined with `", "`.
pub open spec fn joined(ns: Seq<Seq<char>>) -> Seq<char>
    decreases ns.len(),
{
    if ns.len() == 0 {
        Seq::empty()
    } else if ns.len() == 1 {
        ns[0]
    } else {
        joined(ns.drop_last()) + ", "@ + ns.last()
    }
}

pub open spec fn name_if(present: bool, name: Seq<char>) -> Seq<Seq<char>> {
    if present {
        seq![name]
    } else {
        Seq::empty()
    }
}

/// Names of the fields that a request changes, in order.
pub open spec fn changed_fields(p: UpdateTodoParams) -> Seq<Seq<char>> {
    name_if(p.title is Some, "title"@) + name_if(p.scheduled_for is Some, "scheduled_for"@)
        + name_if(p.notes is Some, "notes"@) + name_if(p.project is Some, "project"@) + name_if(
        p.epic_id is Some,
        "epic_id"@,
    )
}

pub open spec fn update_message(p: UpdateTodoParams) -> Seq<char> {
    if changed_fields(p).len() == 0 {
        "Updated: no changes"@
    } else {
        "Updated: "@ + joined(changed_fields(p))
    }
}

/// Appends `name` to a list of changes joined with `", "`.
fn note_change(changes: &mut String, names: Ghost<Seq<Seq<char>>>, first: bool, name: &str) -> (r:
    Ghost<Seq<Seq<char>>>)
    requires
        old(changes)@ == joined(names@),
        first == (names@.len() == 0),
    ensures
        r@ == names@.push(name@),
        final(changes)@ == joined(r@),
{
    let ghost next = names@.push(name@);
    assert(next.drop_last() =~= names@);
    if !first {
        changes.append(", ");
    } else {
        assert(old(changes)@ == Seq::<char>::empty());
        assert(old(changes)@ + name@ == name@);
    }
    changes.append(name);
    Ghost(next)
}

/// The answer's message for the joined names of the changed fields.
fn change_message(changes: &String, names: Ghost<Seq<Seq<char>>>, any: bool) -> (r: String)
    requires
        changes@ == joined(names@),
        any == (names@.len() > 0),
    ensures
        names@.len() == 0 ==> r@ == "Updated: no changes"@,
        names@.len() > 0 ==> r@ == "Updated: "@ + joined(names@),
{
    let mut message = String::from_str("Updated: ");
    if !any {
        message.append("no changes");
        proof {
            reveal_strlit("Updated: ");
            reveal_strlit("no changes");
            reveal_strlit("Updated: no changes");
            assert(message@ =~= "Updated: no changes"@);
        }
    } else {
        message.append(changes.as_str());
    }
    message
}

impl UpdateTodoParams {
    /// Applies each given change in turn. A failing step ends the request;
    /// the changes before it stay.
    #[verifier::rlimit(100)]
    pub fn execute(self, service: &mut TodoService) -> (r: Result<UpdateTodoResult, ToolError>)
        requires
            old(service).wf(),
        ensures
            final(service).wf(),
            id_param(self.id@) matches Err(e) ==> r == Err::<UpdateTodoResult, ToolError>(
                ToolError::Todo(e),
            ) && final(service)@ == old(service)@,
            id_param(self.id@) matches Ok(id) ==> !has_id(old(service)@, id) ==> r == Err::<
                UpdateTodoResult,
                ToolError,
            >(ToolError::Todo(TodoError::NotFound(id))) && final(service)@ == old(service)@,
            id_param(self.id@) matches Ok(id) ==> has_id(old(service)@, id)
                && self.scheduled_for is None && self.project is None && self.epic_id is None
                ==> r is Ok,
            r matches Ok(res) ==> id_param(self.id@) matches Ok(id) && has_id(final(service)@, id)
                && {
                let m = record_of(final(service)@, id);
                &&& self.title matches Some(t) ==> m.title == t
                &&& self.scheduled_for matches Some(d) ==> if clears(d@) {
                    m.scheduled_for is None
                } else {
                    m.scheduled_for matches Some(day) && date_param(d@) == Ok::<
                        CalendarDate,
                        ToolError,
                    >(day)
                }
                &&& self.notes matches Some(n) ==> m.notes == if n@.len() == 0 {
                    None
                } else {
                    Some(n)
                }
                &&& self.project matches Some(p) ==> if clears(p@) {
                    self.epic_id is None ==> m.project is None
                } else {
                    m.project == Some(p)
                }
                &&& self.epic_id matches Some(e) ==> if clears(e@) {
                    m.epic_id is None
                } else {
                    m.epic_id matches Some(u) && id_param(e@) == Ok::<u128, TodoError>(u)
                }
                &&& summarizes(
                    final(service)@,
                    m,
                    res.id,
                    res.title,
                    res.status,
                    res.scheduled_for,
                    res.project,
                    res.epic_id,
                    res.epic_title,
                )
                &&& res.notes == m.notes
                &&& res.message@ == update_message(self)
            },
    {
        let ghost params = self;
        let UpdateTodoParams { id: id_text, title, scheduled_for, notes, project, epic_id } = self;
        let id = match parse_todo_id(id_text.as_str()) {
            Ok(u) => u,
            Err(e) => return Err(ToolError::Todo(e)),
        };
        let mut model = match service.get(id) {
            Ok(m) => m,
            Err(e) => return Err(ToolError::Todo(e)),
        };
        let ghost p = crate::service::pos_of(service@, id);
        proof {
            crate::service::lemma_record_of(service@, p);
        }
        let mut changes = String::new();
        let mut names: Ghost<Seq<Seq<char>>> = Ghost(Seq::empty());
        let mut any = false;
        if let Some(t) = title {
            model = match service.update_title(id, t) {
                Ok(m) => m,
                Err(e) => return Err(ToolError::Todo(e)),
            };
            proof {
                crate::service::lemma_record_of(service@, p);
            }
            names = note_change(&mut changes, names, !any, "title");
            any = true;
        }
        if let Some(d) = scheduled_for {
            let day = if d.as_str().is_empty() || d.eq(&String::from_str("null")) {
                None
            } else {
                match parse_date(d.as_str()) {
                    Ok(day) => Some(day),
                    Err(e) => return Err(e),
                }
            };
            model = match service.update_scheduled_for(id, day) {
                Ok(m) => m,
                Err(e) => return Err(ToolError::Todo(e)),
            };
            proof {
                crate::service::lemma_record_of(service@, p);
            }
            names = note_change(&mut changes, names, !any, "scheduled_for");
            any = true;
        }
        if let Some(n) = notes {
            let value = if n.as_str().is_empty() {
                None
            } else {
                Some(n)
            };
            model = match service.update_notes(id, value) {
                Ok(m) => m,
                Err(e) => return Err(ToolError::Todo(e)),
            };
            proof {
                crate::service::lemma_record_of(service@, p);
            }
            names = note_change(&mut changes, names, !any, "notes");
            any = true;
        }
        if let Some(pr) = project {
            let value = if pr.as_str().is_empty() || pr.eq(&String::from_str("null")) {
                None
            } else {
                Some(pr)
            };
            model = match service.update_project(id, value) {
                Ok(m) => m,
                Err(e) => return Err(ToolError::Todo(e)),
            };
            proof {
                crate::service::lemma_record_of(service@, p);
            }
            names = note_change(&mut changes, names, !any, "project");
            any = true;
        }
        if let Some(e) = epic_id {
            let value = if e.as_str().is_empty() || e.eq(&String::from_str("null")) {
                None
            } else {
                match parse_todo_id(e.as_str()) {
                    Ok(u) => Some(u),
                    Err(err) => return Err(ToolError::Todo(err)),
                }
            };
            model = match service.update_epic_id(id, value) {
                Ok(m) => m,
                Err(err) => return Err(ToolError::Todo(err)),
            };
            proof {
                crate::service::lemma_record_of(service@, p);
            }
            names = note_change(&mut changes, names, !any, "epic_id");
            any = true;
        }
        assert(names@ =~= changed_fields(params));
        let message = change_message(&changes, names, any);
        let epic = epic_title(service, &model);
        Ok(UpdateTodoResult {
            id: uuid_text(model.id),
            title: model.title.clone(),
            status: status_text(model.status),
            scheduled_for: opt_date_text(model.scheduled_for),
            notes: copy_project(&model.notes),
            project: copy_project(&model.project),
            epic_id: opt_uuid_text(model.epic_id),
            epic_title: epic,
            message,
        })
    }
}

#[derive(Clone, Debug, PartialEq, Eq)]
pub struct ListTodosParams {
    /// `today` when absent, `backlog`, or a `YYYY-MM-DD` day.
    pub scope: Option<String>,
    pub include_done: Option<bool>,
    pub include_notes: Option<bool>,
    pub project: Option<String>,
    pub no_project: Option<bool>,
    pub epic_id: Option<String>,
}

/// One listed todo.
#[derive(Clone, Debug, PartialEq, Eq)]
pub struct TodoItem {
    pub id: String,
    pub title: String,
    pub status: String,
    pub scheduled_for: Option<String>,
    pub notes: Option<String>,
    pub order_index: i64,
    pub project: Option<String>,
    pub epic_id: Option<String>,
    pub epic_title: Option<String>,
}

#[derive(Clone, Debug, PartialEq, Eq)]
pub struct ListTodosResult {
    pub todos: Vec<TodoItem>,
    pub scope: String,
    pub count: usize,
}

/// The list options that a list request names.
pub open spec fn list_options_param(p: ListTodosParams, today: CalendarDate) -> Result<
    ListOptions,
    ToolError,
> {
    let scope_text = match p.scope {
        Some(t) => t@,
        None => "today"@,
    };
    let filter = if p.no_project == Some(true) {
        ProjectFilter::IsNull
    } else {
        match p.project {
            Some(x) => ProjectFilter::Equals(x),
            None => ProjectFilter::Any,
        }
    };
    match scope_param(scope_text, today) {
        Err(e) => Err(e),
        Ok(scope) => match epic_param(p.epic_id) {
            Err(e) => Err(ToolError::Todo(e)),
            Ok(epic_id) => Ok(
                ListOptions { scope, include_done: p.include_done == Some(true), project: filter, epic_id },
            ),
        },
    }
}

pub open spec fn item_describes(s: Seq<Model>, m: Model, item: TodoItem, include_notes: bool) -> bool {
    &&& summarizes(
        s,
        m,
        item.id,
        item.title,
        item.status,
        item.scheduled_for,
        item.project,
        item.epic_id,
        item.epic_title,
    )
    &&& item.notes == if include_notes {
        m.notes
    } else {
        None
    }
    &&& item.order_index == m.order_index
}

fn flag(b: Option<bool>) -> (r: bool)
    ensures
        r == (b == Some(true)),
{
    match b {
        Some(v) => v,
        None => false,
    }
}

impl ListTodosParams {
    /// Lists a column as `TodoService::list` orders it, looking up the titles
    /// of the listed todos' epics in one batch.
    pub fn execute(self, service: &TodoService, today: CalendarDate) -> (r: Result<
        ListTodosResult,
        ToolError,
    >)
        requires
            service.wf(),
        ensures
            list_options_param(self, today) matches Err(e) ==> r == Err::<ListTodosResult, ToolError>(
                e,
            ),
            list_options_param(self, today) matches Ok(opts) ==> (r matches Ok(res) && {
                &&& res.count == res.todos@.len()
                &&& res.scope@ == match self.scope {
                    Some(t) => t@,
                    None => "today"@,
                }
                &&& exists|ps: Seq<usize>|
                    {
                        &&& #[trigger] crate::service::listing_order(service@, opts, ps)
                        &&& res.todos@.len() == ps.len()
                        &&& forall|k: int|
                            0 <= k < ps.len() ==> item_describes(
                                service@,
                                service@[#[trigger] ps[k] as int],
                                res.todos@[k],
                                self.include_notes == Some(true),
                            )
                    }
            }),
    {
        broadcast use vstd::std_specs::hash::group_hash_axioms;

        let ghost params = self;
        let ListTodosParams { scope, include_done, include_notes, project, no_project, epic_id } =
            self;
        let scope_text = match scope {
            Some(t) => t,
            None => String::from_str("today"),
        };
        let list_scope = match parse_scope(scope_text.as_str(), today) {
            Ok(s) => s,
            Err(e) => return Err(e),
        };
        let filter = if flag(no_project) {
            ProjectFilter::IsNull
        } else {
            match project {
                Some(x) => ProjectFilter::Equals(x),
                None => ProjectFilter::Any,
            }
        };
        let epic = match epic_id {
            None => None,
            Some(t) => match parse_todo_id(t.as_str()) {
                Ok(u) => Some(u),
                Err(e) => return Err(ToolError::Todo(e)),
            },
        };
        let opts = ListOptions {
            scope: list_scope,
            include_done: flag(include_done),
            project: filter,
            epic_id: epic,
        };
        assert(list_options_param(params, today) == Ok::<ListOptions, ToolError>(opts));
        let with_notes = flag(include_notes);
        let models = service.list(&opts);
        let ghost ps = choose|ps: Seq<usize>|
            crate::display_order::ordered_selection(
                service@,
                |m: Model| crate::service::matches_filter(m, opts),
                ps,
            ) && models@ == crate::display_order::at_positions(service@, ps);
        assert(crate::service::listing_order(service@, opts, ps));
        let mut epic_ids: Vec<u128> = Vec::new();
        let mut i: usize = 0;
        while i < models.len()
            invariant
                i <= models@.len(),
                forall|k: int|
                    0 <= k < i ==> ((#[trigger] models@[k]).epic_id matches Some(e)
                        ==> epic_ids@.contains(e)),
            decreases models@.len() - i,
        {
            let ghost old_ids = epic_ids@;
            if let Some(e) = models[i].epic_id {
                epic_ids.push(e);
            }
            proof {
                assert forall|k: int|
                    0 <= k < i + 1 implies ((#[trigger] models@[k]).epic_id matches Some(e)
                    ==> epic_ids@.contains(e)) by {
                    if let Some(e) = models@[k].epic_id {
                        if k < i {
                            assert(old_ids.contains(e));
                            let j = choose|j: int| 0 <= j < old_ids.len() && old_ids[j] == e;
                            assert(epic_ids@[j] == e);
                        } else {
                            assert(epic_ids@[epic_ids@.len() - 1] == e);
                        }
                    }
                }
            }
            i += 1;
        }
        let titles = service.get_epic_titles(&epic_ids);
        let mut todos: Vec<TodoItem> = Vec::new();
        let mut k: usize = 0;
        while k < models.len()
            invariant
                k <= models@.len(),
                service.wf(),
                models@ == crate::display_order::at_positions(service@, ps),
                forall|j: int|
                    0 <= j < models@.len() ==> ((#[trigger] models@[j]).epic_id matches Some(e)
                        ==> epic_ids@.contains(e)),
                forall|e: u128| #[trigger] titles@.contains_key(e) <==> epic_ids@.contains(e) && has_id(service@, e),
                forall|e: u128| #[trigger] titles@.contains_key(e) ==> titles@[e] == record_of(service@, e).title,
                todos@.len() == k,
                forall|j: int|
                    0 <= j < k ==> item_describes(
                        service@,
                        models@[j],
                        #[trigger] todos@[j],
                        with_notes,
                    ),
            decreases models@.len() - k,
        {
            let m = &models[k];
            let epic_title = match m.epic_id {
                Some(e) => match titles.get(&e) {
                    Some(t) => Some(t.clone()),
                    None => None,
                },
                None => None,
            };
            let item = TodoItem {
                id: uuid_text(m.id),
                title: m.title.clone(),
                status: status_text(m.status),
                scheduled_for: opt_date_text(m.scheduled_for),
                notes: if with_notes {
                    copy_project(&m.notes)
                } else {
                    None
                },
                order_index: m.order_index,
                project: copy_project(&m.project),
                epic_id: opt_uuid_text(m.epic_id),
                epic_title,
            };
            todos.push(item);
            k += 1;
        }
        let count = todos.len();
        Ok(ListTodosResult { todos, scope: scope_text, count })
    }
}

/// A piece of an answer's content.
#[derive(Clone, Debug, PartialEq, Eq)]
pub enum Content {
    Text { text: String },
    Unknown,
}

impl Content {
    pub fn text(text: String) -> (r: Content)
        ensures
            r == (Content::Text { text }),
    {
        Content::Text { text }
    }
}

/// The answer to a tool call.
#[derive(Clone, Debug, PartialEq, Eq)]
pub struct CallToolResponse {
    pub content: Vec<Content>,
}

fn copy_project(p: &Option<String>) -> (r: Option<String>)
    ensures
        r == *p,
{
    crate::entity::copy_opt_string(p)
}

} // verus!
