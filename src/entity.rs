use vstd::prelude::*;
use crate::date::CalendarDate;

verus! {

/// Completion state of a todo.
#[derive(Clone, Copy, Debug, PartialEq, Eq, Structural, Hash)]
pub enum TodoStatus {
    Pending,
    Done,
}

impl TodoStatus {
    /// The stored name of the status.
    pub fn as_str(&self) -> (r: &'static str)
        ensures
            *self == TodoStatus::Pending ==> r@ == "pending"@,
            *self == TodoStatus::Done ==> r@ == "done"@,
    {
        match self {
            TodoStatus::Pending => "pending",
            TodoStatus::Done => "done",
        }
    }
}

/// A todo record: the unit that columns order and epics group.
///
/// `scheduled_for` names the day column; `None` puts the record in the backlog.
/// `order_index` is a sort key that only means something among records of the
/// same scope and status.
#[derive(Clone, Debug, PartialEq, Eq)]
pub struct Model {
    pub id: u128,
    pub title: String,
    pub status: TodoStatus,
    pub scheduled_for: Option<CalendarDate>,
    pub order_index: i64,
    pub notes: Option<String>,
    pub project: Option<String>,
    pub epic_id: Option<u128>,
    pub backlog_column: i64,
    pub created_at: i64,
    pub updated_at: i64,
}

pub open spec fn opt_str_view(o: Option<String>) -> Option<Seq<char>> {
    match o {
        Some(s) => Some(s@),
        None => None,
    }
}

pub fn copy_opt_string(o: &Option<String>) -> (r: Option<String>)
    ensures
        r == *o,
{
    match o {
        Some(s) => Some(s.clone()),
        None => None,
    }
}

impl Model {
    pub open spec fn is_done(self) -> bool {
        self.status == TodoStatus::Done
    }

    /// A field-by-field copy of the record.
    pub fn duplicate(&self) -> (r: Model)
        ensures
            r == *self,
    {
        Model {
            id: self.id,
            title: self.title.clone(),
            status: self.status,
            scheduled_for: self.scheduled_for,
            order_index: self.order_index,
            notes: copy_opt_string(&self.notes),
            project: copy_opt_string(&self.project),
            epic_id: self.epic_id,
            backlog_column: self.backlog_column,
            created_at: self.created_at,
            updated_at: self.updated_at,
        }
    }
}

/// Scope to fetch or move todos: one day's column, or the backlog.
#[derive(Clone, Copy, Debug, PartialEq, Eq, Structural)]
pub enum ListScope {
    Day(CalendarDate),
    Backlog,
}

impl ListScope {
    /// The `scheduled_for` value of records in this scope.
    pub open spec fn spec_date(self) -> Option<CalendarDate> {
        match self {
            ListScope::Day(d) => Some(d),
            ListScope::Backlog => None,
        }
    }

    pub fn date(&self) -> (r: Option<CalendarDate>)
        ensures
            r == self.spec_date(),
    {
        match self {
            ListScope::Day(d) => Some(*d),
            ListScope::Backlog => None,
        }
    }

    pub fn of_date(date: Option<CalendarDate>) -> (r: ListScope)
        ensures
            r.spec_date() == date,
    {
        match date {
            Some(d) => ListScope::Day(d),
            None => ListScope::Backlog,
        }
    }
}

/// Filter on a record's project tag.
#[derive(Clone, Debug, PartialEq, Eq)]
pub enum ProjectFilter {
    Any,
    Equals(String),
    IsNull,
}

/// Filters for listing a column.
#[derive(Clone, Debug, PartialEq, Eq)]
pub struct ListOptions {
    pub scope: ListScope,
    pub include_done: bool,
    pub project: ProjectFilter,
    pub epic_id: Option<u128>,
}

impl ListOptions {
    /// Pending records of the given day, with no project or epic filter.
    pub fn today(date: CalendarDate) -> (r: ListOptions)
        ensures
            r.scope == ListScope::Day(date),
            !r.include_done,
            r.project == ProjectFilter::Any,
            r.epic_id.is_none(),
    {
        ListOptions {
            scope: ListScope::Day(date),
            include_done: false,
            project: ProjectFilter::Any,
            epic_id: None,
        }
    }
}

/// Where a moved record lands in its new column.
#[derive(Clone, Copy, Debug, PartialEq, Eq, Structural)]
pub enum MovePlacement {
    Top,
    Bottom,
}

/// One step of a manual reorder.
#[derive(Clone, Copy, Debug, PartialEq, Eq, Structural)]
pub enum ReorderDirection {
    Up,
    Down,
}

} // verus!
