//! User preferences and the small state enums of the board view.
use vstd::prelude::*;

verus! {

/// First day of the week shown on the board.
#[derive(Clone, Copy, Debug, PartialEq, Eq, Structural)]
pub enum WeekStart {
    Sunday,
    Monday,
}

impl WeekStart {
    /// The other choice.
    pub fn toggle(self) -> (r: WeekStart)
        ensures
            r != self,
    {
        match self {
            WeekStart::Sunday => WeekStart::Monday,
            WeekStart::Monday => WeekStart::Sunday,
        }
    }

    /// The stored name of the choice.
    pub fn as_str(&self) -> (r: &'static str)
        ensures
            *self == WeekStart::Sunday ==> r@ == "sunday"@,
            *self == WeekStart::Monday ==> r@ == "monday"@,
    {
        match self {
            WeekStart::Sunday => "sunday",
            WeekStart::Monday => "monday",
        }
    }

    /// Reads a stored name: `"monday"` is Monday, anything else Sunday.
    pub fn from_name(value: &str) -> (r: WeekStart)
        ensures
            value@ == "monday"@ <==> r == WeekStart::Monday,
    {
        let monday = String::from_str("monday");
        if value.to_owned() == monday {
            WeekStart::Monday
        } else {
            WeekStart::Sunday
        }
    }
}

/// State of the settings screen.
#[derive(Clone, Copy, Debug, PartialEq, Eq)]
pub struct SettingsState {
    pub week_start: WeekStart,
}

/// Lifecycle of a project tag.
#[derive(Clone, Copy, Debug, PartialEq, Eq, Structural)]
pub enum ProjectStatus {
    Pending,
    Done,
    Permanent,
}

impl ProjectStatus {
    pub fn as_str(&self) -> (r: &'static str)
        ensures
            *self == ProjectStatus::Pending ==> r@ == "pending"@,
            *self == ProjectStatus::Done ==> r@ == "done"@,
            *self == ProjectStatus::Permanent ==> r@ == "permanent"@,
    {
        match self {
            ProjectStatus::Pending => "pending",
            ProjectStatus::Done => "done",
            ProjectStatus::Permanent => "permanent",
        }
    }
}

/// Horizontal cursor movement.
#[derive(Clone, Copy, Debug, PartialEq, Eq, Structural)]
pub enum Horizontal {
    Left,
    Right,
}

/// Vertical cursor movement.
#[derive(Clone, Copy, Debug, PartialEq, Eq, Structural)]
pub enum Vertical {
    Up,
    Down,
}

/// The row a cursor moves to within a column of `len` rows: one step in
/// `dir`, stopping at either end.
pub fn step_row(row: usize, len: usize, dir: Vertical) -> (r: usize)
    ensures
        len == 0 ==> r == row,
        len > 0 && dir == Vertical::Up ==> r == if row > 0 {
            (row - 1) as usize
        } else {
            row
        },
        len > 0 && dir == Vertical::Down ==> r == if row + 1 < len {
            (row + 1) as usize
        } else {
            row
        },
{
    if len == 0 {
        return row;
    }
    match dir {
        Vertical::Up => if row > 0 {
            row - 1
        } else {
            row
        },
        Vertical::Down => if row < len - 1 {
            row + 1
        } else {
            row
        },
    }
}

/// Fields of the detail view, in the order the cursor walks them.
#[derive(Clone, Copy, Debug, PartialEq, Eq, Structural)]
pub enum DetailField {
    Title,
    Project,
    Epic,
    Date,
    Status,
    Notes,
}

pub open spec fn field_rank(f: DetailField) -> int {
    match f {
        DetailField::Title => 0,
        DetailField::Project => 1,
        DetailField::Epic => 2,
        DetailField::Date => 3,
        DetailField::Status => 4,
        DetailField::Notes => 5,
    }
}

impl DetailField {
    /// The following field; the last one stays.
    pub fn next(self) -> (r: DetailField)
        ensures
            field_rank(r) == if field_rank(self) < 5 {
                field_rank(self) + 1
            } else {
                5
            },
    {
        match self {
            DetailField::Title => DetailField::Project,
            DetailField::Project => DetailField::Epic,
            DetailField::Epic => DetailField::Date,
            DetailField::Date => DetailField::Status,
            DetailField::Status => DetailField::Notes,
            DetailField::Notes => DetailField::Notes,
        }
    }

    /// The preceding field; the first one stays.
    pub fn prev(self) -> (r: DetailField)
        ensures
            field_rank(r) == if field_rank(self) > 0 {
                field_rank(self) - 1
            } else {
                0
            },
    {
        match self {
            DetailField::Title => DetailField::Title,
            DetailField::Project => DetailField::Title,
            DetailField::Epic => DetailField::Project,
            DetailField::Date => DetailField::Epic,
            DetailField::Status => DetailField::Date,
            DetailField::Notes => DetailField::Status,
        }
    }

    pub fn label(self) -> (r: &'static str)
        ensures
            self == DetailField::Title ==> r@ == "Title"@,
            self == DetailField::Project ==> r@ == "Project"@,
            self == DetailField::Epic ==> r@ == "Epic"@,
            self == DetailField::Date ==> r@ == "Date"@,
            self == DetailField::Status ==> r@ == "Status"@,
            self == DetailField::Notes ==> r@ == "Notes"@,
    {
        match self {
            DetailField::Title => "Title",
            DetailField::Project => "Project",
            DetailField::Epic => "Epic",
            DetailField::Date => "Date",
            DetailField::Status => "Status",
            DetailField::Notes => "Notes",
        }
    }

    /// Status and epic are changed through their own actions, not by editing.
    pub fn is_editable(self) -> (r: bool)
        ensures
            r == !(self == DetailField::Status || self == DetailField::Epic),
    {
        match self {
            DetailField::Status | DetailField::Epic => false,
            _ => true,
        }
    }
}

} // verus!
