//! Task tracker core: day-keyed columns and a backlog of todo records, with
//! sparse top/bottom insertion indices, dense reordering, day rollover and
//! one-level epic links.
pub mod cursor;
pub mod date;
pub mod display_order;
pub mod entity;
pub mod error;
pub mod ids;
pub mod laws;
pub mod ordering;
pub mod service;
pub mod settings;
pub mod text;
pub mod tools;

pub use date::CalendarDate;
pub use entity::{ListOptions, ListScope, Model, MovePlacement, ProjectFilter, ReorderDirection, TodoStatus};
pub use error::TodoError;
pub use service::TodoService;
pub use settings::{DetailField, Horizontal, ProjectStatus, SettingsState, Vertical, WeekStart};
pub use tools::{
    AddTodoParams, AddTodoResult, CallToolResponse, Content, DeleteTodoParams, DeleteTodoResult,
    GetTodoParams, GetTodoResult, ListTodosParams, ListTodosResult, MarkDoneParams, MarkDoneResult,
    MarkPendingParams, MarkPendingResult, MoveTodoParams, MoveTodoResult, TodoItem, ToolError,
    UpdateTodoParams, UpdateTodoResult,
};
