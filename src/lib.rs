//! In-memory index of launchable entities (desktop applications and
//! user-defined command sets) with a fuzzy query engine and a
//! "parent > child" drill-down grammar for command sub-actions.
pub mod desktop;
pub mod entity;
pub mod fuzzy;
pub mod index;
pub mod laws;
pub mod loader;
pub mod text;

pub use desktop::{parse_desktop_file, parse_desktop_lines};
pub use entity::{Action, App, CustomCommand, FilterMode, SearchItem, Selection, SubCommand};
pub use index::{State, MAX_RESULTS};
pub use loader::{collect_apps, commands_from_file, has_extension, merge_commands};
