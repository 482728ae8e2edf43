//! A manager of task lists with priorities, due dates and time tracking.
//!
//! [`AppData`] holds the lists and edits them, [`App`] is the state of the program and what the keys
//! do to it. What has to be done outside, such as saving, comes back as an effect. What the screen
//! shows is made in [`screen`], [`rows`] and [`panels`]. The modules that end in `_laws`, and
//! [`soundness`], prove what holds across all of these.

pub mod color;
pub mod data;
pub mod data_laws;
pub mod date;
pub mod directory;
pub mod edit_laws;
pub mod editing;
pub mod effects;
pub mod file_laws;
pub mod input;
pub mod item_laws;
pub mod items;
pub mod key_laws;
pub mod keys;
pub mod labels;
pub mod manual_laws;
pub mod numbers;
pub mod panels;
pub mod preview;
pub mod program;
pub mod rows;
pub mod scratchpad;
pub mod screen;
pub mod screen_laws;
pub mod search_laws;
pub mod seqs;
pub mod sorting;
pub mod soundness;
pub mod state;
pub mod store;
pub mod store_laws;
pub mod task;
pub mod task_laws;
pub mod text;
pub mod text_laws;

pub use crate::color::{normalize_hex_color, parse_hex_color};
pub use crate::data::AppData;
pub use crate::date::Date;
pub use crate::state::App;
pub use crate::task::{
    ListSortMode, Task, TaskKey, TaskList, TaskListViewItem, TaskSortMode, TaskViewItem,
};
