//! State, decisions and text layout of a terminal chat client.

pub mod app;
pub mod approval_bar;
pub mod arguments;
pub mod ask_user;
pub mod banner;
pub mod changeset;
pub mod collections;
pub mod completion;
pub mod dialog;
pub mod dropdown;
pub mod event_loop;
pub mod events;
pub mod file_changes;
pub mod file_diff;
pub mod file_search;
pub mod geometry;
pub mod helper_block;
pub mod images;
pub mod input;
pub mod json;
pub mod layers;
pub mod message;
pub mod message_actions;
pub mod misc;
pub mod model_switcher;
pub mod models;
pub mod navigation;
pub mod popups;
pub mod shell;
pub mod shell_screen;
pub mod style;
pub mod submit;
pub mod text;
pub mod text_selection;
pub mod textarea;
pub mod tool;
pub mod tool_result;
pub mod types;
pub mod update;
pub mod user_queue;
