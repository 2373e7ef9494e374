pub mod calendar;
pub mod cli;
pub mod clipboard;
pub mod crash;
pub mod fs_tree;
pub mod json;
pub mod keys;
pub mod lsp;
pub mod mouse;
pub mod osc;
pub mod path;
pub mod screen;
pub mod search;
pub mod shell;
pub mod spans;
pub mod syntax;
pub mod text;
pub mod ui;
