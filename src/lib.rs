//! A terminal kanban board: the board data model, the project registry, the
//! key-driven interaction controller and the stored text format.

pub mod app;
pub mod board;
pub mod machine;
pub mod project;
pub mod storage;
pub mod text;
pub mod theme;

pub use app::App;
pub use board::{Board, BoardColumn, BoardError, Column, Direction, Task};
pub use machine::{Effect, InputMode, Key, TaskField};
pub use project::{Config, Project, Registry};
pub use storage::{decode_board, decode_config, encode_board, encode_config};
pub use theme::{Color, Theme};
