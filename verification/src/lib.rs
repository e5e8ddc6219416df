//! Workspace navigation for Jujutsu: the verified core of `jj-navi`.

pub mod completion;
pub mod doctor;
pub mod error;
pub mod output;
pub mod payload;
pub mod repo;
pub mod release;
pub mod shell;
pub mod shell_doctor;
pub mod shell_install;
pub mod switch;
pub mod table;
pub mod text;
pub mod theme;
pub mod types;

pub use error::{Error, Result};
