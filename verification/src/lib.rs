//! The logic of a desktop shell around the `dsh` web interface.

pub mod environment;
pub mod launch;
pub mod navigation;
pub mod numbers;
pub mod paths;
pub mod process;
pub mod pty;
pub mod ready;
pub mod session;
pub mod settings;
pub mod shell;
pub mod terminal;
pub mod text;
pub mod theme;
pub mod zoom;
