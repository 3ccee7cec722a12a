pub mod text;
pub mod path;
pub mod models;
pub mod validation;
pub mod command;
pub mod versions;
pub mod git;
pub mod lmstudio;
pub mod progress;
pub mod update;
pub mod process;
pub mod stop;
pub mod start;
pub mod prepare;
pub mod inspect;
pub mod upstream;
