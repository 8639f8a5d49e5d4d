pub mod text;
pub mod models;
pub mod errors;
pub mod urls;
pub mod patterns;
pub mod git;
pub mod stack;
pub mod paths;
pub mod kitchen;
pub mod unicode;
pub mod deps;
pub mod util;
pub mod execution;
pub mod github;
pub mod ordering;
pub mod registry;
pub mod catalog;
pub mod stacking;
pub mod launch;
pub mod install;
pub mod preview;
pub mod health;
pub mod processes;
pub mod updates;
pub mod pathnorm;
pub mod previewing;
pub mod restore;
pub mod registration;
