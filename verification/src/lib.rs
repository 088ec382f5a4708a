pub mod backend;
pub mod field;
pub mod migration;
pub mod migrator;
pub mod operation;
pub mod strutil;

pub mod prelude;
