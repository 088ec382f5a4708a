pub use crate::backend::{Backend, Dialect, FieldChanges, MySql, Postgres, Sqlite};
pub use crate::field::{Field, FieldType, ForeignKey, ReferentialAction};
pub use crate::migration::{Migration, MigrationError, MigrationRegistry};
pub use crate::migrator::{
    InMemoryState, MigrationPlan, MigrationStateStore, Migrator, NoTransactions, SqlExecutor,
    TransactionControl, TxEvent,
};
pub use crate::operation::{
    AddConstraint, AddField, AddIndex, AlterField, Constraint, CreateTable, DropTable, Index,
    IndexOrder, Operation, RemoveConstraint, RemoveField, RemoveIndex, RenameField, RenameTable,
    RunSql,
};
