pub mod types;

pub use types::FieldType;

use vstd::prelude::*;

verus! {

/// A column description: name, type and the column-level options that the
/// rendering backends understand.
#[derive(Debug, Clone)]
pub struct Field {
    pub name: String,
    pub field_type: FieldType,
    pub nullable: bool,
    pub primary_key: bool,
    pub unique: bool,
    pub default: Option<String>,
    pub references: Option<ForeignKey>,
}

/// A column-level foreign key: the referenced table and column, and the
/// referential actions taken on delete and on update.
#[derive(Debug, Clone)]
pub struct ForeignKey {
    pub table: String,
    pub column: String,
    pub on_delete: ReferentialAction,
    pub on_update: ReferentialAction,
}

#[derive(Debug, Clone, Copy, PartialEq, Eq, Structural)]
pub enum ReferentialAction {
    NoAction,
    Restrict,
    Cascade,
    SetNull,
    SetDefault,
}

impl Default for ReferentialAction {
    fn default() -> (r: Self)
        ensures
            r == ReferentialAction::NoAction,
    {
        ReferentialAction::NoAction
    }
}

/// The SQL keywords for a referential action.
pub open spec fn ref_action_sql(a: ReferentialAction) -> Seq<char> {
    match a {
        ReferentialAction::NoAction => "NO ACTION"@,
        ReferentialAction::Restrict => "RESTRICT"@,
        ReferentialAction::Cascade => "CASCADE"@,
        ReferentialAction::SetNull => "SET NULL"@,
        ReferentialAction::SetDefault => "SET DEFAULT"@,
    }
}

impl Field {
    pub fn new(name: &str, field_type: FieldType) -> (r: Self)
        ensures
            r.name@ == name@,
            r.field_type == field_type,
            r.nullable,
            !r.primary_key,
            !r.unique,
            r.default is None,
            r.references is None,
    {
        Self {
            name: name.to_owned(),
            field_type,
            nullable: true,
            primary_key: false,
            unique: false,
            default: None,
            references: None,
        }
    }

    pub fn not_null(self) -> (r: Self)
        ensures
            r == (Field { nullable: false, ..self }),
    {
        Field { nullable: false, ..self }
    }

    pub fn primary_key(self) -> (r: Self)
        ensures
            r == (Field { primary_key: true, nullable: false, ..self }),
    {
        Field { primary_key: true, nullable: false, ..self }
    }

    pub fn unique(self) -> (r: Self)
        ensures
            r == (Field { unique: true, ..self }),
    {
        Field { unique: true, ..self }
    }

    pub fn default(self, value: &str) -> (r: Self)
        ensures
            r.default matches Some(v) && v@ == value@,
            r.name == self.name,
            r.field_type == self.field_type,
            r.nullable == self.nullable,
            r.primary_key == self.primary_key,
            r.unique == self.unique,
            r.references == self.references,
    {
        Field { default: Some(value.to_owned()), ..self }
    }

    pub fn references(self, table: &str, column: &str) -> (r: Self)
        ensures
            r.references matches Some(fk) && fk.table@ == table@ && fk.column@ == column@
                && fk.on_delete == ReferentialAction::NoAction
                && fk.on_update == ReferentialAction::NoAction,
            r.name == self.name,
            r.field_type == self.field_type,
            r.nullable == self.nullable,
            r.primary_key == self.primary_key,
            r.unique == self.unique,
            r.default == self.default,
    {
        Field {
            references: Some(ForeignKey {
                table: table.to_owned(),
                column: column.to_owned(),
                on_delete: ReferentialAction::NoAction,
                on_update: ReferentialAction::NoAction,
            }),
            ..self
        }
    }

    pub fn on_delete(self, action: ReferentialAction) -> (r: Self)
        ensures
            self.references is None ==> r == self,
            self.references matches Some(fk) ==> r == (Field {
                references: Some(ForeignKey { on_delete: action, ..fk }),
                ..self
            }),
    {
        match self.references {
            Some(fk) => Field {
                references: Some(ForeignKey { on_delete: action, ..fk }),
                ..self
            },
            None => self,
        }
    }

    pub fn on_update(self, action: ReferentialAction) -> (r: Self)
        ensures
            self.references is None ==> r == self,
            self.references matches Some(fk) ==> r == (Field {
                references: Some(ForeignKey { on_update: action, ..fk }),
                ..self
            }),
    {
        match self.references {
            Some(fk) => Field {
                references: Some(ForeignKey { on_update: action, ..fk }),
                ..self
            },
            None => self,
        }
    }
}

impl ReferentialAction {
    pub fn as_sql(&self) -> (r: &'static str)
        ensures
            r@ == ref_action_sql(*self),
    {
        match self {
            ReferentialAction::NoAction => "NO ACTION",
            ReferentialAction::Restrict => "RESTRICT",
            ReferentialAction::Cascade => "CASCADE",
            ReferentialAction::SetNull => "SET NULL",
            ReferentialAction::SetDefault => "SET DEFAULT",
        }
    }
}

} // verus!
