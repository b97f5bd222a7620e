//! Schemas, tables and the name-resolution policy.

use vstd::prelude::*;
use crate::types::DataType;

verus! {

/// A declared column of a table.
pub struct TableField {
    pub name: String,
    pub data_type: DataType,
    /// SQL text of the declared default value, if any.
    pub default_expr: Option<String>,
    /// Present when the column is reachable only through a nested path.
    pub path_indices: Option<Vec<usize>>,
    /// SQL text of a virtual computed column, if any.
    pub virtual_computed_expr: Option<String>,
}

/// An ordered list of declared columns.
pub struct TableSchema {
    pub fields: Vec<TableField>,
}

/// The narrow slice of a table that compilation needs: its name and schema.
pub struct TableMeta {
    pub name: String,
    pub schema: TableSchema,
}

impl TableField {
    pub fn new(name: String, data_type: DataType) -> (r: TableField)
        ensures
            r.name@ == name@,
            r.data_type == data_type,
            r.default_expr is None,
            r.path_indices is None,
            r.virtual_computed_expr is None,
    {
        TableField {
            name,
            data_type,
            default_expr: None,
            path_indices: None,
            virtual_computed_expr: None,
        }
    }
}

impl TableMeta {
    /// A table with no columns: resolving any identifier against it fails.
    pub fn empty() -> (r: TableMeta)
        ensures
            r.schema.fields@.len() == 0,
    {
        TableMeta { name: String::new(), schema: TableSchema { fields: Vec::new() } }
    }
}

/// Caller-supplied session settings.
pub struct Settings {
    pub unquoted_ident_case_sensitive: bool,
    pub quoted_ident_case_sensitive: bool,
}

/// How identifiers are matched against column names.
pub struct NameResolutionContext {
    pub unquoted_ident_case_sensitive: bool,
    pub quoted_ident_case_sensitive: bool,
}

/// The policy a settings value induces.
pub open spec fn nrc_of(s: Settings) -> NameResolutionContext {
    NameResolutionContext {
        unquoted_ident_case_sensitive: s.unquoted_ident_case_sensitive,
        quoted_ident_case_sensitive: s.quoted_ident_case_sensitive,
    }
}

impl NameResolutionContext {
    pub fn from_settings(settings: &Settings) -> (r: NameResolutionContext)
        ensures
            r == nrc_of(*settings),
    {
        NameResolutionContext {
            unquoted_ident_case_sensitive: settings.unquoted_ident_case_sensitive,
            quoted_ident_case_sensitive: settings.quoted_ident_case_sensitive,
        }
    }
}

} // verus!
