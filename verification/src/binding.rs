//! Name-resolution scopes: column bindings, the bind context, and the
//! metadata registry shared by the steps of one compilation call.

use vstd::prelude::*;
use crate::errors::{ErrorCode, ErrorKind};
use crate::schema::{TableField, TableMeta};
use crate::types::DataType;

verus! {

/// Whether unqualified name lookup may see a binding.
#[derive(Clone, Copy, PartialEq, Eq, Structural, Debug)]
pub enum Visibility {
    Visible,
    InVisible,
}

/// What kind of expression is being resolved; lambda bodies change lookup.
#[derive(Clone, Copy, PartialEq, Eq, Structural, Debug)]
pub enum ExprContext {
    Normal,
    InLambdaFunction,
}

/// A stable record binding a column name to its physical position and type.
#[derive(Debug)]
pub struct ColumnBinding {
    pub database_name: Option<String>,
    pub table_name: Option<String>,
    pub column_name: String,
    pub index: usize,
    pub data_type: DataType,
    pub visibility: Visibility,
    pub virtual_computed_expr: Option<String>,
    pub table_index: Option<usize>,
}

pub fn clone_opt_string(o: &Option<String>) -> (r: Option<String>)
    ensures
        r == *o,
{
    match o {
        Some(s) => Some(s.clone()),
        None => None,
    }
}

impl ColumnBinding {
    pub fn clone(&self) -> (r: ColumnBinding)
        ensures
            r.database_name == self.database_name,
            r.table_name == self.table_name,
            r.column_name == self.column_name,
            r.index == self.index,
            r.data_type == self.data_type,
            r.visibility == self.visibility,
            r.virtual_computed_expr == self.virtual_computed_expr,
            r.table_index == self.table_index,
    {
        ColumnBinding {
            database_name: clone_opt_string(&self.database_name),
            table_name: clone_opt_string(&self.table_name),
            column_name: self.column_name.clone(),
            index: self.index,
            data_type: self.data_type.clone(),
            visibility: self.visibility,
            virtual_computed_expr: clone_opt_string(&self.virtual_computed_expr),
            table_index: self.table_index,
        }
    }
}

/// The ordered set of bindings visible while resolving one expression.
pub struct BindContext {
    pub bindings: Vec<ColumnBinding>,
    pub expr_context: ExprContext,
}

impl BindContext {
    /// Every binding sits at the position its `index` records.
    pub open spec fn wf(self) -> bool {
        forall|i: int|
            0 <= i < self.bindings@.len() ==> (#[trigger] self.bindings@[i]).index == i
    }

    pub fn new() -> (r: BindContext)
        ensures
            r.bindings@.len() == 0,
            r.expr_context == ExprContext::Normal,
            r.wf(),
    {
        BindContext { bindings: Vec::new(), expr_context: ExprContext::Normal }
    }

    /// Appends a binding; positions are never renumbered, so the new
    /// binding's `index` must continue the sequence.
    pub fn add_column_binding(&mut self, binding: ColumnBinding)
        requires
            binding.index == old(self).bindings@.len(),
        ensures
            final(self).bindings@ == old(self).bindings@.push(binding),
            final(self).expr_context == old(self).expr_context,
            old(self).wf() ==> final(self).wf(),
    {
        self.bindings.push(binding);
        proof {
            assert(self.bindings@.last() == binding);
        }
    }

    pub fn all_column_bindings(&self) -> (r: &Vec<ColumnBinding>)
        ensures
            r == &self.bindings,
    {
        &self.bindings
    }

    pub fn set_expr_context(&mut self, ec: ExprContext)
        ensures
            final(self).bindings == old(self).bindings,
            final(self).expr_context == ec,
    {
        self.expr_context = ec;
    }
}

/// A column record held by the metadata registry.
pub enum ColumnEntry {
    BaseTableColumn {
        column_name: String,
        data_type: DataType,
        table_index: usize,
        path_indices: Option<Vec<usize>>,
        virtual_computed_expr: Option<String>,
    },
    DerivedColumn { alias: String, data_type: DataType },
}

/// A table record held by the metadata registry.
pub struct TableDescriptor {
    pub catalog: String,
    pub database: String,
    pub name: String,
}

/// Maps synthetic table indices to table descriptors and column indices to
/// column entries. Built afresh for each compilation call.
pub struct Metadata {
    pub tables: Vec<TableDescriptor>,
    pub columns: Vec<ColumnEntry>,
}

impl Metadata {
    pub fn new() -> (r: Metadata)
        ensures
            r.tables@.len() == 0,
            r.columns@.len() == 0,
    {
        Metadata { tables: Vec::new(), columns: Vec::new() }
    }

    /// Registers a table and one base-table column per schema field, in
    /// order. Returns the table's index.
    pub fn add_table(&mut self, catalog: String, database: String, table: &TableMeta) -> (r: usize)
        requires
            old(self).tables@.len() == 0,
            old(self).columns@.len() == 0,
        ensures
            r == 0,
            final(self).tables@.len() == 1,
            final(self).tables@[0].catalog@ == catalog@,
            final(self).tables@[0].database@ == database@,
            final(self).tables@[0].name@ == table.name@,
            final(self).columns@.len() == table.schema.fields@.len(),
            forall|i: int|
                0 <= i < final(self).columns@.len() ==> base_column_matches_field(
                    #[trigger] final(self).columns@[i],
                    table.schema.fields@[i],
                ),
    {
        let table_index = self.tables.len();
        self.tables.push(TableDescriptor { catalog, database, name: table.name.clone() });
        let fields = &table.schema.fields;
        let mut i: usize = 0;
        while i < fields.len()
            invariant
                i <= fields.len(),
                self.columns@.len() == i,
                forall|j: int|
                    0 <= j < i ==> base_column_matches_field(
                        #[trigger] self.columns@[j],
                        fields@[j],
                    ),
                self.tables@.len() == 1,
                self.tables@[0].catalog@ == catalog@,
                self.tables@[0].database@ == database@,
                self.tables@[0].name@ == table.name@,
                fields == &table.schema.fields,
                table_index == 0,
            decreases fields.len() - i,
        {
            let f = &fields[i];
            let entry = ColumnEntry::BaseTableColumn {
                column_name: f.name.clone(),
                data_type: f.data_type.clone(),
                table_index,
                path_indices: clone_opt_path(&f.path_indices),
                virtual_computed_expr: clone_opt_string(&f.virtual_computed_expr),
            };
            self.columns.push(entry);
            i = i + 1;
        }
        table_index
    }

    pub fn table_name(&self, table_index: usize) -> (r: String)
        requires
            table_index < self.tables@.len(),
        ensures
            r@ == self.tables@[table_index as int].name@,
    {
        self.tables[table_index].name.clone()
    }
}

/// The table descriptors bind_table writes: one entry under the default
/// catalog and database carrying the table's name.
pub open spec fn md_tables_fixed(md: Metadata, table_name: Seq<char>) -> bool {
    &&& md.tables@.len() == 1
    &&& md.tables@[0].catalog@ == "default"@
    &&& md.tables@[0].database@ == "default"@
    &&& md.tables@[0].name@ == table_name
}

/// The registry entry mirrors the schema field it was made from.
pub open spec fn base_column_matches_field(c: ColumnEntry, f: TableField) -> bool {
    &&& c matches ColumnEntry::BaseTableColumn {
        column_name,
        data_type,
        table_index,
        path_indices,
        virtual_computed_expr,
    }
    &&& column_name@ == f.name@
    &&& data_type == f.data_type
    &&& table_index == 0
    &&& (path_indices is Some <==> f.path_indices is Some)
    &&& virtual_computed_expr == f.virtual_computed_expr
}

pub fn clone_opt_path(o: &Option<Vec<usize>>) -> (r: Option<Vec<usize>>)
    ensures
        r is Some <==> *o is Some,
        r matches Some(v) ==> o matches Some(w) && v@ == w@,
{
    match o {
        Some(v) => {
            let mut out: Vec<usize> = Vec::new();
            let mut i: usize = 0;
            while i < v.len()
                invariant
                    i <= v.len(),
                    out@ =~= v@.subrange(0, i as int),
                decreases v.len() - i,
            {
                out.push(v[i]);
                i = i + 1;
                proof {
                    assert(out@ =~= v@.subrange(0, i as int));
                }
            }
            proof {
                assert(out@ =~= v@);
            }
            Some(out)
        },
        None => None,
    }
}

/// A binding made from the `i`-th schema field: same name, type and
/// position; invisible exactly when the field is reachable only via a path.
pub open spec fn binding_matches_field(b: ColumnBinding, f: TableField, i: int) -> bool {
    &&& b.index == i
    &&& b.column_name@ == f.name@
    &&& b.data_type == f.data_type
    &&& (b.visibility == Visibility::InVisible <==> f.path_indices is Some)
    &&& b.virtual_computed_expr == f.virtual_computed_expr
}

/// The provenance a table scope stamps on each of its bindings: the default
/// database, the table's own name, and the table's registry index.
pub open spec fn binding_provenance(b: ColumnBinding, table_name: Seq<char>, ti: int) -> bool {
    &&& b.database_name matches Some(d) && d@ == "default"@
    &&& b.table_name matches Some(t) && t@ == table_name
    &&& b.table_index == Some(ti as usize)
}

/// The scope bind_table builds: one binding per schema field, in order,
/// mirroring the field and stamped with the table's provenance.
pub open spec fn table_scope(bs: Seq<ColumnBinding>, table: TableMeta) -> bool {
    &&& bs.len() == table.schema.fields@.len()
    &&& forall|i: int|
        0 <= i < bs.len() ==> binding_matches_field(#[trigger] bs[i], table.schema.fields@[i], i)
    &&& forall|i: int|
        0 <= i < bs.len() ==> binding_provenance(#[trigger] bs[i], table.name@, 0)
}

/// Builds the name-resolution scope of a table: the `i`-th binding
/// corresponds to the `i`-th schema field, in order, and the metadata
/// registry gains one base-table-column record per field.
pub fn bind_table(table: &TableMeta) -> (r: Result<(BindContext, Metadata), ErrorCode>)
    ensures
        r matches Ok((bc, md)) ==> {
            &&& bc.wf()
            &&& bc.expr_context == ExprContext::Normal
            &&& bc.bindings@.len() == table.schema.fields@.len()
            &&& forall|i: int|
                0 <= i < bc.bindings@.len() ==> binding_matches_field(
                    #[trigger] bc.bindings@[i],
                    table.schema.fields@[i],
                    i,
                )
            &&& forall|i: int|
                0 <= i < bc.bindings@.len() ==> binding_provenance(
                    #[trigger] bc.bindings@[i],
                    table.name@,
                    0,
                )
            &&& md.columns@.len() == table.schema.fields@.len()
            &&& forall|i: int|
                0 <= i < md.columns@.len() ==> base_column_matches_field(
                    #[trigger] md.columns@[i],
                    table.schema.fields@[i],
                )
            &&& md.tables@.len() == 1
            &&& md.tables@[0].catalog@ == "default"@
            &&& md.tables@[0].database@ == "default"@
            &&& md.tables@[0].name@ == table.name@
            &&& table_scope(bc.bindings@, *table)
        },
        r is Ok,
{
    let mut bind_context = BindContext::new();
    let mut metadata = Metadata::new();
    let table_index = metadata.add_table(
        String::from_str("default"),
        String::from_str("default"),
        table,
    );

    proof {
        assert(md_tables_fixed(metadata, table.name@)) by {
            assert(metadata.tables@[0].catalog@ == "default"@);
        }
    }
    let table_name = metadata.table_name(table_index);
    let n = metadata.columns.len();
    let mut index: usize = 0;
    while index < n
        invariant
            n == metadata.columns@.len(),
            n == table.schema.fields@.len(),
            index <= n,
            table_index == 0,
            metadata.tables@.len() == 1,
            forall|i: int|
                0 <= i < n ==> base_column_matches_field(
                    #[trigger] metadata.columns@[i],
                    table.schema.fields@[i],
                ),
            bind_context.wf(),
            bind_context.expr_context == ExprContext::Normal,
            bind_context.bindings@.len() == index,
            forall|i: int|
                0 <= i < index ==> binding_matches_field(
                    #[trigger] bind_context.bindings@[i],
                    table.schema.fields@[i],
                    i,
                ),
            forall|i: int|
                0 <= i < index ==> binding_provenance(
                    #[trigger] bind_context.bindings@[i],
                    table.name@,
                    0,
                ),
            table_name@ == table.name@,
            md_tables_fixed(metadata, table.name@),
        decreases n - index,
    {
        let column = &metadata.columns[index];
        let column_binding = match column {
            ColumnEntry::BaseTableColumn {
                column_name,
                data_type,
                path_indices,
                virtual_computed_expr,
                ..
            } => {
                let visibility = if path_indices.is_some() {
                    Visibility::InVisible
                } else {
                    Visibility::Visible
                };
                ColumnBinding {
                    database_name: Some(String::from_str("default")),
                    table_name: Some(table_name.clone()),
                    column_name: column_name.clone(),
                    index,
                    data_type: data_type.clone(),
                    visibility,
                    virtual_computed_expr: clone_opt_string(virtual_computed_expr),
                    table_index: Some(0),
                }
            },
            _ => {
                return Err(ErrorCode::new(
                    ErrorKind::Internal,
                    String::from_str("Invalid column entry"),
                ));
            },
        };
        bind_context.add_column_binding(column_binding);
        index = index + 1;
    }
    Ok((bind_context, metadata))
}

} // verus!
