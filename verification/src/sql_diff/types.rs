//! Table, column and index definitions, and their mathematical views.
use vstd::prelude::*;

verus! {

/// An optional string, seen as an optional character sequence.
pub open spec fn opt_view(o: Option<String>) -> Option<Seq<char>> {
    match o {
        Some(s) => Some(s@),
        None => None,
    }
}

/// The views of a sequence of strings.
pub open spec fn str_views(v: Seq<String>) -> Seq<Seq<char>> {
    v.map_values(|x: String| x@)
}

/// A column of a table.
#[derive(Debug, Clone, PartialEq)]
pub struct TableColumn {
    pub name: String,
    pub data_type: String,
    pub nullable: bool,
    pub default_value: Option<String>,
    pub auto_increment: bool,
    pub comment: Option<String>,
}

pub struct ColumnView {
    pub name: Seq<char>,
    pub data_type: Seq<char>,
    pub nullable: bool,
    pub default_value: Option<Seq<char>>,
    pub auto_increment: bool,
    pub comment: Option<Seq<char>>,
}

impl View for TableColumn {
    type V = ColumnView;

    open spec fn view(&self) -> ColumnView {
        ColumnView {
            name: self.name@,
            data_type: self.data_type@,
            nullable: self.nullable,
            default_value: opt_view(self.default_value),
            auto_increment: self.auto_increment,
            comment: opt_view(self.comment),
        }
    }
}

/// An index of a table (primary key, unique key or plain key).
#[derive(Debug, Clone, PartialEq)]
pub struct TableIndex {
    pub name: String,
    pub columns: Vec<String>,
    pub is_primary: bool,
    pub is_unique: bool,
    pub index_type: Option<String>,
}

pub struct IndexView {
    pub name: Seq<char>,
    pub columns: Seq<Seq<char>>,
    pub is_primary: bool,
    pub is_unique: bool,
    pub index_type: Option<Seq<char>>,
}

impl View for TableIndex {
    type V = IndexView;

    open spec fn view(&self) -> IndexView {
        IndexView {
            name: self.name@,
            columns: str_views(self.columns@),
            is_primary: self.is_primary,
            is_unique: self.is_unique,
            index_type: opt_view(self.index_type),
        }
    }
}

/// A table: its columns and indexes in declaration order, and its options.
#[derive(Debug, Clone)]
pub struct TableDefinition {
    pub name: String,
    pub columns: Vec<TableColumn>,
    pub indexes: Vec<TableIndex>,
    pub engine: Option<String>,
    pub charset: Option<String>,
}

pub struct TableView {
    pub name: Seq<char>,
    pub columns: Seq<ColumnView>,
    pub indexes: Seq<IndexView>,
    pub engine: Option<Seq<char>>,
    pub charset: Option<Seq<char>>,
}

pub open spec fn column_views(v: Seq<TableColumn>) -> Seq<ColumnView> {
    v.map_values(|c: TableColumn| c@)
}

pub open spec fn index_views(v: Seq<TableIndex>) -> Seq<IndexView> {
    v.map_values(|i: TableIndex| i@)
}

impl View for TableDefinition {
    type V = TableView;

    open spec fn view(&self) -> TableView {
        TableView {
            name: self.name@,
            columns: column_views(self.columns@),
            indexes: index_views(self.indexes@),
            engine: opt_view(self.engine),
            charset: opt_view(self.charset),
        }
    }
}

pub open spec fn table_views(v: Seq<TableDefinition>) -> Seq<TableView> {
    v.map_values(|t: TableDefinition| t@)
}

pub proof fn lemma_str_views_push(v: Seq<String>, x: String)
    ensures
        str_views(v.push(x)) == str_views(v).push(x@),
{
    assert(str_views(v.push(x)) =~= str_views(v).push(x@));
}

pub fn copy_opt(o: &Option<String>) -> (r: Option<String>)
    ensures
        opt_view(r) == opt_view(*o),
{
    match o {
        Some(s) => Some(s.clone()),
        None => None,
    }
}

pub fn copy_strings(v: &Vec<String>) -> (r: Vec<String>)
    ensures
        str_views(r@) == str_views(v@),
{
    let mut r: Vec<String> = Vec::new();
    let mut i: usize = 0;
    while i < v.len()
        invariant
            i <= v@.len(),
            str_views(r@) == str_views(v@).take(i as int),
        decreases v@.len() - i,
    {
        let c = v[i].clone();
        proof {
            lemma_str_views_push(r@, c);
            assert(str_views(v@).take(i + 1) =~= str_views(v@).take(i as int).push(v@[i as int]@));
        }
        r.push(c);
        i = i + 1;
        assert(str_views(r@) =~= str_views(v@).take(i as int));
    }
    assert(str_views(v@).take(v@.len() as int) =~= str_views(v@));
    r
}

impl TableColumn {
    /// A copy with the same view.
    pub fn duplicate(&self) -> (r: TableColumn)
        ensures
            r@ == self@,
    {
        TableColumn {
            name: self.name.clone(),
            data_type: self.data_type.clone(),
            nullable: self.nullable,
            default_value: copy_opt(&self.default_value),
            auto_increment: self.auto_increment,
            comment: copy_opt(&self.comment),
        }
    }
}

impl TableIndex {
    /// A copy with the same view.
    pub fn duplicate(&self) -> (r: TableIndex)
        ensures
            r@ == self@,
    {
        TableIndex {
            name: self.name.clone(),
            columns: copy_strings(&self.columns),
            is_primary: self.is_primary,
            is_unique: self.is_unique,
            index_type: copy_opt(&self.index_type),
        }
    }
}

} // verus!
