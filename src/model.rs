use vstd::prelude::*;

use crate::geometry::Point;

verus! {

/// A column of a table: its name and its SQL type.
pub struct Column {
    pub name: String,
    pub data_type: String,
}

/// A foreign key: a local column and the name of the table it refers to.
pub struct ForeignKey {
    pub column: String,
    pub referenced_table: String,
}

/// Where a table stands on the canvas, in diagram space.
#[derive(Clone, Copy, Debug, PartialEq, Eq, Structural)]
pub struct TablePoint(pub Point);

/// A table of the diagram.
///
/// `visible` is derived: the filter recomputes it.
pub struct Table {
    pub name: String,
    pub schema: String,
    pub subject_area: String,
    pub position: TablePoint,
    pub columns: Vec<Column>,
    pub foreign_keys: Vec<ForeignKey>,
    pub visible: bool,
}

/// The unit that is loaded and saved: tables in order.
pub struct Model {
    pub tables: Vec<Table>,
}

pub struct ColumnView {
    pub name: Seq<char>,
    pub data_type: Seq<char>,
}

pub struct ForeignKeyView {
    pub column: Seq<char>,
    pub referenced_table: Seq<char>,
}

pub struct TableView {
    pub name: Seq<char>,
    pub schema: Seq<char>,
    pub subject_area: Seq<char>,
    pub position: Point,
    pub columns: Seq<ColumnView>,
    pub foreign_keys: Seq<ForeignKeyView>,
    pub visible: bool,
}

impl View for Column {
    type V = ColumnView;

    open spec fn view(&self) -> ColumnView {
        ColumnView { name: self.name@, data_type: self.data_type@ }
    }
}

impl View for ForeignKey {
    type V = ForeignKeyView;

    open spec fn view(&self) -> ForeignKeyView {
        ForeignKeyView { column: self.column@, referenced_table: self.referenced_table@ }
    }
}

impl View for Table {
    type V = TableView;

    open spec fn view(&self) -> TableView {
        TableView {
            name: self.name@,
            schema: self.schema@,
            subject_area: self.subject_area@,
            position: self.position.0,
            columns: columns_view(self.columns@),
            foreign_keys: foreign_keys_view(self.foreign_keys@),
            visible: self.visible,
        }
    }
}

/// The views of a sequence of columns.
pub open spec fn columns_view(cs: Seq<Column>) -> Seq<ColumnView> {
    cs.map_values(|c: Column| c@)
}

/// The views of a sequence of foreign keys.
pub open spec fn foreign_keys_view(fs: Seq<ForeignKey>) -> Seq<ForeignKeyView> {
    fs.map_values(|f: ForeignKey| f@)
}

/// The views of a sequence of tables.
pub open spec fn tables_view(ts: Seq<Table>) -> Seq<TableView> {
    ts.map_values(|t: Table| t@)
}

impl View for Model {
    type V = Seq<TableView>;

    open spec fn view(&self) -> Seq<TableView> {
        tables_view(self.tables@)
    }
}

impl Clone for Column {
    fn clone(&self) -> (r: Self)
        ensures
            r@ == self@,
    {
        Column { name: self.name.clone(), data_type: self.data_type.clone() }
    }
}

impl Clone for ForeignKey {
    fn clone(&self) -> (r: Self)
        ensures
            r@ == self@,
    {
        ForeignKey { column: self.column.clone(), referenced_table: self.referenced_table.clone() }
    }
}

fn clone_columns(cs: &Vec<Column>) -> (r: Vec<Column>)
    ensures
        columns_view(r@) == columns_view(cs@),
{
    let mut r: Vec<Column> = Vec::new();
    let mut i: usize = 0;
    while i < cs.len()
        invariant
            i <= cs.len(),
            r@.len() == i,
            forall|j: int| 0 <= j < i ==> #[trigger] r@[j]@ == cs@[j]@,
        decreases cs.len() - i,
    {
        r.push(cs[i].clone());
        i += 1;
    }
    assert(columns_view(r@) =~= columns_view(cs@));
    r
}

fn clone_foreign_keys(fs: &Vec<ForeignKey>) -> (r: Vec<ForeignKey>)
    ensures
        foreign_keys_view(r@) == foreign_keys_view(fs@),
{
    let mut r: Vec<ForeignKey> = Vec::new();
    let mut i: usize = 0;
    while i < fs.len()
        invariant
            i <= fs.len(),
            r@.len() == i,
            forall|j: int| 0 <= j < i ==> #[trigger] r@[j]@ == fs@[j]@,
        decreases fs.len() - i,
    {
        r.push(fs[i].clone());
        i += 1;
    }
    assert(foreign_keys_view(r@) =~= foreign_keys_view(fs@));
    r
}

impl Clone for Table {
    fn clone(&self) -> (r: Self)
        ensures
            r@ == self@,
    {
        Table {
            name: self.name.clone(),
            schema: self.schema.clone(),
            subject_area: self.subject_area.clone(),
            position: self.position,
            columns: clone_columns(&self.columns),
            foreign_keys: clone_foreign_keys(&self.foreign_keys),
            visible: self.visible,
        }
    }
}

/// The DDL line of column `i` of `cs`: a tab, the quoted name, a tab, the type,
/// and a comma unless it is the last column.
pub open spec fn column_ddl(cs: Seq<ColumnView>, i: int) -> Seq<char> {
    "\t`"@ + cs[i].name + "`\t"@ + cs[i].data_type + if i < cs.len() - 1 {
        ","@
    } else {
        ""@
    }
}

/// The DDL of the first `n` columns of `cs`.
pub open spec fn columns_ddl(cs: Seq<ColumnView>, n: int) -> Seq<char>
    decreases n,
{
    if n <= 0 {
        Seq::empty()
    } else {
        columns_ddl(cs, n - 1) + column_ddl(cs, n - 1)
    }
}

/// The `CREATE TABLE` statement of one table.
pub open spec fn table_ddl(t: TableView) -> Seq<char> {
    "CREATE TABLE "@ + t.schema + ".`"@ + t.name + "` (\n"@ + columns_ddl(t.columns, t.columns.len() as int)
        + ");\n"@
}

/// The DDL of a sequence of tables: one statement per visible table, in order;
/// hidden tables give nothing.
pub open spec fn ddl_of(ts: Seq<TableView>) -> Seq<char>
    decreases ts.len(),
{
    if ts.len() == 0 {
        Seq::empty()
    } else {
        ddl_of(ts.drop_last()) + if ts.last().visible {
            table_ddl(ts.last())
        } else {
            Seq::empty()
        }
    }
}

/// A copy of a sequence of tables.
pub fn clone_tables(ts: &Vec<Table>) -> (r: Vec<Table>)
    ensures
        tables_view(r@) == tables_view(ts@),
{
    let mut r: Vec<Table> = Vec::new();
    let mut i: usize = 0;
    while i < ts.len()
        invariant
            i <= ts.len(),
            r@.len() == i,
            forall|j: int| 0 <= j < i ==> #[trigger] r@[j]@ == ts@[j]@,
        decreases ts.len() - i,
    {
        r.push(ts[i].clone());
        i += 1;
    }
    assert(tables_view(r@) =~= tables_view(ts@));
    r
}

impl Model {
    /// The DDL of the visible tables: export is scoped to what the filter shows.
    pub fn to_ddl(&self) -> (r: String)
        ensures
            r@ == ddl_of(self@),
    {
        let mut ddl = String::new();
        let mut i: usize = 0;
        while i < self.tables.len()
            invariant
                i <= self.tables.len(),
                ddl@ == ddl_of(self@.take(i as int)),
            decreases self.tables.len() - i,
        {
            let table = &self.tables[i];
            assert(self@.take(i + 1).drop_last() =~= self@.take(i as int));
            assert(self@.take(i + 1).last() == table@);
            if table.visible {
                ddl.append("CREATE TABLE ");
                ddl.append(table.schema.as_str());
                ddl.append(".`");
                ddl.append(table.name.as_str());
                ddl.append("` (\n");
                let n = table.columns.len();
                let mut j: usize = 0;
                while j < n
                    invariant
                        j <= n,
                        n == table.columns.len(),
                        table == &self.tables[i as int],
                        ddl@ == ddl_of(self@.take(i as int)) + "CREATE TABLE "@ + table.schema@
                            + ".`"@ + table.name@ + "` (\n"@ + columns_ddl(table@.columns, j as int),
                    decreases n - j,
                {
                    let col = &table.columns[j];
                    ddl.append("\t`");
                    ddl.append(col.name.as_str());
                    ddl.append("`\t");
                    ddl.append(col.data_type.as_str());
                    if j + 1 < n {
                        ddl.append(",");
                    }
                    proof {
                        reveal_strlit("");
                    }
                    j += 1;
                    assert(table@.columns[j - 1] == col@);
                    assert(ddl@ =~= ddl_of(self@.take(i as int)) + "CREATE TABLE "@
                        + table.schema@ + ".`"@ + table.name@ + "` (\n"@ + columns_ddl(
                        table@.columns,
                        j as int,
                    ));
                }
                ddl.append(");\n");
                assert(ddl@ =~= ddl_of(self@.take(i + 1)));
            } else {
                assert(ddl@ =~= ddl_of(self@.take(i + 1)));
            }
            i += 1;
        }
        assert(self@.take(i as int) =~= self@);
        ddl
    }
}

} // verus!
