//! The table store, and the engine that answers queries over it.

use vstd::prelude::*;
use vstd::string::StringExecFns;
use crate::builtin_functions::{builtin_registry, functions};
use crate::function::{registry_of, Function, FunctionDict, FunctionView};
use crate::query::{Query, QueryFieldView, QueryResult, QueryResultView};
use crate::table::{clone_rows, Row, Table, TableView};
use crate::value::ValueView;
use crate::{
    lemma_position, lemma_position_is, outcome, position, views, QueryError, QueryErrorView,
    TableName,
};

verus! {

/// Why a change to the tables failed.
#[derive(Debug)]
pub enum ApplyError {
    NoSuchTable(TableName),
    /// A table of that name exists already, with another schema.
    AddCannotModify(TableName),
}

/// What an [`ApplyError`] stands for.
pub enum ApplyErrorView {
    NoSuchTable(Seq<char>),
    AddCannotModify(Seq<char>),
}

impl View for ApplyError {
    type V = ApplyErrorView;

    open spec fn view(&self) -> ApplyErrorView {
        match self {
            ApplyError::NoSuchTable(name) => ApplyErrorView::NoSuchTable(name@),
            ApplyError::AddCannotModify(name) => ApplyErrorView::AddCannotModify(name@),
        }
    }
}

impl Clone for ApplyError {
    fn clone(&self) -> (copy: Self)
        ensures
            copy@ == self@,
    {
        match self {
            ApplyError::NoSuchTable(name) => ApplyError::NoSuchTable(name.clone()),
            ApplyError::AddCannotModify(name) => ApplyError::AddCannotModify(name.clone()),
        }
    }
}

/// A change to the tables.
pub enum Delta {
    CreateTable(Table),
    DropTable(TableName),
    AddRow(TableName, Row),
    RemoveRow(TableName, Row),
}

/// What a [`Delta`] stands for.
pub enum DeltaView {
    CreateTable(TableView),
    DropTable(Seq<char>),
    AddRow(Seq<char>, Seq<ValueView>),
    RemoveRow(Seq<char>, Seq<ValueView>),
}

impl View for Delta {
    type V = DeltaView;

    open spec fn view(&self) -> DeltaView {
        match self {
            Delta::CreateTable(table) => DeltaView::CreateTable(table@),
            Delta::DropTable(name) => DeltaView::DropTable(name@),
            Delta::AddRow(name, row) => DeltaView::AddRow(name@, row@),
            Delta::RemoveRow(name, row) => DeltaView::RemoveRow(name@, row@),
        }
    }
}

/// What a [`DataDB`] stands for: the tables, for each table its rows, and the
/// functions that calls can name.
pub struct DataDBView {
    pub tables: Seq<TableView>,
    pub table_rows: Seq<Seq<Seq<ValueView>>>,
    pub functions: Map<Seq<char>, FunctionView>,
}

impl DataDBView {
    /// The names of the tables, in order.
    pub open spec fn table_names(self) -> Seq<Seq<char>> {
        Seq::new(self.tables.len(), |i: int| self.tables[i].name)
    }

    /// Every table has its rows, no two tables bear the same name, and every
    /// row holds one value for each field of its table.
    pub open spec fn well_formed(self) -> bool {
        &&& self.table_rows.len() == self.tables.len()
        &&& forall|i: int, j: int|
            0 <= i < j < self.tables.len() ==> (#[trigger] self.tables[i]).name
                != (#[trigger] self.tables[j]).name
        &&& forall|i: int, k: int|
            0 <= i < self.table_rows.len() && 0 <= k < self.table_rows[i].len()
                ==> (#[trigger] self.table_rows[i][k]).len() == self.tables[i].fields.len()
    }

    /// The index of the table of the given name.
    pub open spec fn table_index(self, name: Seq<char>) -> Option<int> {
        position(self.table_names(), name)
    }

    /// The rows of the named table, under the table's fields, each bound to the
    /// table.
    pub open spec fn table_result(self, name: Seq<char>) -> Result<
        QueryResultView,
        QueryErrorView,
    > {
        match self.table_index(name) {
            None => Err(QueryErrorView::NoSuchTable(name)),
            Some(i) => Ok(
                QueryResultView {
                    fields: Seq::new(
                        self.tables[i].fields.len(),
                        |k: int|
                            QueryFieldView {
                                table: Some(name),
                                field: self.tables[i].fields[k].name,
                            },
                    ),
                    rows: self.table_rows[i],
                },
            ),
        }
    }

    /// The store after a table was created. A table that exists already is
    /// left as it is, and must be the same.
    pub open spec fn create_table(self, table: TableView) -> Result<DataDBView, ApplyErrorView> {
        match self.table_index(table.name) {
            Some(i) => if self.tables[i] == table {
                Ok(self)
            } else {
                Err(ApplyErrorView::AddCannotModify(table.name))
            },
            None => Ok(
                DataDBView {
                    tables: self.tables.push(table),
                    table_rows: self.table_rows.push(Seq::empty()),
                    functions: self.functions,
                },
            ),
        }
    }

    /// The store after a table was dropped, with its rows.
    pub open spec fn drop_table(self, name: Seq<char>) -> Result<DataDBView, ApplyErrorView> {
        match self.table_index(name) {
            Some(i) => Ok(
                DataDBView {
                    tables: self.tables.remove(i),
                    table_rows: self.table_rows.remove(i),
                    functions: self.functions,
                },
            ),
            None => Err(ApplyErrorView::NoSuchTable(name)),
        }
    }

    /// The store after a row was added behind the rows of a table.
    pub open spec fn add_row(self, name: Seq<char>, row: Seq<ValueView>) -> Result<
        DataDBView,
        ApplyErrorView,
    > {
        match self.table_index(name) {
            Some(i) => Ok(
                DataDBView {
                    tables: self.tables,
                    table_rows: self.table_rows.update(i, self.table_rows[i].push(row)),
                    functions: self.functions,
                },
            ),
            None => Err(ApplyErrorView::NoSuchTable(name)),
        }
    }

    /// Whether the row can be added to the named table: it holds one value for
    /// each field of the table, if there is such a table.
    pub open spec fn row_fits(self, name: Seq<char>, row: Seq<ValueView>) -> bool {
        match self.table_index(name) {
            Some(i) => row.len() == self.tables[i].fields.len(),
            None => true,
        }
    }

    /// The store after a change. Rows are not removed.
    pub open spec fn apply(self, delta: DeltaView) -> Result<DataDBView, ApplyErrorView>
        recommends
            !(delta is RemoveRow),
    {
        match delta {
            DeltaView::CreateTable(table) => self.create_table(table),
            DeltaView::DropTable(name) => self.drop_table(name),
            DeltaView::AddRow(name, row) => self.add_row(name, row),
            DeltaView::RemoveRow(_, _) => Ok(self),
        }
    }
}

/// How a change ended: the store is the one after the change, or, where the
/// change failed, the one before it.
pub open spec fn changed(
    before: DataDBView,
    after: DataDBView,
    result: Result<(), ApplyError>,
    expected: Result<DataDBView, ApplyErrorView>,
) -> bool {
    match expected {
        Ok(store) => result.is_ok() && after == store,
        Err(error) => result.is_err() && result->Err_0@ == error && after == before,
    }
}

/// The tables, their rows and the functions.
pub struct DataDB {
    tables: Vec<Table>,
    table_rows: Vec<Vec<Row>>,
    functions: FunctionDict,
}

impl View for DataDB {
    type V = DataDBView;

    closed spec fn view(&self) -> DataDBView {
        DataDBView {
            tables: views(self.tables@),
            table_rows: Seq::new(self.table_rows@.len(), |i: int| views(self.table_rows@[i]@)),
            functions: self.functions@,
        }
    }
}

impl DataDB {
    /// A store without tables, with the functions that the engine provides.
    pub fn new() -> (db: Self)
        ensures
            db@.tables.len() == 0,
            db@.table_rows.len() == 0,
            db@.functions == builtin_registry(),
            db@.well_formed(),
    {
        let table = functions();
        let ghost entries = Seq::new(
            table@.len(),
            |i: int| (table@[i].0@, FunctionView::Native(table@[i].1.builtin())),
        );
        let mut dict = FunctionDict::new();
        let mut i: usize = 0;
        assert(entries.take(0) =~= Seq::empty());
        while i < table.len()
            invariant
                i <= table.len(),
                entries == Seq::new(
                    table@.len(),
                    |i: int| (table@[i].0@, FunctionView::Native(table@[i].1.builtin())),
                ),
                dict@ == registry_of(entries.take(i as int)),
            decreases table.len() - i,
        {
            assert(entries.take(i + 1).drop_last() =~= entries.take(i as int));
            dict.insert(table[i].0.clone(), Function::Native(table[i].1));
            i += 1;
        }
        assert(entries.take(2) =~= entries);
        assert(entries.drop_last().drop_last() =~= Seq::empty());
        assert(registry_of(entries) == builtin_registry()) by {
            reveal_with_fuel(registry_of, 3);
        }
        Self { tables: Vec::new(), table_rows: Vec::new(), functions: dict }
    }

    /// The functions that calls can name.
    pub fn function_dict(&self) -> (dict: FunctionDict)
        ensures
            dict@ == self@.functions,
    {
        self.functions.clone()
    }

    /// The index of the table of the given name.
    pub fn table_index(&self, name: TableName) -> (index: Option<usize>)
        ensures
            match index {
                Some(i) => self@.table_index(name@) == Some(i as int) && i < self@.tables.len(),
                None => self@.table_index(name@).is_none(),
            },
    {
        let ghost names = self@.table_names();
        let mut i: usize = 0;
        while i < self.tables.len()
            invariant
                i <= self.tables.len(),
                names == self@.table_names(),
                forall|j: int| 0 <= j < i ==> names[j] != name@,
            decreases self.tables.len() - i,
        {
            if self.tables[i].name() == name {
                proof {
                    lemma_position_is(names, name@, Some(i as int));
                }
                return Some(i);
            }
            i += 1;
        }
        proof {
            lemma_position_is(names, name@, None);
        }
        None
    }

    /// The table at the given index, which must be that of a table.
    pub fn table_by_index(&self, index: usize) -> (table: Table)
        requires
            index < self@.tables.len(),
        ensures
            table@ == self@.tables[index as int],
    {
        self.tables[index].clone()
    }

    /// The table of the given name.
    pub fn table(&self, name: TableName) -> (table: Option<Table>)
        ensures
            match self@.table_index(name@) {
                Some(i) => table.is_some() && table->Some_0@ == self@.tables[i],
                None => table.is_none(),
            },
    {
        match self.table_index(name) {
            Some(index) => Some(self.table_by_index(index)),
            None => None,
        }
    }

    /// The rows of the table of the given name.
    pub fn all_rows(&self, name: TableName) -> (rows: Option<Vec<Row>>)
        requires
            self@.well_formed(),
        ensures
            match self@.table_index(name@) {
                Some(i) => rows.is_some() && views(rows->Some_0@) == self@.table_rows[i],
                None => rows.is_none(),
            },
    {
        match self.table_index(name) {
            Some(index) => Some(clone_rows(&self.table_rows[index])),
            None => None,
        }
    }

    /// Adds a table. A table of that name that exists already is left as it is,
    /// and must have the same schema.
    pub fn create_table(&mut self, table: Table) -> (result: Result<(), ApplyError>)
        requires
            old(self)@.well_formed(),
        ensures
            changed(old(self)@, final(self)@, result, old(self)@.create_table(table@)),
            final(self)@.well_formed(),
    {
        let ghost before = self@;
        if let Some(i) = self.table_index(table.name()) {
            if self.tables[i] != table {
                return Err(ApplyError::AddCannotModify(table.name()));
            }
        } else {
            proof {
                lemma_position(before.table_names(), table@.name);
            }
            self.tables.push(table);
            let rows: Vec<Row> = Vec::new();
            assert(views(rows@) =~= Seq::<Seq<ValueView>>::empty());
            self.table_rows.push(rows);
            assert(self@.tables =~= before.tables.push(table@));
            assert(self@.table_rows =~= before.table_rows.push(Seq::empty()));
            assert forall|i: int, j: int| 0 <= i < j < self@.tables.len() implies (
            #[trigger] self@.tables[i]).name != (#[trigger] self@.tables[j]).name by {
                if j == before.tables.len() {
                    assert(before.table_names()[i] == before.tables[i].name);
                }
            }
        }
        Ok(())
    }

    /// Drops the table of the given name, and its rows.
    pub fn drop_table(&mut self, name: TableName) -> (result: Result<(), ApplyError>)
        requires
            old(self)@.well_formed(),
        ensures
            changed(old(self)@, final(self)@, result, old(self)@.drop_table(name@)),
            final(self)@.well_formed(),
    {
        let ghost before = self@;
        if let Some(i) = self.table_index(name.clone()) {
            self.tables.remove(i);
            self.table_rows.remove(i);
            assert(self@.tables =~= before.tables.remove(i as int));
            assert(self@.table_rows =~= before.table_rows.remove(i as int));
            Ok(())
        } else {
            Err(ApplyError::NoSuchTable(name))
        }
    }

    /// Adds a row behind the rows of the named table. The row must hold one
    /// value for each field of the table.
    pub fn add_row(&mut self, name: TableName, row: Row) -> (result: Result<(), ApplyError>)
        requires
            old(self)@.well_formed(),
            old(self)@.row_fits(name@, row@),
        ensures
            changed(old(self)@, final(self)@, result, old(self)@.add_row(name@, row@)),
            final(self)@.well_formed(),
    {
        let ghost before = self@;
        match self.table_index(name.clone()) {
            Some(i) => {
                let mut rows = self.table_rows.remove(i);
                let ghost stored = views(rows@);
                rows.push(row);
                assert(views(rows@) =~= stored.push(row@));
                self.table_rows.insert(i, rows);
                assert(self@.table_rows =~= before.table_rows.update(
                    i as int,
                    before.table_rows[i as int].push(row@),
                ));
                Ok(())
            },
            None => Err(ApplyError::NoSuchTable(name)),
        }
    }
}

/// The engine: a table store, and the place where it is kept, if it has one.
pub struct SrimDB {
    filepath: Option<String>,
    data_db: DataDB,
}

impl SrimDB {
    /// The tables, their rows and the functions of the engine.
    pub closed spec fn data(&self) -> DataDBView {
        self.data_db@
    }

    /// The place where the store is kept.
    pub closed spec fn path(&self) -> Option<Seq<char>> {
        match self.filepath {
            Some(path) => Some(path@),
            None => None,
        }
    }

    /// An engine without tables, kept nowhere.
    pub fn new() -> (db: Self)
        ensures
            db.path().is_none(),
            db.data().tables.len() == 0,
            db.data().table_rows.len() == 0,
            db.data().functions == builtin_registry(),
            db.data().well_formed(),
    {
        Self { filepath: None, data_db: DataDB::new() }
    }

    /// The same engine, kept at the given place. It must not have one yet.
    pub fn with_path(self, filepath: &str) -> (db: Self)
        requires
            self.path().is_none(),
        ensures
            db.path() == Some(filepath@),
            db.data() == self.data(),
    {
        Self { filepath: Some(String::from_str(filepath)), data_db: self.data_db }
    }

    /// The place where the store is kept.
    pub fn filepath(&self) -> (path: Option<String>)
        ensures
            match path {
                Some(p) => self.path() == Some(p@),
                None => self.path().is_none(),
            },
    {
        match &self.filepath {
            Some(path) => Some(path.clone()),
            None => None,
        }
    }

    /// The table store of the engine.
    pub fn data_db(&self) -> (db: &DataDB)
        ensures
            db@ == self.data(),
    {
        &self.data_db
    }

    /// Answers a query.
    pub fn query(&self, query: Query) -> (result: Result<QueryResult, QueryError>)
        requires
            self.data().well_formed(),
        ensures
            outcome(result) == query@.executed(self.data()),
    {
        query.execute(&self.data_db)
    }

    /// Changes the tables. Rows cannot be removed: a change that removes one
    /// must not be handed over, and ends the program if it is. A row that is
    /// added must hold one value for each field of its table.
    pub fn apply(&mut self, delta: Delta) -> (result: Result<(), ApplyError>)
        requires
            old(self).data().well_formed(),
            !(delta is RemoveRow),
            delta matches Delta::AddRow(name, row) ==> old(self).data().row_fits(name@, row@),
        ensures
            changed(old(self).data(), final(self).data(), result, old(self).data().apply(delta@)),
            final(self).data().well_formed(),
            final(self).path() == old(self).path(),
    {
        match delta {
            Delta::CreateTable(table) => self.data_db.create_table(table),
            Delta::DropTable(name) => self.data_db.drop_table(name),
            Delta::AddRow(name, row) => self.data_db.add_row(name, row),
            Delta::RemoveRow(_, _) => vstd::pervasive::unreached(),
        }
    }
}

} // verus!
