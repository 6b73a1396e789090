//! Table schemas and rows.

use vstd::prelude::*;
use vstd::string::StringExecFns;
use vstd::std_specs::cmp::PartialEqSpecImpl;
use crate::field::{FieldKind, FieldKindView};
use crate::value::{Value, ValueView};
use crate::{lemma_position, lemma_position_is, position, views, FieldName, TableName};

verus! {

/// A named column with its declared kind.
#[derive(Debug)]
pub struct TableField {
    name: FieldName,
    kind: FieldKind,
}

/// What a [`TableField`] stands for.
pub struct TableFieldView {
    pub name: Seq<char>,
    pub kind: FieldKindView,
}

impl View for TableField {
    type V = TableFieldView;

    closed spec fn view(&self) -> TableFieldView {
        TableFieldView { name: self.name@, kind: self.kind@ }
    }
}

impl Clone for TableField {
    fn clone(&self) -> (copy: Self)
        ensures
            copy@ == self@,
    {
        Self { name: self.name.clone(), kind: self.kind.clone() }
    }
}

impl PartialEq for TableField {
    fn eq(&self, other: &Self) -> (equal: bool) {
        self.name == other.name && self.kind == other.kind
    }
}

impl PartialEqSpecImpl for TableField {
    open spec fn obeys_eq_spec() -> bool {
        true
    }

    open spec fn eq_spec(&self, other: &Self) -> bool {
        self@ == other@
    }
}

impl Eq for TableField {

}

impl TableField {
    /// A column of the given name and kind.
    pub fn new(name: &str, kind: FieldKind) -> (field: Self)
        ensures
            field@ == (TableFieldView { name: name@, kind: kind@ }),
    {
        Self { name: String::from_str(name), kind }
    }

    /// The name of the column.
    pub fn name(&self) -> (name: FieldName)
        ensures
            name@ == self@.name,
    {
        self.name.clone()
    }

    /// The declared kind of the column.
    pub fn kind(&self) -> (kind: FieldKind)
        ensures
            kind@ == self@.kind,
    {
        self.kind.clone()
    }
}

/// The names of the given fields, in the same order.
pub open spec fn names_of(fields: Seq<TableFieldView>) -> Seq<Seq<char>> {
    Seq::new(fields.len(), |i: int| fields[i].name)
}

/// The key mask that a list of key field names stands for: a column is a key
/// column if it is the first column to bear one of the names.
pub open spec fn key_mask(fields: Seq<TableFieldView>, keys: Seq<Seq<char>>) -> Seq<bool> {
    Seq::new(
        fields.len(),
        |i: int|
            exists|k: int|
                0 <= k < keys.len() && #[trigger] position(names_of(fields), keys[k]) == Some(i),
    )
}

/// The schema of a table: its name, its columns in order, and which of them
/// form the identity key.
#[derive(Debug)]
pub struct Table {
    name: TableName,
    fields: Vec<TableField>,
    key_field_mask: Vec<bool>,
}

/// What a [`Table`] stands for.
pub struct TableView {
    pub name: Seq<char>,
    pub fields: Seq<TableFieldView>,
    pub key_field_mask: Seq<bool>,
}

impl TableView {
    /// The mask says of every column whether it is a key column.
    pub open spec fn well_formed(self) -> bool {
        self.key_field_mask.len() == self.fields.len()
    }
}

impl View for Table {
    type V = TableView;

    closed spec fn view(&self) -> TableView {
        TableView {
            name: self.name@,
            fields: views(self.fields@),
            key_field_mask: self.key_field_mask@,
        }
    }
}

impl Clone for Table {
    fn clone(&self) -> (copy: Self)
        ensures
            copy@ == self@,
    {
        proof {
            use_type_invariant(self);
        }
        let fields = self.fields();
        let mut mask: Vec<bool> = Vec::new();
        let mut i: usize = 0;
        while i < self.key_field_mask.len()
            invariant
                i <= self.key_field_mask.len(),
                mask@ == self.key_field_mask@.take(i as int),
            decreases self.key_field_mask.len() - i,
        {
            mask.push(self.key_field_mask[i]);
            assert(mask@ =~= self.key_field_mask@.take(i + 1));
            i += 1;
        }
        assert(mask@ =~= self.key_field_mask@);
        assert(views(fields@).len() == fields@.len());
        assert(views(self.fields@).len() == self.fields@.len());
        Self { name: self.name.clone(), fields, key_field_mask: mask }
    }
}

impl PartialEq for Table {
    fn eq(&self, other: &Self) -> (equal: bool) {
        proof {
            use_type_invariant(self);
            use_type_invariant(other);
        }
        if self.name != other.name || self.fields.len() != other.fields.len() {
            assert(self.fields.len() != other.fields.len() ==> views(self.fields@).len() != views(
                other.fields@,
            ).len());
            return false;
        }
        let mut i: usize = 0;
        while i < self.fields.len()
            invariant
                i <= self.fields.len(),
                self.fields.len() == other.fields.len(),
                self.key_field_mask.len() == self.fields.len(),
                other.key_field_mask.len() == other.fields.len(),
                forall|j: int| 0 <= j < i ==> self.fields@[j]@ == other.fields@[j]@,
                forall|j: int| 0 <= j < i ==> self.key_field_mask@[j] == other.key_field_mask@[j],
            decreases self.fields.len() - i,
        {
            if self.fields[i] != other.fields[i] {
                assert(views(self.fields@)[i as int] != views(other.fields@)[i as int]);
                return false;
            }
            if self.key_field_mask[i] != other.key_field_mask[i] {
                return false;
            }
            i += 1;
        }
        assert(views(self.fields@) =~= views(other.fields@));
        assert(self.key_field_mask@ =~= other.key_field_mask@);
        true
    }
}

impl PartialEqSpecImpl for Table {
    open spec fn obeys_eq_spec() -> bool {
        true
    }

    open spec fn eq_spec(&self, other: &Self) -> bool {
        self@ == other@
    }
}

impl Eq for Table {

}

impl Table {
    #[verifier::type_invariant]
    spec fn mask_covers_fields(&self) -> bool {
        self.key_field_mask@.len() == self.fields@.len()
    }

    /// A table in which every column is a key column.
    pub fn new(name: &str, fields: Vec<TableField>) -> (table: Self)
        ensures
            table@.name == name@,
            table@.fields == views(fields@),
            table@.key_field_mask == Seq::new(fields@.len(), |i: int| true),
            table@.well_formed(),
    {
        let mut mask: Vec<bool> = Vec::new();
        let mut i: usize = 0;
        while i < fields.len()
            invariant
                i <= fields.len(),
                mask@.len() == i,
                forall|j: int| 0 <= j < i ==> mask@[j],
            decreases fields.len() - i,
        {
            mask.push(true);
            i += 1;
        }
        assert(mask@ =~= Seq::new(fields@.len(), |i: int| true));
        Self { name: String::from_str(name), key_field_mask: mask, fields }
    }

    /// The same table with the named columns, and no others, as its key
    /// columns. Every name must be that of a column.
    pub fn with_key_fields(self, key_field_names: Vec<FieldName>) -> (table: Self)
        requires
            forall|k: int|
                0 <= k < key_field_names@.len() ==> position(
                    names_of(self@.fields),
                    #[trigger] key_field_names@[k]@,
                ).is_some(),
        ensures
            table@.name == self@.name,
            table@.fields == self@.fields,
            table@.key_field_mask == key_mask(self@.fields, views(key_field_names@)),
            table@.well_formed(),
    {
        proof {
            use_type_invariant(&self);
        }
        let ghost fields = self@.fields;
        let ghost keys = views(key_field_names@);
        let mut mask: Vec<bool> = Vec::new();
        let mut i: usize = 0;
        while i < self.fields.len()
            invariant
                i <= self.fields.len(),
                mask@.len() == i,
                forall|j: int| 0 <= j < i ==> !mask@[j],
            decreases self.fields.len() - i,
        {
            mask.push(false);
            i += 1;
        }
        let mut k: usize = 0;
        while k < key_field_names.len()
            invariant
                k <= key_field_names.len(),
                fields == self@.fields,
                keys == views(key_field_names@),
                mask@.len() == fields.len(),
                forall|n: int|
                    0 <= n < keys.len() ==> position(names_of(fields), #[trigger] keys[n]).is_some(),
                forall|i: int|
                    0 <= i < mask@.len() ==> (mask@[i] <==> exists|n: int|
                        0 <= n < k && #[trigger] position(names_of(fields), keys[n]) == Some(i)),
            decreases key_field_names.len() - k,
        {
            let ghost before = mask@;
            let found = self.field_index(key_field_names[k].clone());
            assert(keys[k as int] == key_field_names@[k as int]@);
            assert(position(names_of(fields), keys[k as int]).is_some());
            proof {
                lemma_position(names_of(fields), keys[k as int]);
            }
            if let Some(i) = found {
                mask.set(i, true);
            }
            assert forall|i: int| 0 <= i < mask@.len() implies (mask@[i] <==> exists|n: int|
                0 <= n < k + 1 && #[trigger] position(names_of(fields), keys[n]) == Some(i)) by {
                if mask@[i] {
                    if before[i] {
                        let n = choose|n: int|
                            0 <= n < k && #[trigger] position(names_of(fields), keys[n]) == Some(i);
                        assert(0 <= n < k + 1 && position(names_of(fields), keys[n]) == Some(i));
                    } else {
                        assert(position(names_of(fields), keys[k as int]) == Some(i));
                    }
                } else {
                    if exists|n: int|
                        0 <= n < k + 1 && #[trigger] position(names_of(fields), keys[n]) == Some(
                            i,
                        ) {
                        let n = choose|n: int|
                            0 <= n < k + 1 && #[trigger] position(names_of(fields), keys[n])
                                == Some(i);
                        if n < k {
                            assert(before[i]);
                        }
                    }
                }
            }
            k += 1;
        }
        assert(mask@ =~= key_mask(fields, keys));
        Self { name: self.name, fields: self.fields, key_field_mask: mask }
    }

    /// The name of the table.
    pub fn name(&self) -> (name: TableName)
        ensures
            name@ == self@.name,
    {
        self.name.clone()
    }

    /// The columns of the table, in order.
    pub fn fields(&self) -> (fields: Vec<TableField>)
        ensures
            views(fields@) == self@.fields,
    {
        let mut fields: Vec<TableField> = Vec::new();
        let mut i: usize = 0;
        while i < self.fields.len()
            invariant
                i <= self.fields.len(),
                fields@.len() == i,
                forall|j: int| 0 <= j < i ==> fields@[j]@ == self.fields@[j]@,
            decreases self.fields.len() - i,
        {
            fields.push(self.fields[i].clone());
            i += 1;
        }
        assert(views(fields@) =~= views(self.fields@));
        fields
    }

    /// Which columns form the identity key, column by column.
    pub fn key_field_mask(&self) -> (mask: &Vec<bool>)
        ensures
            mask@ == self@.key_field_mask,
            self@.well_formed(),
    {
        proof {
            use_type_invariant(self);
        }
        &self.key_field_mask
    }

    /// The index of the first column with the given name.
    pub fn field_index(&self, field_name: FieldName) -> (index: Option<usize>)
        ensures
            match index {
                Some(i) => position(names_of(self@.fields), field_name@) == Some(i as int),
                None => position(names_of(self@.fields), field_name@).is_none(),
            },
    {
        let ghost names = names_of(self@.fields);
        let mut i: usize = 0;
        while i < self.fields.len()
            invariant
                i <= self.fields.len(),
                names == names_of(self@.fields),
                forall|j: int| 0 <= j < i ==> names[j] != field_name@,
            decreases self.fields.len() - i,
        {
            if self.fields[i].name == field_name {
                proof {
                    lemma_position_is(names, field_name@, Some(i as int));
                }
                return Some(i);
            }
            i += 1;
        }
        proof {
            lemma_position_is(names, field_name@, None);
        }
        None
    }
}

/// Whether two rows are equal: they have the same length and hold equal values
/// place by place.
pub open spec fn rows_equal(a: Seq<ValueView>, b: Seq<ValueView>) -> bool {
    &&& a.len() == b.len()
    &&& forall|i: int| 0 <= i < a.len() ==> (#[trigger] a[i]).equals(b[i])
}

/// The values of `row` at the given columns, in the order of the columns.
pub open spec fn picked(row: Seq<ValueView>, columns: Seq<int>) -> Seq<ValueView> {
    Seq::new(columns.len(), |i: int| row[columns[i]])
}

/// The columns as mathematical integers.
pub open spec fn indices(columns: Seq<usize>) -> Seq<int> {
    Seq::new(columns.len(), |i: int| columns[i] as int)
}

/// An ordered sequence of values, one for each field of a table or of a result.
#[derive(Debug)]
pub struct Row {
    values: Vec<Value>,
}

impl View for Row {
    type V = Seq<ValueView>;

    closed spec fn view(&self) -> Seq<ValueView> {
        views(self.values@)
    }
}

impl Clone for Row {
    fn clone(&self) -> (copy: Self)
        ensures
            copy@ == self@,
    {
        let mut values: Vec<Value> = Vec::new();
        let mut i: usize = 0;
        while i < self.values.len()
            invariant
                i <= self.values.len(),
                values@.len() == i,
                forall|j: int| 0 <= j < i ==> values@[j]@ == self.values@[j]@,
            decreases self.values.len() - i,
        {
            values.push(self.values[i].clone());
            i += 1;
        }
        assert(views(values@) =~= views(self.values@));
        Self { values }
    }
}

impl PartialEq for Row {
    fn eq(&self, other: &Self) -> (equal: bool) {
        if self.values.len() != other.values.len() {
            return false;
        }
        let mut i: usize = 0;
        while i < self.values.len()
            invariant
                i <= self.values.len(),
                self.values.len() == other.values.len(),
                forall|j: int| 0 <= j < i ==> self.values@[j]@.equals(other.values@[j]@),
            decreases self.values.len() - i,
        {
            if self.values[i] != other.values[i] {
                assert(!(views(self.values@)[i as int]).equals(views(other.values@)[i as int]));
                return false;
            }
            i += 1;
        }
        true
    }
}

impl PartialEqSpecImpl for Row {
    open spec fn obeys_eq_spec() -> bool {
        true
    }

    open spec fn eq_spec(&self, other: &Self) -> bool {
        rows_equal(self@, other@)
    }
}

impl Row {
    /// The row that holds the given values.
    pub fn new(values: Vec<Value>) -> (row: Self)
        ensures
            row@ == views(values@),
    {
        Self { values }
    }

    /// The values of the row, in order.
    pub fn values(&self) -> (values: &Vec<Value>)
        ensures
            views(values@) == self@,
    {
        &self.values
    }

    /// The number of values in the row.
    pub fn len(&self) -> (len: usize)
        ensures
            len == self@.len(),
    {
        self.values.len()
    }

    /// The row made of the values at the given columns, which must all lie
    /// within the row.
    pub fn pick_columns(&self, columns: &Vec<usize>) -> (row: Self)
        requires
            forall|i: int| 0 <= i < columns@.len() ==> columns@[i] < self@.len(),
        ensures
            row@ == picked(self@, indices(columns@)),
    {
        let mut values: Vec<Value> = Vec::new();
        let mut i: usize = 0;
        while i < columns.len()
            invariant
                i <= columns.len(),
                values@.len() == i,
                forall|j: int| 0 <= j < columns@.len() ==> columns@[j] < self.values@.len(),
                forall|j: int| 0 <= j < i ==> values@[j]@ == self.values@[columns@[j] as int]@,
            decreases columns.len() - i,
        {
            values.push(self.values[columns[i]].clone());
            i += 1;
        }
        assert(views(values@) =~= picked(views(self.values@), indices(columns@)));
        Self { values }
    }
}

/// A copy of the rows, in the same order.
pub fn clone_rows(rows: &Vec<Row>) -> (copy: Vec<Row>)
    ensures
        views(copy@) == views(rows@),
        copy@.len() == rows@.len(),
        forall|j: int| 0 <= j < rows@.len() ==> (#[trigger] copy@[j])@ == rows@[j]@,
{
    let mut copy: Vec<Row> = Vec::new();
    let mut i: usize = 0;
    while i < rows.len()
        invariant
            i <= rows.len(),
            copy@.len() == i,
            forall|j: int| 0 <= j < i ==> copy@[j]@ == rows@[j]@,
        decreases rows.len() - i,
    {
        copy.push(rows[i].clone());
        i += 1;
    }
    assert(views(copy@) =~= views(rows@));
    copy
}

} // verus!
