//! Columnar values: arrays of scalars, strings, lists and structs-of-arrays.

use vstd::prelude::*;

verus! {

/// An array with one entry per row.
///
/// Floating-point arrays hold the IEEE 754 bit pattern of each entry. String arrays come
/// in two representations, with narrow and with wide offsets, that hold the same texts.
#[derive(Debug, PartialEq, Eq)]
pub enum ColumnarValue {
    Bool(Vec<bool>),
    Int8(Vec<i8>),
    Int16(Vec<i16>),
    Int32(Vec<i32>),
    Int64(Vec<i64>),
    UInt8(Vec<u8>),
    UInt16(Vec<u16>),
    UInt32(Vec<u32>),
    UInt64(Vec<u64>),
    Float32(Vec<u32>),
    Float64(Vec<u64>),
    Utf8(Vec<String>),
    LargeUtf8(Vec<String>),
    /// One struct instance per row.
    Struct(StructValue),
    /// One array per row.
    List(Vec<ColumnarValue>),
}

/// A named array of a struct value.
#[derive(Debug, PartialEq, Eq)]
pub struct Column {
    pub name: String,
    pub data: ColumnarValue,
}

/// A struct-of-arrays: `rows` instances, stored as parallel arrays that are addressed
/// by name. Every column has exactly `rows` entries.
#[derive(Debug, PartialEq, Eq)]
pub struct StructValue {
    rows: usize,
    columns: Vec<Column>,
}

/// What an array holds: the view of a [`ColumnarValue`].
pub enum ColumnModel {
    Bool(Seq<bool>),
    Int8(Seq<i8>),
    Int16(Seq<i16>),
    Int32(Seq<i32>),
    Int64(Seq<i64>),
    UInt8(Seq<u8>),
    UInt16(Seq<u16>),
    UInt32(Seq<u32>),
    UInt64(Seq<u64>),
    Float32(Seq<u32>),
    Float64(Seq<u64>),
    Utf8(Seq<Seq<char>>),
    LargeUtf8(Seq<Seq<char>>),
    Struct(StructModel),
    List(Seq<ColumnModel>),
}

/// A column of a struct value: the view of a [`Column`].
pub struct ColumnEntry {
    pub name: Seq<char>,
    pub data: ColumnModel,
}

/// What a struct value holds: the view of a [`StructValue`].
pub struct StructModel {
    pub rows: nat,
    pub columns: Seq<ColumnEntry>,
}

impl ColumnModel {
    /// Number of rows of the array.
    pub open spec fn len(self) -> nat {
        match self {
            ColumnModel::Bool(values) => values.len(),
            ColumnModel::Int8(values) => values.len(),
            ColumnModel::Int16(values) => values.len(),
            ColumnModel::Int32(values) => values.len(),
            ColumnModel::Int64(values) => values.len(),
            ColumnModel::UInt8(values) => values.len(),
            ColumnModel::UInt16(values) => values.len(),
            ColumnModel::UInt32(values) => values.len(),
            ColumnModel::UInt64(values) => values.len(),
            ColumnModel::Float32(values) => values.len(),
            ColumnModel::Float64(values) => values.len(),
            ColumnModel::Utf8(values) => values.len(),
            ColumnModel::LargeUtf8(values) => values.len(),
            ColumnModel::Struct(value) => value.rows,
            ColumnModel::List(items) => items.len(),
        }
    }
}

impl StructModel {
    /// Every column has one entry per row.
    pub open spec fn parallel(self) -> bool {
        forall|i: int|
            0 <= i < self.columns.len() ==> (#[trigger] self.columns[i]).data.len() == self.rows
    }

    /// Position of the first column with the name, or the number of columns if there is
    /// none.
    pub open spec fn position(self, name: Seq<char>) -> int
        decreases self.columns.len(),
    {
        if self.columns.len() == 0 {
            0
        } else if self.columns[0].name == name {
            0
        } else {
            1 + (StructModel { rows: self.rows, columns: self.columns.drop_first() }).position(name)
        }
    }

    /// The first column with the name.
    pub open spec fn column(self, name: Seq<char>) -> Option<ColumnModel> {
        let at = self.position(name);
        if at < self.columns.len() {
            Some(self.columns[at].data)
        } else {
            None
        }
    }

    /// The value with one more column at the end.
    pub open spec fn with_column(self, name: Seq<char>, data: ColumnModel) -> StructModel {
        StructModel { rows: self.rows, columns: self.columns.push(ColumnEntry { name, data }) }
    }
}

/// The position of a name lies between zero and the number of columns.
pub proof fn lemma_position_bounds(value: StructModel, name: Seq<char>)
    ensures
        0 <= value.position(name) <= value.columns.len(),
        value.position(name) < value.columns.len() ==> value.columns[value.position(name)].name
            == name,
    decreases value.columns.len(),
{
    if value.columns.len() > 0 && value.columns[0].name != name {
        lemma_position_bounds(
            StructModel { rows: value.rows, columns: value.columns.drop_first() },
            name,
        );
    }
}

/// In a struct value of parallel columns, the column found under a name has one entry
/// per row.
pub proof fn lemma_column_rows(value: StructModel, name: Seq<char>)
    requires
        value.parallel(),
    ensures
        value.column(name) matches Some(column) ==> column.len() == value.rows,
{
    lemma_position_bounds(value, name);
}

/// The texts of a string array.
pub open spec fn texts_view(values: Seq<String>) -> Seq<Seq<char>> {
    Seq::new(values.len(), |i: int| values[i]@)
}

/// What an array holds, as a mathematical value.
pub open spec fn column_model(value: &ColumnarValue) -> ColumnModel
    decreases value,
{
    match value {
        ColumnarValue::Bool(values) => ColumnModel::Bool(values@),
        ColumnarValue::Int8(values) => ColumnModel::Int8(values@),
        ColumnarValue::Int16(values) => ColumnModel::Int16(values@),
        ColumnarValue::Int32(values) => ColumnModel::Int32(values@),
        ColumnarValue::Int64(values) => ColumnModel::Int64(values@),
        ColumnarValue::UInt8(values) => ColumnModel::UInt8(values@),
        ColumnarValue::UInt16(values) => ColumnModel::UInt16(values@),
        ColumnarValue::UInt32(values) => ColumnModel::UInt32(values@),
        ColumnarValue::UInt64(values) => ColumnModel::UInt64(values@),
        ColumnarValue::Float32(values) => ColumnModel::Float32(values@),
        ColumnarValue::Float64(values) => ColumnModel::Float64(values@),
        ColumnarValue::Utf8(values) => ColumnModel::Utf8(texts_view(values@)),
        ColumnarValue::LargeUtf8(values) => ColumnModel::LargeUtf8(texts_view(values@)),
        ColumnarValue::Struct(value) => ColumnModel::Struct(struct_model(value)),
        ColumnarValue::List(items) => ColumnModel::List(list_model(items)),
    }
}

/// The models of the arrays of a list, row by row.
pub open spec fn list_model(items: &Vec<ColumnarValue>) -> Seq<ColumnModel>
    decreases items,
{
    Seq::new(
        items@.len(),
        |i: int|
            if 0 <= i < items@.len() {
                column_model(&items@[i])
            } else {
                ColumnModel::List(Seq::empty())
            },
    )
}

/// What a struct value holds, as a mathematical value.
pub closed spec fn struct_model(value: &StructValue) -> StructModel
    decreases value,
{
    StructModel {
        rows: value.rows as nat,
        columns: Seq::new(
            value.columns@.len(),
            |i: int|
                if 0 <= i < value.columns@.len() {
                    ColumnEntry {
                        name: value.columns@[i].name@,
                        data: column_model(&value.columns@[i].data),
                    }
                } else {
                    ColumnEntry { name: Seq::empty(), data: ColumnModel::List(Seq::empty()) }
                },
        ),
    }
}

impl View for ColumnarValue {
    type V = ColumnModel;

    open spec fn view(&self) -> ColumnModel {
        column_model(self)
    }
}

impl View for Column {
    type V = ColumnEntry;

    open spec fn view(&self) -> ColumnEntry {
        ColumnEntry { name: self.name@, data: self.data@ }
    }
}

impl View for StructValue {
    type V = StructModel;

    open spec fn view(&self) -> StructModel {
        struct_model(self)
    }
}

impl ColumnarValue {
    /// Number of rows of the array.
    pub fn len(&self) -> (n: usize)
        ensures
            n == self@.len(),
    {
        match self {
            ColumnarValue::Bool(values) => values.len(),
            ColumnarValue::Int8(values) => values.len(),
            ColumnarValue::Int16(values) => values.len(),
            ColumnarValue::Int32(values) => values.len(),
            ColumnarValue::Int64(values) => values.len(),
            ColumnarValue::UInt8(values) => values.len(),
            ColumnarValue::UInt16(values) => values.len(),
            ColumnarValue::UInt32(values) => values.len(),
            ColumnarValue::UInt64(values) => values.len(),
            ColumnarValue::Float32(values) => values.len(),
            ColumnarValue::Float64(values) => values.len(),
            ColumnarValue::Utf8(values) => values.len(),
            ColumnarValue::LargeUtf8(values) => values.len(),
            ColumnarValue::Struct(value) => value.rows(),
            ColumnarValue::List(items) => items.len(),
        }
    }
}

impl StructValue {
    #[verifier::type_invariant]
    spec fn columns_are_parallel(&self) -> bool {
        self@.parallel()
    }

    /// A struct value of `rows` instances that has no column yet.
    pub fn new(rows: usize) -> (value: StructValue)
        ensures
            value@ == (StructModel { rows: rows as nat, columns: Seq::empty() }),
    {
        let value = StructValue { rows, columns: Vec::new() };
        assert(value@.columns =~= Seq::empty());
        value
    }

    /// Appends a column that has one entry per row.
    pub fn append_column(self, name: String, data: ColumnarValue) -> (extended: StructValue)
        requires
            data@.len() == self@.rows,
        ensures
            extended@ == self@.with_column(name@, data@),
    {
        proof {
            use_type_invariant(&self);
        }
        let ghost before = self@;
        let ghost entry = (ColumnEntry { name: name@, data: data@ });
        let rows = self.rows;
        let mut columns = self.columns;
        columns.push(Column { name, data });
        proof {
            assert forall|i: int| 0 <= i < columns@.len() implies column_model(
                &(#[trigger] columns@[i]).data,
            ).len() == rows by {
                if i < before.columns.len() {
                    assert(before.columns[i].data.len() == before.rows);
                }
            }
        }
        let value = StructValue { rows, columns };
        proof {
            assert(value@.columns =~= before.columns.push(entry));
        }
        value
    }

    /// Appends a column. A column whose length differs from the row count is refused.
    pub fn with_column(self, name: String, data: ColumnarValue) -> (extended: Option<StructValue>)
        ensures
            match extended {
                Some(value) => data@.len() == self@.rows && value@ == self@.with_column(
                    name@,
                    data@,
                ),
                None => data@.len() != self@.rows,
            },
    {
        if data.len() != self.rows() {
            None
        } else {
            Some(self.append_column(name, data))
        }
    }

    /// Number of instances. Every column has this many entries.
    pub fn rows(&self) -> (n: usize)
        ensures
            n == self@.rows,
            self@.parallel(),
    {
        proof {
            use_type_invariant(self);
        }
        self.rows
    }

    /// Number of columns.
    pub fn column_count(&self) -> (n: usize)
        ensures
            n == self@.columns.len(),
    {
        self.columns.len()
    }

    /// The column at a position, in the order in which the columns were added.
    pub fn column_at(&self, index: usize) -> (column: &Column)
        requires
            index < self@.columns.len(),
        ensures
            column@ == self@.columns[index as int],
    {
        &self.columns[index]
    }

    /// The first column with the given name. It has one entry per row.
    pub fn column_by_name(&self, name: &String) -> (found: Option<&ColumnarValue>)
        ensures
            match found {
                Some(data) => self@.column(name@) == Some(data@) && data@.len() == self@.rows,
                None => self@.column(name@) is None,
            },
    {
        let mut i: usize = 0;
        assert(self@.columns.skip(0) =~= self@.columns);
        while i < self.columns.len()
            invariant
                i <= self.columns@.len(),
                self@.position(name@) == i + (StructModel {
                    rows: self@.rows,
                    columns: self@.columns.skip(i as int),
                }).position(name@),
            decreases self.columns@.len() - i,
        {
            let ghost rest = (StructModel {
                rows: self@.rows,
                columns: self@.columns.skip(i as int),
            });
            proof {
                assert(rest.columns.drop_first() =~= self@.columns.skip(i + 1));
                assert(rest.columns[0] == self.columns@[i as int]@);
            }
            if self.columns[i].name == *name {
                proof {
                    use_type_invariant(self);
                    lemma_column_rows(self@, name@);
                }
                return Some(&self.columns[i].data);
            }
            i = i + 1;
        }
        None
    }
}

} // verus!
