use vstd::prelude::*;

use std::sync::Arc;

use crate::error::Error;
use crate::schema::{indices_in_range, project_seq, DataType, Field, NaiveSchema};

verus! {

/// A typed column of values; `None` is a null.
#[derive(Debug, PartialEq, Eq)]
pub enum Column {
    Boolean(Vec<Option<bool>>),
    Int32(Vec<Option<i32>>),
    Int64(Vec<Option<i64>>),
    Utf8(Vec<Option<String>>),
}

/// A column shared by every batch that holds it.
pub type ArrayRef = Arc<Column>;

/// Whether some item of `s` is a null.
pub open spec fn seq_has_null<T>(s: Seq<Option<T>>) -> bool {
    exists|i: int| 0 <= i < s.len() && (#[trigger] s[i]) is None
}

impl Column {
    pub open spec fn spec_len(&self) -> nat {
        match self {
            Column::Boolean(v) => v@.len(),
            Column::Int32(v) => v@.len(),
            Column::Int64(v) => v@.len(),
            Column::Utf8(v) => v@.len(),
        }
    }

    pub open spec fn spec_data_type(&self) -> DataType {
        match self {
            Column::Boolean(_) => DataType::Boolean,
            Column::Int32(_) => DataType::Int32,
            Column::Int64(_) => DataType::Int64,
            Column::Utf8(_) => DataType::Utf8,
        }
    }

    pub open spec fn spec_has_null(&self) -> bool {
        match self {
            Column::Boolean(v) => seq_has_null(v@),
            Column::Int32(v) => seq_has_null(v@),
            Column::Int64(v) => seq_has_null(v@),
            Column::Utf8(v) => seq_has_null(v@),
        }
    }

    /// The number of values, nulls counted.
    pub fn len(&self) -> (r: usize)
        ensures
            r == self.spec_len(),
    {
        match self {
            Column::Boolean(v) => v.len(),
            Column::Int32(v) => v.len(),
            Column::Int64(v) => v.len(),
            Column::Utf8(v) => v.len(),
        }
    }

    pub fn data_type(&self) -> (r: DataType)
        ensures
            r == self.spec_data_type(),
    {
        match self {
            Column::Boolean(_) => DataType::Boolean,
            Column::Int32(_) => DataType::Int32,
            Column::Int64(_) => DataType::Int64,
            Column::Utf8(_) => DataType::Utf8,
        }
    }

    /// Whether the column holds at least one null.
    pub fn has_null(&self) -> (r: bool)
        ensures
            r == self.spec_has_null(),
    {
        match self {
            Column::Boolean(v) => vec_has_null(v),
            Column::Int32(v) => vec_has_null(v),
            Column::Int64(v) => vec_has_null(v),
            Column::Utf8(v) => vec_has_null(v),
        }
    }
}

fn vec_has_null<T>(v: &Vec<Option<T>>) -> (r: bool)
    ensures
        r == seq_has_null(v@),
{
    let mut i: usize = 0;
    while i < v.len()
        invariant
            i <= v@.len(),
            forall|j: int| 0 <= j < i ==> (#[trigger] v@[j]) is Some,
        decreases v@.len() - i,
    {
        if v[i].is_none() {
            return true;
        }
        i = i + 1;
    }
    false
}

/// Relies on `Arc::clone`: the result points to the same allocation, so it
/// holds the same column.
#[verifier::external_body]
pub(crate) fn share(c: &ArrayRef) -> (r: ArrayRef)
    ensures
        r == *c,
{
    Arc::clone(c)
}

/// Whether `columns` fit `fields` with `rows` rows: one column per field,
/// of the field's type, `rows` values each, and nulls only where the field
/// is nullable.
pub open spec fn columns_conform(fields: Seq<Field>, columns: Seq<ArrayRef>, rows: nat) -> bool {
    &&& columns.len() == fields.len()
    &&& forall|i: int|
        0 <= i < columns.len() ==> {
            &&& (#[trigger] columns[i]).spec_data_type() == fields[i].data_type
            &&& columns[i].spec_len() == rows
            &&& !fields[i].nullable ==> !columns[i].spec_has_null()
        }
}

/// The row count that a batch built from `columns` alone has: the length of
/// the first column, or zero where there is none.
pub open spec fn implied_rows(columns: Seq<ArrayRef>) -> nat {
    if columns.len() == 0 {
        0
    } else {
        columns[0].spec_len()
    }
}

/// A set of equal-length typed columns that conforms to a schema.
#[derive(Debug)]
pub struct Batch {
    pub(crate) schema: NaiveSchema,
    pub(crate) columns: Vec<ArrayRef>,
    pub(crate) num_rows: usize,
}

/// The mathematical content of a batch.
pub struct BatchView {
    pub schema: Seq<Field>,
    pub columns: Seq<ArrayRef>,
    pub num_rows: nat,
}

impl View for Batch {
    type V = BatchView;

    closed spec fn view(&self) -> BatchView {
        BatchView { schema: self.schema@, columns: self.columns@, num_rows: self.num_rows as nat }
    }
}

/// A batch view whose columns conform to its schema.
pub open spec fn view_wf(b: BatchView) -> bool {
    columns_conform(b.schema, b.columns, b.num_rows)
}

/// The batch view narrowed to the columns at `indices`, with the same rows.
pub open spec fn project_view(b: BatchView, indices: Seq<usize>) -> BatchView {
    BatchView {
        schema: project_seq(b.schema, indices),
        columns: project_seq(b.columns, indices),
        num_rows: b.num_rows,
    }
}

impl Batch {
    pub open spec fn spec_schema(&self) -> Seq<Field> {
        self@.schema
    }

    pub open spec fn spec_columns(&self) -> Seq<ArrayRef> {
        self@.columns
    }

    pub open spec fn spec_num_rows(&self) -> nat {
        self@.num_rows
    }

    /// The shape invariant of a batch.
    pub open spec fn wf(&self) -> bool {
        view_wf(self@)
    }

    /// A batch of `rows` rows; fails with a schema error unless the columns
    /// conform to `schema`.
    pub fn try_new_with_rows(schema: NaiveSchema, columns: Vec<ArrayRef>, rows: usize) -> (r: Result<
        Batch,
        Error,
    >)
        ensures
            r is Ok <==> columns_conform(schema@, columns@, rows as nat),
            r is Err ==> r == Err::<Batch, Error>(Error::Schema),
            r matches Ok(b) ==> {
                &&& b.wf()
                &&& b.spec_schema() == schema@
                &&& b.spec_columns() == columns@
                &&& b.spec_num_rows() == rows
            },
    {
        if columns.len() != schema.fields.len() {
            return Err(Error::Schema);
        }
        let mut i: usize = 0;
        while i < columns.len()
            invariant
                i <= columns@.len(),
                columns@.len() == schema@.len(),
                forall|j: int|
                    0 <= j < i ==> {
                        &&& (#[trigger] columns@[j]).spec_data_type() == schema@[j].data_type
                        &&& columns@[j].spec_len() == rows
                        &&& !schema@[j].nullable ==> !columns@[j].spec_has_null()
                    },
            decreases columns@.len() - i,
        {
            let c: &Column = &columns[i];
            let f = &schema.fields[i];
            if c.data_type() != f.data_type || c.len() != rows || (!f.nullable && c.has_null()) {
                return Err(Error::Schema);
            }
            i = i + 1;
        }
        Ok(Batch { schema, columns, num_rows: rows })
    }

    /// A batch whose row count is that of its first column (zero without
    /// columns); fails with a schema error unless the columns conform.
    pub fn try_new(schema: NaiveSchema, columns: Vec<ArrayRef>) -> (r: Result<Batch, Error>)
        ensures
            r is Ok <==> columns_conform(schema@, columns@, implied_rows(columns@)),
            r is Err ==> r == Err::<Batch, Error>(Error::Schema),
            r matches Ok(b) ==> {
                &&& b.wf()
                &&& b.spec_schema() == schema@
                &&& b.spec_columns() == columns@
                &&& b.spec_num_rows() == implied_rows(columns@)
            },
    {
        let rows: usize = if columns.len() == 0 {
            0
        } else {
            columns[0].len()
        };
        Batch::try_new_with_rows(schema, columns, rows)
    }

    pub fn schema(&self) -> (r: &NaiveSchema)
        ensures
            r@ == self.spec_schema(),
    {
        &self.schema
    }

    pub fn num_rows(&self) -> (r: usize)
        ensures
            r == self.spec_num_rows(),
    {
        self.num_rows
    }

    pub fn num_columns(&self) -> (r: usize)
        ensures
            r == self.spec_columns().len(),
    {
        self.columns.len()
    }

    /// The column at ordinal `i`.
    pub fn column(&self, i: usize) -> (r: &ArrayRef)
        requires
            i < self.spec_columns().len(),
        ensures
            *r == self.spec_columns()[i as int],
    {
        &self.columns[i]
    }

    /// The columns of this batch, shared rather than copied.
    pub fn shared_columns(&self) -> (r: Vec<ArrayRef>)
        ensures
            r@ == self.spec_columns(),
    {
        let mut columns: Vec<ArrayRef> = Vec::new();
        let mut i: usize = 0;
        while i < self.columns.len()
            invariant
                i <= self.spec_columns().len(),
                columns@ == self.spec_columns().subrange(0, i as int),
            decreases self.spec_columns().len() - i,
        {
            columns.push(share(&self.columns[i]));
            i = i + 1;
        }
        assert(columns@ =~= self.spec_columns());
        columns
    }

    /// A batch that shares this batch's columns and schema.
    pub fn copy(&self) -> (r: Batch)
        requires
            self.wf(),
        ensures
            r.wf(),
            r.spec_schema() == self.spec_schema(),
            r.spec_columns() == self.spec_columns(),
            r.spec_num_rows() == self.spec_num_rows(),
    {
        let schema = self.schema.copy();
        let columns = self.shared_columns();
        Batch { schema, columns, num_rows: self.num_rows }
    }

    /// The batch made of the columns at the positions `indices`, in that
    /// order, with the schema narrowed alike and the same rows.
    pub fn project(&self, indices: &Vec<usize>) -> (r: Result<Batch, Error>)
        requires
            self.wf(),
        ensures
            indices_in_range(indices@, self.spec_columns().len()) <==> r is Ok,
            r is Err ==> r == Err::<Batch, Error>(Error::Index),
            r matches Ok(b) ==> {
                &&& b.wf()
                &&& b.spec_schema() == project_seq(self.spec_schema(), indices@)
                &&& b.spec_columns() == project_seq(self.spec_columns(), indices@)
                &&& b.spec_num_rows() == self.spec_num_rows()
            },
    {
        let schema = match self.schema.project(indices) {
            Ok(s) => s,
            Err(e) => {
                return Err(e);
            },
        };
        let mut columns: Vec<ArrayRef> = Vec::new();
        let mut k: usize = 0;
        while k < indices.len()
            invariant
                self.wf(),
                k <= indices@.len(),
                indices_in_range(indices@, self.spec_columns().len()),
                columns@ == project_seq(self.spec_columns(), indices@.subrange(0, k as int)),
            decreases indices@.len() - k,
        {
            let i = indices[k];
            columns.push(share(&self.columns[i]));
            assert(indices@.subrange(0, k + 1) =~= indices@.subrange(0, k as int).push(i));
            assert(columns@ =~= project_seq(self.spec_columns(), indices@.subrange(0, k + 1)));
            k = k + 1;
        }
        assert(indices@.subrange(0, k as int) =~= indices@);
        let r = Batch { schema, columns, num_rows: self.num_rows };
        assert(r.wf()) by {
            assert forall|j: int| 0 <= j < r.spec_columns().len() implies {
                &&& (#[trigger] r.spec_columns()[j]).spec_data_type()
                    == r.spec_schema()[j].data_type
                &&& r.spec_columns()[j].spec_len() == r.spec_num_rows()
                &&& !r.spec_schema()[j].nullable ==> !r.spec_columns()[j].spec_has_null()
            } by {
                let i = indices@[j] as int;
                assert(0 <= i < self.spec_columns().len());
                assert(self.spec_columns()[i] == self.spec_columns()[i]);
            }
        }
        Ok(r)
    }
}

} // verus!
