use vstd::prelude::*;

use crate::batch::{share, ArrayRef, Batch, BatchView};
use crate::error::Error;
use crate::schema::{opt_view, resolve_name};

verus! {

/// A reference to one column of a batch, by position or by name. A name is
/// resolved against each batch it is evaluated on, never when the
/// expression is built.
#[derive(Debug)]
pub enum ColumnExpr {
    Index(usize),
    Name { qualifier: Option<String>, name: String },
}

impl ColumnExpr {
    /// The column that this expression yields on the batch `b`.
    pub open spec fn spec_evaluate(&self, b: BatchView) -> Result<ArrayRef, Error> {
        match self {
            ColumnExpr::Index(i) => {
                if (*i as int) < b.columns.len() {
                    Ok(b.columns[*i as int])
                } else {
                    Err(Error::Index)
                }
            },
            ColumnExpr::Name { qualifier, name } => match resolve_name(
                b.schema,
                opt_view(*qualifier),
                name@,
            ) {
                Ok(i) => Ok(b.columns[i as int]),
                Err(e) => Err(e),
            },
        }
    }

    pub fn by_index(i: usize) -> (r: ColumnExpr)
        ensures
            r == ColumnExpr::Index(i),
    {
        ColumnExpr::Index(i)
    }

    pub fn by_name(qualifier: Option<String>, name: String) -> (r: ColumnExpr)
        ensures
            r == (ColumnExpr::Name { qualifier, name }),
    {
        ColumnExpr::Name { qualifier, name }
    }

    /// The column of `batch` that this expression designates, shared with
    /// the batch rather than copied.
    pub fn evaluate(&self, batch: &Batch) -> (r: Result<ArrayRef, Error>)
        requires
            batch.wf(),
        ensures
            r == self.spec_evaluate(batch@),
    {
        match self {
            ColumnExpr::Index(i) => {
                if *i < batch.num_columns() {
                    Ok(share(batch.column(*i)))
                } else {
                    Err(Error::Index)
                }
            },
            ColumnExpr::Name { qualifier, name } => {
                match batch.schema().index_of_name(qualifier, name) {
                    Ok(i) => Ok(share(batch.column(i))),
                    Err(e) => Err(e),
                }
            },
        }
    }
}

} // verus!
