use vstd::prelude::*;

use std::sync::Arc;

use crate::batch::{columns_conform, project_view, view_wf, Batch, BatchView};
use crate::error::Error;
use crate::schema::{indices_in_range, project_seq, Field, NaiveSchema};

verus! {

/// The views of a sequence of batches.
pub open spec fn batch_views(bs: Seq<Batch>) -> Seq<BatchView> {
    bs.map_values(|b: Batch| b@)
}

/// The views of the batches of a result.
pub open spec fn results_view(r: Result<Vec<Batch>, Error>) -> Result<Seq<BatchView>, Error> {
    match r {
        Ok(v) => Ok(batch_views(v@)),
        Err(e) => Err(e),
    }
}

/// What a scan of a source with schema `schema` and stored batches
/// `batches` returns: the batches as they are without a projection; each
/// narrowed to the projected columns with one; a schema error where an
/// ordinal of the projection lies outside the schema.
pub open spec fn scan_result(
    schema: Seq<Field>,
    batches: Seq<BatchView>,
    projection: Option<Seq<usize>>,
) -> Result<Seq<BatchView>, Error> {
    match projection {
        None => Ok(batches),
        Some(p) => {
            if indices_in_range(p, schema.len()) {
                Ok(batches.map_values(|b: BatchView| project_view(b, p)))
            } else {
                Err(Error::Schema)
            }
        },
    }
}

/// A scan without a projection yields the stored batches as they are, so
/// that, the source being read only, it yields the same before and after
/// any other scan.
pub proof fn lemma_unprojected_scan(schema: Seq<Field>, batches: Seq<BatchView>)
    ensures
        scan_result(schema, batches, None) == Ok::<Seq<BatchView>, Error>(batches),
{
}

/// A scan by a valid projection yields, for each stored batch conforming to
/// the source's schema, a batch with one column per ordinal whose schema is
/// the source's schema narrowed by the projection.
pub proof fn lemma_projected_scan(schema: Seq<Field>, batches: Seq<BatchView>, p: Seq<usize>)
    requires
        indices_in_range(p, schema.len()),
        forall|k: int|
            0 <= k < batches.len() ==> (#[trigger] batches[k]).schema == schema && view_wf(
                batches[k],
            ),
    ensures
        scan_result(schema, batches, Some(p)) is Ok,
        ({
            let out = scan_result(schema, batches, Some(p))->Ok_0;
            &&& out.len() == batches.len()
            &&& forall|k: int|
                0 <= k < out.len() ==> {
                    &&& (#[trigger] out[k]).columns.len() == p.len()
                    &&& out[k].schema == project_seq(schema, p)
                    &&& out[k].num_rows == batches[k].num_rows
                }
        }),
{
    let out = scan_result(schema, batches, Some(p))->Ok_0;
    assert forall|k: int| 0 <= k < out.len() implies {
        &&& (#[trigger] out[k]).columns.len() == p.len()
        &&& out[k].schema == project_seq(schema, p)
        &&& out[k].num_rows == batches[k].num_rows
    } by {
        assert(out[k] == project_view(batches[k], p));
    }
}

/// The view of an optional projection.
pub open spec fn projection_view(p: Option<Vec<usize>>) -> Option<Seq<usize>> {
    match p {
        Some(v) => Some(v@),
        None => None,
    }
}

/// A provider of batches that all conform to one schema.
pub trait TableSource {
    spec fn spec_schema(&self) -> Seq<Field>;

    spec fn spec_batches(&self) -> Seq<BatchView>;

    /// The full schema of the source.
    fn schema(&self) -> (r: &NaiveSchema)
        ensures
            r@ == self.spec_schema(),
    ;

    /// The stored batches, narrowed to the columns of `projection` where one
    /// is given.
    fn scan(&self, projection: Option<Vec<usize>>) -> (r: Result<Vec<Batch>, Error>)
        ensures
            results_view(r) == scan_result(
                self.spec_schema(),
                self.spec_batches(),
                projection_view(projection),
            ),
            r matches Ok(v) ==> forall|k: int| 0 <= k < v@.len() ==> (#[trigger] v@[k]).wf(),
            r matches Ok(v) ==> forall|k: int|
                0 <= k < v@.len() ==> (#[trigger] v@[k]).spec_schema() == match projection {
                    None => self.spec_schema(),
                    Some(p) => project_seq(self.spec_schema(), p@),
                },
    ;
}

/// A source whose batches are held in memory.
#[derive(Debug)]
pub struct MemTable {
    schema: NaiveSchema,
    batches: Vec<Batch>,
}

impl MemTable {
    /// Every stored batch conforms to the table's schema.
    #[verifier::type_invariant]
    closed spec fn inv(&self) -> bool {
        forall|k: int|
            0 <= k < self.batches@.len() ==> {
                &&& (#[trigger] self.batches@[k]).wf()
                &&& self.batches@[k].spec_schema() == self.schema@
            }
    }
}

/// A memory table shared by the plans that read it.
pub type TableRef = Arc<MemTable>;

impl MemTable {
    /// A table of `batches` under `schema`. Each batch is bound to the
    /// table's schema; a schema error comes where the columns of a batch do
    /// not conform to it.
    pub fn try_create(schema: NaiveSchema, batches: Vec<Batch>) -> (r: Result<TableRef, Error>)
        ensures
            r is Ok <==> forall|k: int|
                0 <= k < batches@.len() ==> columns_conform(
                    schema@,
                    (#[trigger] batches@[k]).spec_columns(),
                    batches@[k].spec_num_rows(),
                ),
            r is Err ==> r == Err::<TableRef, Error>(Error::Schema),
            r matches Ok(t) ==> {
                &&& t.spec_schema() == schema@
                &&& t.spec_batches().len() == batches@.len()
                &&& forall|k: int|
                    0 <= k < batches@.len() ==> (#[trigger] t.spec_batches()[k]) == (BatchView {
                        schema: schema@,
                        columns: batches@[k].spec_columns(),
                        num_rows: batches@[k].spec_num_rows(),
                    })
            },
    {
        let mut bound: Vec<Batch> = Vec::new();
        let mut k: usize = 0;
        while k < batches.len()
            invariant
                k <= batches@.len(),
                bound@.len() == k,
                forall|j: int| 0 <= j < k ==> (#[trigger] bound@[j]).wf(),
                forall|j: int| 0 <= j < k ==> (#[trigger] bound@[j]).spec_schema() == schema@,
                forall|j: int|
                    0 <= j < k ==> (#[trigger] bound@[j])@ == (BatchView {
                        schema: schema@,
                        columns: batches@[j].spec_columns(),
                        num_rows: batches@[j].spec_num_rows(),
                    }),
                forall|j: int|
                    0 <= j < k ==> columns_conform(
                        schema@,
                        (#[trigger] batches@[j]).spec_columns(),
                        batches@[j].spec_num_rows(),
                    ),
            decreases batches@.len() - k,
        {
            let b = &batches[k];
            match Batch::try_new_with_rows(schema.copy(), b.shared_columns(), b.num_rows()) {
                Ok(nb) => {
                    bound.push(nb);
                },
                Err(e) => {
                    return Err(e);
                },
            }
            k = k + 1;
        }
        let t = MemTable { schema, batches: bound };
        assert(t.spec_batches() =~= Seq::new(
            batches@.len(),
            |j: int|
                BatchView {
                    schema: schema@,
                    columns: batches@[j].spec_columns(),
                    num_rows: batches@[j].spec_num_rows(),
                },
        ));
        Ok(Arc::new(t))
    }
}

impl TableSource for MemTable {
    closed spec fn spec_schema(&self) -> Seq<Field> {
        self.schema@
    }

    closed spec fn spec_batches(&self) -> Seq<BatchView> {
        batch_views(self.batches@)
    }

    fn schema(&self) -> (r: &NaiveSchema) {
        &self.schema
    }

    #[verifier::loop_isolation(false)]
    fn scan(&self, projection: Option<Vec<usize>>) -> (r: Result<Vec<Batch>, Error>) {
        proof {
            use_type_invariant(self);
        }
        let ghost requested = projection_view(projection);
        let mut out: Vec<Batch> = Vec::new();
        match projection {
            None => {
                let mut k: usize = 0;
                while k < self.batches.len()
                    invariant
                        forall|j: int|
                            0 <= j < out@.len() ==> (#[trigger] out@[j]).spec_schema() == self.schema@,
                        k <= self.batches@.len(),
                        batch_views(out@) == batch_views(self.batches@).subrange(0, k as int),
                        forall|j: int| 0 <= j < out@.len() ==> (#[trigger] out@[j]).wf(),
                    decreases self.batches@.len() - k,
                {
                    let b = self.batches[k].copy();
                    proof {
                        assert(batch_views(out@.push(b)) =~= batch_views(out@).push(b@));
                        assert(batch_views(self.batches@).subrange(0, k + 1) =~= batch_views(
                            self.batches@,
                        ).subrange(0, k as int).push(b@));
                    }
                    out.push(b);
                    k = k + 1;
                }
                assert(batch_views(self.batches@).subrange(0, k as int) =~= batch_views(
                    self.batches@,
                ));
                Ok(out)
            },
            Some(p) => {
                let mut i: usize = 0;
                while i < p.len()
                    invariant
                        i <= p@.len(),
                        indices_in_range(p@.subrange(0, i as int), self.schema@.len()),
                    decreases p@.len() - i,
                {
                    if p[i] >= self.schema.len() {
                        assert(!indices_in_range(p@, self.schema@.len()));
                        assert(scan_result(self.spec_schema(), self.spec_batches(), requested)
                            == Err::<Seq<BatchView>, Error>(Error::Schema));
                        return Err(Error::Schema);
                    }
                    assert(p@.subrange(0, i + 1) =~= p@.subrange(0, i as int).push(p@[i as int]));
                    i = i + 1;
                }
                assert(p@.subrange(0, i as int) =~= p@);
                let ghost views = batch_views(self.batches@);
                let mut k: usize = 0;
                while k < self.batches.len()
                    invariant
                        views == batch_views(self.batches@),
                        forall|j: int|
                            0 <= j < out@.len() ==> (#[trigger] out@[j]).spec_schema() == project_seq(
                                self.schema@,
                                p@,
                            ),
                        indices_in_range(p@, self.schema@.len()),
                        k <= self.batches@.len(),
                        batch_views(out@) == views.subrange(0, k as int).map_values(
                            |b: BatchView| project_view(b, p@),
                        ),
                        forall|j: int| 0 <= j < out@.len() ==> (#[trigger] out@[j]).wf(),
                    decreases self.batches@.len() - k,
                {
                    let b = &self.batches[k];
                    match b.project(&p) {
                        Ok(nb) => {
                            proof {
                                assert(nb@ == project_view(b@, p@));
                                assert(batch_views(out@.push(nb)) =~= batch_views(out@).push(nb@));
                                assert(views.subrange(0, k + 1).map_values(
                                    |b: BatchView| project_view(b, p@),
                                ) =~= views.subrange(0, k as int).map_values(
                                    |b: BatchView| project_view(b, p@),
                                ).push(nb@));
                            }
                            out.push(nb);
                        },
                        Err(e) => {
                            return Err(e);
                        },
                    }
                    k = k + 1;
                }
                assert(views.subrange(0, k as int) =~= views);
                Ok(out)
            },
        }
    }
}

} // verus!
