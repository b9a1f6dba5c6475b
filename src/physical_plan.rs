use vstd::prelude::*;

use crate::batch::{columns_conform, ArrayRef, Batch, BatchView};
use crate::datasource::{
    batch_views, projection_view, results_view, scan_result, TableRef, TableSource,
};
use crate::error::Error;
use crate::expression::ColumnExpr;
use crate::schema::NaiveSchema;

verus! {

/// The columns that `exprs` yield on the batch `b`, in order, or the error
/// of the first expression that fails.
pub open spec fn eval_all(exprs: Seq<ColumnExpr>, b: BatchView) -> Result<Seq<ArrayRef>, Error>
    decreases exprs.len(),
{
    if exprs.len() == 0 {
        Ok(Seq::empty())
    } else {
        match eval_all(exprs.drop_last(), b) {
            Err(e) => Err(e),
            Ok(cs) => match exprs.last().spec_evaluate(b) {
                Ok(c) => Ok(cs.push(c)),
                Err(e) => Err(e),
            },
        }
    }
}

/// The batch that a projection with output schema `schema` and expressions
/// `exprs` makes of `b`: the columns the expressions yield, paired with
/// `schema`, with the rows of `b`; a schema error where those columns do
/// not conform to `schema`.
pub open spec fn project_batch(schema: Seq<crate::schema::Field>, exprs: Seq<ColumnExpr>, b: BatchView) -> Result<
    BatchView,
    Error,
> {
    match eval_all(exprs, b) {
        Err(e) => Err(e),
        Ok(cs) => {
            if columns_conform(schema, cs, b.num_rows) {
                Ok(BatchView { schema, columns: cs, num_rows: b.num_rows })
            } else {
                Err(Error::Schema)
            }
        },
    }
}

/// The batches that a projection makes of `bs`, one for each, in order, or
/// the first error.
pub open spec fn project_batches(
    schema: Seq<crate::schema::Field>,
    exprs: Seq<ColumnExpr>,
    bs: Seq<BatchView>,
) -> Result<Seq<BatchView>, Error>
    decreases bs.len(),
{
    if bs.len() == 0 {
        Ok(Seq::empty())
    } else {
        match project_batches(schema, exprs, bs.drop_last()) {
            Err(e) => Err(e),
            Ok(out) => match project_batch(schema, exprs, bs.last()) {
                Ok(o) => Ok(out.push(o)),
                Err(e) => Err(e),
            },
        }
    }
}

/// A leaf plan that reads a table source, narrowed to a projection.
#[derive(Debug)]
pub struct ScanPlan {
    pub source: TableRef,
    pub projection: Option<Vec<usize>>,
    pub schema: NaiveSchema,
}

/// A plan that computes one output column per expression from each batch
/// of its input.
#[derive(Debug)]
pub struct ProjectionPlan {
    pub input: PhysicalPlanRef,
    pub schema: NaiveSchema,
    pub expr: Vec<ColumnExpr>,
}

/// A node of an execution tree.
#[derive(Debug)]
pub enum PhysicalPlan {
    Scan(ScanPlan),
    Projection(ProjectionPlan),
}

/// A plan node owned by its parent.
pub type PhysicalPlanRef = Box<PhysicalPlan>;

impl ScanPlan {
    /// A scan of `source`, narrowed to `projection` where one is given; a
    /// schema error where an ordinal of the projection lies outside the
    /// source's schema.
    pub fn create(source: TableRef, projection: Option<Vec<usize>>) -> (r: Result<
        PhysicalPlanRef,
        Error,
    >)
        ensures
            match projection {
                None => r is Ok,
                Some(p) => r is Ok <==> crate::schema::indices_in_range(
                    p@,
                    source.spec_schema().len(),
                ),
            },
            r is Err ==> r == Err::<PhysicalPlanRef, Error>(Error::Schema),
            r matches Ok(plan) ==> {
                &&& *plan matches PhysicalPlan::Scan(s)
                &&& s.source == source
                &&& projection_view(s.projection) == projection_view(projection)
                &&& s.schema@ == match projection {
                    None => source.spec_schema(),
                    Some(p) => crate::schema::project_seq(source.spec_schema(), p@),
                }
            },
    {
        let schema = match &projection {
            None => source.schema().copy(),
            Some(p) => match source.schema().project(p) {
                Ok(s) => s,
                Err(_) => {
                    return Err(Error::Schema);
                },
            },
        };
        Ok(Box::new(PhysicalPlan::Scan(ScanPlan { source, projection, schema })))
    }
}

impl ProjectionPlan {
    /// A plan that applies `expr` to every batch of `input`, pairing the
    /// results with `schema`.
    pub fn create(input: PhysicalPlanRef, schema: NaiveSchema, expr: Vec<ColumnExpr>) -> (r:
        PhysicalPlanRef)
        ensures
            *r matches PhysicalPlan::Projection(p) && p.input == input && p.schema@ == schema@
                && p.expr@ == expr@,
    {
        Box::new(PhysicalPlan::Projection(ProjectionPlan { input, schema, expr }))
    }
}

/// Applies `exprs` to every batch of `input`, pairing each result with
/// `schema`.
#[verifier::loop_isolation(false)]
fn project_all(schema: &NaiveSchema, exprs: &Vec<ColumnExpr>, input: Vec<Batch>) -> (r: Result<
    Vec<Batch>,
    Error,
>)
    requires
        forall|k: int| 0 <= k < input@.len() ==> (#[trigger] input@[k]).wf(),
    ensures
        results_view(r) == project_batches(schema@, exprs@, batch_views(input@)),
        r matches Ok(v) ==> forall|k: int| 0 <= k < v@.len() ==> (#[trigger] v@[k]).wf(),
{
    let ghost ins = batch_views(input@);
    let mut out: Vec<Batch> = Vec::new();
    let mut k: usize = 0;
    assert(batch_views(out@) =~= Seq::<BatchView>::empty());
    assert(ins.subrange(0, 0) =~= Seq::<BatchView>::empty());
    while k < input.len()
        invariant
            k <= input@.len(),
            ins == batch_views(input@),
            forall|j: int| 0 <= j < input@.len() ==> (#[trigger] input@[j]).wf(),
            forall|j: int| 0 <= j < out@.len() ==> (#[trigger] out@[j]).wf(),
            Ok::<Seq<BatchView>, Error>(batch_views(out@)) == project_batches(
                schema@,
                exprs@,
                ins.subrange(0, k as int),
            ),
        decreases input@.len() - k,
    {
        let b = &input[k];
        assert(ins.subrange(0, k + 1).drop_last() =~= ins.subrange(0, k as int));
        assert(ins.subrange(0, k + 1).last() == b@);
        let mut columns: Vec<ArrayRef> = Vec::new();
        let mut j: usize = 0;
        while j < exprs.len()
            invariant
                j <= exprs@.len(),
                b.wf(),
                Ok::<Seq<ArrayRef>, Error>(columns@) == eval_all(exprs@.subrange(0, j as int), b@),
            decreases exprs@.len() - j,
        {
            assert(exprs@.subrange(0, j + 1).drop_last() =~= exprs@.subrange(0, j as int));
            match exprs[j].evaluate(b) {
                Ok(c) => {
                    columns.push(c);
                },
                Err(e) => {
                    proof {
                        assert(eval_all(exprs@.subrange(0, j + 1), b@) == Err::<Seq<ArrayRef>, Error>(e));
                        lemma_eval_all_err_prefix(exprs@, j + 1, b@);
                        assert(project_batch(schema@, exprs@, b@) == Err::<BatchView, Error>(e));
                        assert(project_batches(schema@, exprs@, ins.subrange(0, k + 1))
                            == Err::<Seq<BatchView>, Error>(e));
                        lemma_project_batches_err_prefix(schema@, exprs@, ins, k + 1);
                    }
                    return Err(e);
                },
            }
            j = j + 1;
        }
        assert(exprs@.subrange(0, j as int) =~= exprs@);
        match Batch::try_new_with_rows(schema.copy(), columns, b.num_rows()) {
            Ok(nb) => {
                proof {
                    assert(batch_views(out@.push(nb)) =~= batch_views(out@).push(nb@));
                }
                out.push(nb);
            },
            Err(e) => {
                proof {
                    lemma_project_batches_err_prefix(schema@, exprs@, ins, k + 1);
                }
                return Err(e);
            },
        }
        k = k + 1;
    }
    assert(ins.subrange(0, k as int) =~= ins);
    Ok(out)
}

/// Once the expressions up to `n` fail, all of them fail alike.
proof fn lemma_eval_all_err_prefix(exprs: Seq<ColumnExpr>, n: int, b: BatchView)
    requires
        0 <= n <= exprs.len(),
        eval_all(exprs.subrange(0, n), b) is Err,
    ensures
        eval_all(exprs, b) == eval_all(exprs.subrange(0, n), b),
    decreases exprs.len() - n,
{
    if n < exprs.len() {
        assert(exprs.subrange(0, n + 1).drop_last() =~= exprs.subrange(0, n));
        lemma_eval_all_err_prefix(exprs, n + 1, b);
    } else {
        assert(exprs.subrange(0, n) =~= exprs);
    }
}

/// Once the batches up to `n` fail, the whole projection fails alike.
proof fn lemma_project_batches_err_prefix(
    schema: Seq<crate::schema::Field>,
    exprs: Seq<ColumnExpr>,
    bs: Seq<BatchView>,
    n: int,
)
    requires
        0 <= n <= bs.len(),
        project_batches(schema, exprs, bs.subrange(0, n)) is Err,
    ensures
        project_batches(schema, exprs, bs) == project_batches(schema, exprs, bs.subrange(0, n)),
    decreases bs.len() - n,
{
    if n < bs.len() {
        assert(bs.subrange(0, n + 1).drop_last() =~= bs.subrange(0, n));
        lemma_project_batches_err_prefix(schema, exprs, bs, n + 1);
    } else {
        assert(bs.subrange(0, n) =~= bs);
    }
}

/// The columns that `exprs` yield on `b`, where all succeed: one per
/// expression, each the one that expression yields.
proof fn lemma_eval_all_ok(exprs: Seq<ColumnExpr>, b: BatchView)
    requires
        eval_all(exprs, b) is Ok,
    ensures
        eval_all(exprs, b)->Ok_0.len() == exprs.len(),
        forall|i: int|
            0 <= i < exprs.len() ==> (#[trigger] exprs[i]).spec_evaluate(b) == Ok::<ArrayRef, Error>(
                eval_all(exprs, b)->Ok_0[i],
            ),
    decreases exprs.len(),
{
    if exprs.len() > 0 {
        lemma_eval_all_ok(exprs.drop_last(), b);
        assert forall|i: int| 0 <= i < exprs.len() implies (#[trigger] exprs[i]).spec_evaluate(b)
            == Ok::<ArrayRef, Error>(eval_all(exprs, b)->Ok_0[i]) by {
            if i < exprs.len() - 1 {
                assert(exprs.drop_last()[i] == exprs[i]);
            }
        }
    }
}

/// A projection neither drops, adds nor reorders batches or rows: where it
/// succeeds on `bs` it yields one batch per input batch, with the same row
/// count, whose column `i` is what expression `i` yields on the input batch.
pub proof fn lemma_projection_batches(
    schema: Seq<crate::schema::Field>,
    exprs: Seq<ColumnExpr>,
    bs: Seq<BatchView>,
)
    requires
        project_batches(schema, exprs, bs) is Ok,
    ensures
        ({
            let out = project_batches(schema, exprs, bs)->Ok_0;
            &&& out.len() == bs.len()
            &&& forall|k: int|
                0 <= k < bs.len() ==> {
                    &&& (#[trigger] out[k]).num_rows == bs[k].num_rows
                    &&& out[k].schema == schema
                    &&& out[k].columns.len() == exprs.len()
                    &&& forall|i: int|
                        0 <= i < exprs.len() ==> (#[trigger] exprs[i]).spec_evaluate(bs[k]) == Ok::<
                            ArrayRef,
                            Error,
                        >(out[k].columns[i])
                }
        }),
    decreases bs.len(),
{
    if bs.len() > 0 {
        lemma_projection_batches(schema, exprs, bs.drop_last());
        lemma_eval_all_ok(exprs, bs.last());
        let out = project_batches(schema, exprs, bs)->Ok_0;
        assert forall|k: int| 0 <= k < bs.len() implies {
            &&& (#[trigger] out[k]).num_rows == bs[k].num_rows
            &&& out[k].schema == schema
            &&& out[k].columns.len() == exprs.len()
            &&& forall|i: int|
                0 <= i < exprs.len() ==> (#[trigger] exprs[i]).spec_evaluate(bs[k]) == Ok::<
                    ArrayRef,
                    Error,
                >(out[k].columns[i])
        } by {
            if k < bs.len() - 1 {
                assert(bs.drop_last()[k] == bs[k]);
            }
        }
    }
}

/// Executing a projection plan yields, for each batch of its input, one
/// batch with the same row count whose column `i` is what expression `i`
/// yields on that input batch.
pub proof fn lemma_projection_plan(p: ProjectionPlan)
    requires
        p.spec_execute() is Ok,
    ensures
        p.input.spec_execute() is Ok,
        ({
            let ins = p.input.spec_execute()->Ok_0;
            let out = p.spec_execute()->Ok_0;
            &&& out.len() == ins.len()
            &&& forall|k: int|
                0 <= k < ins.len() ==> {
                    &&& (#[trigger] out[k]).num_rows == ins[k].num_rows
                    &&& out[k].schema == p.schema@
                    &&& out[k].columns.len() == p.expr@.len()
                    &&& forall|i: int|
                        0 <= i < p.expr@.len() ==> (#[trigger] p.expr@[i]).spec_evaluate(ins[k])
                            == Ok::<ArrayRef, Error>(out[k].columns[i])
                }
        }),
{
    lemma_projection_batches(p.schema@, p.expr@, p.input.spec_execute()->Ok_0);
}

impl ScanPlan {
    /// The batches that executing this scan yields, or its error.
    pub open spec fn spec_execute(&self) -> Result<Seq<BatchView>, Error> {
        scan_result(
            self.source.spec_schema(),
            self.source.spec_batches(),
            projection_view(self.projection),
        )
    }

    /// The schema of the batches this scan yields.
    pub fn schema(&self) -> (r: &NaiveSchema)
        ensures
            r@ == self.schema@,
    {
        &self.schema
    }

    /// Scans the source with the configured projection.
    pub fn execute(&self) -> (r: Result<Vec<Batch>, Error>)
        ensures
            results_view(r) == self.spec_execute(),
            r matches Ok(v) ==> forall|k: int| 0 <= k < v@.len() ==> (#[trigger] v@[k]).wf(),
    {
        self.source.scan(self.projection.clone())
    }
}

impl ProjectionPlan {
    /// The batches that executing this projection yields, or its error.
    pub open spec fn spec_execute(&self) -> Result<Seq<BatchView>, Error>
        decreases self,
    {
        match self.input.spec_execute() {
            Err(e) => Err(e),
            Ok(bs) => project_batches(self.schema@, self.expr@, bs),
        }
    }

    /// The configured output schema.
    pub fn schema(&self) -> (r: &NaiveSchema)
        ensures
            r@ == self.schema@,
    {
        &self.schema
    }

    /// Executes the input to completion, then evaluates every expression on
    /// each of its batches; the first failure aborts the whole execution.
    pub fn execute(&self) -> (r: Result<Vec<Batch>, Error>)
        ensures
            results_view(r) == self.spec_execute(),
            r matches Ok(v) ==> forall|k: int| 0 <= k < v@.len() ==> (#[trigger] v@[k]).wf(),
        decreases self,
    {
        match self.input.execute() {
            Err(e) => Err(e),
            Ok(input) => project_all(&self.schema, &self.expr, input),
        }
    }

    /// The single input of this projection.
    pub fn children(&self) -> (r: Vec<&PhysicalPlan>)
        ensures
            r@ == seq![&*self.input],
    {
        let mut v: Vec<&PhysicalPlan> = Vec::new();
        v.push(&*self.input);
        v
    }
}

impl PhysicalPlan {
    /// The batches that executing this plan yields, or its error.
    pub open spec fn spec_execute(&self) -> Result<Seq<BatchView>, Error>
        decreases self,
    {
        match self {
            PhysicalPlan::Scan(s) => s.spec_execute(),
            PhysicalPlan::Projection(p) => p.spec_execute(),
        }
    }

    /// The schema of the batches this plan yields.
    pub fn schema(&self) -> (r: &NaiveSchema)
        ensures
            r@ == match self {
                PhysicalPlan::Scan(s) => s.schema@,
                PhysicalPlan::Projection(p) => p.schema@,
            },
    {
        match self {
            PhysicalPlan::Scan(s) => s.schema(),
            PhysicalPlan::Projection(p) => p.schema(),
        }
    }

    /// Runs the plan: the children first, to completion, then this node's
    /// own transform.
    pub fn execute(&self) -> (r: Result<Vec<Batch>, Error>)
        ensures
            results_view(r) == self.spec_execute(),
            r matches Ok(v) ==> forall|k: int| 0 <= k < v@.len() ==> (#[trigger] v@[k]).wf(),
        decreases self,
    {
        match self {
            PhysicalPlan::Scan(s) => s.execute(),
            PhysicalPlan::Projection(p) => p.execute(),
        }
    }

    /// The plans this node reads from.
    pub fn children(&self) -> (r: Vec<&PhysicalPlan>)
        ensures
            match self {
                PhysicalPlan::Scan(_) => r@.len() == 0,
                PhysicalPlan::Projection(p) => r@ == seq![&*p.input],
            },
    {
        match self {
            PhysicalPlan::Scan(_) => Vec::new(),
            PhysicalPlan::Projection(p) => p.children(),
        }
    }
}

} // verus!
