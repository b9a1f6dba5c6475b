use std::sync::Arc;

use naive_db::batch::{ArrayRef, Batch, Column};
use naive_db::datasource::{MemTable, TableRef, TableSource};
use naive_db::error::Error;
use naive_db::expression::ColumnExpr;
use naive_db::physical_plan::{PhysicalPlan, ProjectionPlan, ScanPlan};
use naive_db::schema::{DataType, Field, NaiveSchema};

fn int_field(q: &str, name: &str, nullable: bool) -> Field {
    Field::new(name.to_string(), Some(q.to_string()), DataType::Int32, nullable)
}

fn ints(v: Vec<i32>) -> ArrayRef {
    Arc::new(Column::Int32(v.into_iter().map(Some).collect()))
}

fn abc_schema() -> NaiveSchema {
    NaiveSchema::new(vec![
        int_field("t1", "a", false),
        int_field("t1", "b", false),
        int_field("t1", "c", false),
    ])
}

fn abc_table() -> TableRef {
    let batch = Batch::try_new(
        abc_schema(),
        vec![ints(vec![1, 2, 3]), ints(vec![4, 5, 6]), ints(vec![7, 8, 9])],
    )
    .unwrap();
    MemTable::try_create(abc_schema(), vec![batch]).unwrap()
}

fn abcd_table() -> TableRef {
    let schema = NaiveSchema::new(vec![
        int_field("t1", "a", false),
        int_field("t1", "b", false),
        int_field("t1", "c", false),
        int_field("t1", "d", true),
    ]);
    let batch = Batch::try_new(
        schema.copy(),
        vec![
            ints(vec![1, 2, 3]),
            ints(vec![4, 5, 6]),
            ints(vec![7, 8, 9]),
            Arc::new(Column::Int32(vec![None, None, Some(9)])),
        ],
    )
    .unwrap();
    MemTable::try_create(schema, vec![batch]).unwrap()
}

#[test]
fn mem_table_test() {
    let mem_table = abcd_table();
    let batches = mem_table.scan(Some(vec![2, 1])).unwrap();
    let batch2 = &batches[0];

    assert_eq!(2, batch2.schema().fields().len());
    let f0 = batch2.schema().field(0).unwrap();
    assert_eq!("c", f0.name);
    assert_eq!(Some("t1".to_string()), f0.qualifier);
    let f1 = batch2.schema().field(1).unwrap();
    assert_eq!("b", f1.name);
    assert_eq!(Some("t1".to_string()), f1.qualifier);
    assert_eq!(2, batch2.num_columns());
}

#[test]
fn test_projection() {
    let schema = NaiveSchema::new(vec![
        Field::new("id".to_string(), None, DataType::Int64, false),
        Field::new("name".to_string(), None, DataType::Utf8, false),
    ]);
    let ids: ArrayRef = Arc::new(Column::Int64(
        vec![1, 2, 4, 5, 6, 7, 8, 9].into_iter().map(Some).collect(),
    ));
    let names: Vec<Option<String>> =
        vec!["veeupup", "alex", "lynne", "alice", "bob", "jack", "cock", "primer"]
            .into_iter()
            .map(|s| Some(s.to_string()))
            .collect();
    let names: ArrayRef = Arc::new(Column::Utf8(names));
    let batch = Batch::try_new(schema.copy(), vec![ids.clone(), names.clone()]).unwrap();
    let source = MemTable::try_create(schema.copy(), vec![batch]).unwrap();
    let scan_plan = ScanPlan::create(source, None).unwrap();

    let expr = vec![
        ColumnExpr::by_index(0),
        ColumnExpr::by_name(None, "name".to_string()),
    ];
    let proj_plan = ProjectionPlan::create(scan_plan, schema, expr);

    let res = proj_plan.execute().unwrap();

    assert_eq!(res.len(), 1);
    let batch = &res[0];
    assert_eq!(batch.column(0), &ids);
    assert_eq!(batch.column(1), &names);
}

#[test]
fn project_schema_reorders_and_repeats() {
    let s = abc_schema();
    let p = s.project(&vec![2, 0, 2]).unwrap();
    assert_eq!(p.len(), 3);
    assert_eq!(p.field(0).unwrap().name, "c");
    assert_eq!(p.field(1).unwrap().name, "a");
    assert_eq!(p.field(2).unwrap().name, "c");
    assert_eq!(s.project(&vec![]).unwrap().len(), 0);
    assert_eq!(s.project(&vec![0, 3]).unwrap_err(), Error::Index);
}

#[test]
fn field_out_of_range_is_index_error() {
    let s = abc_schema();
    assert_eq!(s.field(2).unwrap().name, "c");
    assert_eq!(s.field(3).unwrap_err(), Error::Index);
}

#[test]
fn scan_projection_shape() {
    let t = abc_table();
    let out = t.scan(Some(vec![1, 1, 0])).unwrap();
    assert_eq!(out.len(), 1);
    let b = &out[0];
    assert_eq!(b.num_columns(), 3);
    assert_eq!(b.num_rows(), 3);
    assert_eq!(*b.schema(), t.schema().project(&vec![1, 1, 0]).unwrap());
    assert_eq!(b.column(0), &ints(vec![4, 5, 6]));
    assert_eq!(b.column(1), &ints(vec![4, 5, 6]));
    assert_eq!(b.column(2), &ints(vec![1, 2, 3]));
}

#[test]
fn scan_leaves_source_unchanged() {
    let t = abc_table();
    let before = t.scan(None).unwrap();
    let _ = t.scan(Some(vec![2, 1])).unwrap();
    let _ = t.scan(Some(vec![0, 0, 0, 0])).unwrap();
    let after = t.scan(None).unwrap();
    assert_eq!(before.len(), after.len());
    assert_eq!(before[0].schema(), after[0].schema());
    assert_eq!(before[0].num_columns(), 3);
    for i in 0..3 {
        assert_eq!(before[0].column(i), after[0].column(i));
    }
}

#[test]
fn invalid_scan_projection_fails() {
    let t = abcd_table();
    assert_eq!(t.scan(Some(vec![5])).unwrap_err(), Error::Schema);
    assert_eq!(t.scan(Some(vec![0, 4])).unwrap_err(), Error::Schema);
    assert_eq!(ScanPlan::create(t, Some(vec![5])).unwrap_err(), Error::Schema);
}

#[test]
fn name_resolution_and_ambiguity() {
    let s = NaiveSchema::new(vec![int_field("t1", "a", false), int_field("t1", "b", false)]);
    assert_eq!(s.index_of_name(&None, &"a".to_string()), Ok(0));
    assert_eq!(s.index_of_name(&None, &"b".to_string()), Ok(1));
    assert_eq!(s.index_of_name(&None, &"z".to_string()), Err(Error::NotFound));

    let s2 = NaiveSchema::new(vec![
        int_field("t1", "a", false),
        int_field("t1", "b", false),
        int_field("t2", "a", false),
    ]);
    assert_eq!(s2.index_of_name(&None, &"a".to_string()), Err(Error::AmbiguousName));
    assert_eq!(s2.index_of_name(&Some("t2".to_string()), &"a".to_string()), Ok(2));
    assert_eq!(s2.index_of_name(&Some("t1".to_string()), &"a".to_string()), Ok(0));
    assert_eq!(
        s2.index_of_name(&Some("t3".to_string()), &"a".to_string()),
        Err(Error::NotFound)
    );
}

#[test]
fn scan_then_projection_end_to_end() {
    let t = abc_table();
    let scan = ScanPlan::create(t, Some(vec![2, 1])).unwrap();
    let out_schema = NaiveSchema::new(vec![int_field("t1", "c", false), int_field("t1", "b", false)]);
    let plan = ProjectionPlan::create(
        scan,
        out_schema,
        vec![ColumnExpr::by_index(0), ColumnExpr::by_index(1)],
    );
    let res = plan.execute().unwrap();
    assert_eq!(res.len(), 1);
    assert_eq!(res[0].num_columns(), 2);
    assert_eq!(res[0].num_rows(), 3);
    assert_eq!(res[0].column(0), &ints(vec![7, 8, 9]));
    assert_eq!(res[0].column(1), &ints(vec![4, 5, 6]));
    assert_eq!(plan.schema().field(0).unwrap().name, "c");
    assert_eq!(plan.children().len(), 1);
    assert_eq!(plan.children()[0].children().len(), 0);
}

#[test]
fn projection_by_name_on_projected_layout() {
    let t = abc_table();
    let scan = ScanPlan::create(t, Some(vec![2, 0])).unwrap();
    let out_schema = NaiveSchema::new(vec![int_field("t1", "a", false)]);
    let plan = ProjectionPlan::create(
        scan,
        out_schema,
        vec![ColumnExpr::by_name(Some("t1".to_string()), "a".to_string())],
    );
    let res = plan.execute().unwrap();
    assert_eq!(res[0].column(0), &ints(vec![1, 2, 3]));
}

#[test]
fn projection_with_no_expressions_keeps_rows() {
    let t = abc_table();
    let scan = ScanPlan::create(t, None).unwrap();
    let plan = ProjectionPlan::create(scan, NaiveSchema::empty(), vec![]);
    let res = plan.execute().unwrap();
    assert_eq!(res.len(), 1);
    assert_eq!(res[0].num_columns(), 0);
    assert_eq!(res[0].num_rows(), 3);
}

#[test]
fn projection_errors_abort_execution() {
    let one = NaiveSchema::new(vec![int_field("t1", "a", false)]);
    let by_pos = ProjectionPlan::create(
        ScanPlan::create(abc_table(), None).unwrap(),
        one.copy(),
        vec![ColumnExpr::by_index(3)],
    );
    assert_eq!(by_pos.execute().unwrap_err(), Error::Index);

    let missing = ProjectionPlan::create(
        ScanPlan::create(abc_table(), None).unwrap(),
        one.copy(),
        vec![ColumnExpr::by_name(None, "zz".to_string())],
    );
    assert_eq!(missing.execute().unwrap_err(), Error::NotFound);

    let utf8 = NaiveSchema::new(vec![Field::new("a".to_string(), None, DataType::Utf8, false)]);
    let mismatch = ProjectionPlan::create(
        ScanPlan::create(abc_table(), None).unwrap(),
        utf8,
        vec![ColumnExpr::by_index(0)],
    );
    assert_eq!(mismatch.execute().unwrap_err(), Error::Schema);
}

#[test]
fn ambiguous_name_in_expression() {
    let schema = NaiveSchema::new(vec![int_field("t1", "a", false), int_field("t2", "a", false)]);
    let batch = Batch::try_new(schema.copy(), vec![ints(vec![1]), ints(vec![2])]).unwrap();
    let e = ColumnExpr::by_name(None, "a".to_string());
    assert_eq!(e.evaluate(&batch).unwrap_err(), Error::AmbiguousName);
    let q = ColumnExpr::by_name(Some("t2".to_string()), "a".to_string());
    assert_eq!(q.evaluate(&batch).unwrap(), ints(vec![2]));
    assert_eq!(ColumnExpr::by_index(1).evaluate(&batch).unwrap(), ints(vec![2]));
    assert_eq!(ColumnExpr::by_index(2).evaluate(&batch).unwrap_err(), Error::Index);
}

#[test]
fn batch_shape_is_checked() {
    let s = abc_schema();
    // too few columns
    assert_eq!(
        Batch::try_new(s.copy(), vec![ints(vec![1]), ints(vec![2])]).unwrap_err(),
        Error::Schema
    );
    // unequal lengths
    assert_eq!(
        Batch::try_new(s.copy(), vec![ints(vec![1]), ints(vec![2, 3]), ints(vec![4])]).unwrap_err(),
        Error::Schema
    );
    // wrong type
    let bools: ArrayRef = Arc::new(Column::Boolean(vec![Some(true)]));
    assert_eq!(
        Batch::try_new(s.copy(), vec![ints(vec![1]), bools, ints(vec![4])]).unwrap_err(),
        Error::Schema
    );
    // null in a non-nullable field
    let nulls: ArrayRef = Arc::new(Column::Int32(vec![None]));
    assert_eq!(
        Batch::try_new(s.copy(), vec![ints(vec![1]), nulls, ints(vec![4])]).unwrap_err(),
        Error::Schema
    );
    let ok = Batch::try_new(s.copy(), vec![ints(vec![1]), ints(vec![2]), ints(vec![3])]).unwrap();
    assert_eq!(ok.num_rows(), 1);
    let empty = Batch::try_new(NaiveSchema::empty(), vec![]).unwrap();
    assert_eq!(empty.num_rows(), 0);
    let wide = Batch::try_new_with_rows(NaiveSchema::empty(), vec![], 7).unwrap();
    assert_eq!(wide.num_rows(), 7);
}

#[test]
fn mem_table_rejects_nonconforming_batches() {
    let two = NaiveSchema::new(vec![int_field("t1", "a", false), int_field("t1", "b", false)]);
    let batch = Batch::try_new(two.copy(), vec![ints(vec![1]), ints(vec![2])]).unwrap();
    assert_eq!(MemTable::try_create(abc_schema(), vec![batch]).unwrap_err(), Error::Schema);
    let empty = MemTable::try_create(abc_schema(), vec![]).unwrap();
    assert_eq!(empty.scan(None).unwrap().len(), 0);
    assert_eq!(empty.scan(Some(vec![9])).unwrap_err(), Error::Schema);
}

#[test]
fn batch_project_shares_columns() {
    let s = abc_schema();
    let c = ints(vec![7, 8]);
    let b = Batch::try_new(s, vec![ints(vec![1, 2]), ints(vec![4, 5]), c.clone()]).unwrap();
    let p = b.project(&vec![2]).unwrap();
    assert!(Arc::ptr_eq(p.column(0), &c));
    assert_eq!(p.num_rows(), 2);
    assert_eq!(b.project(&vec![3]).unwrap_err(), Error::Index);
    let e = ColumnExpr::by_index(2).evaluate(&b).unwrap();
    assert!(Arc::ptr_eq(&e, &c));
}

#[test]
fn column_properties() {
    let c = Column::Utf8(vec![Some("x".to_string()), None]);
    assert_eq!(c.len(), 2);
    assert_eq!(c.data_type(), DataType::Utf8);
    assert!(c.has_null());
    assert!(!Column::Boolean(vec![Some(false)]).has_null());
    assert_eq!(Column::Int64(vec![]).len(), 0);
}

#[test]
fn plan_root_is_enum_variant() {
    let plan = ScanPlan::create(abc_table(), Some(vec![0])).unwrap();
    match &*plan {
        PhysicalPlan::Scan(s) => assert_eq!(s.schema.len(), 1),
        PhysicalPlan::Projection(_) => panic!("expected a scan"),
    }
    assert_eq!(plan.schema().len(), 1);
}
