use triodion::collection::inner_request_size;
use triodion::datatypes::Datatype;
use triodion::schema::{store, Schemas, Table};
use triodion::text::push_decimal;

#[test]
fn schemas_hold_the_requested_datasets() {
    let mut schemas = Schemas::new();
    assert!(!schemas.contains_key(&Datatype::Logs));
    schemas.insert(Datatype::VmTraces, Table { columns: vec![] });
    schemas.insert(Datatype::Logs, Table { columns: vec!["data".to_string()] });
    assert!(schemas.contains_key(&Datatype::Logs));
    assert_eq!(schemas.datatypes(), vec![Datatype::Logs, Datatype::VmTraces]);
    assert!(schemas.get_schema(&Datatype::Logs).unwrap().has_column("data"));
    assert!(!schemas.get_schema(&Datatype::Logs).unwrap().has_column("dat"));
    assert_eq!(
        schemas.get_schema(&Datatype::FourByteCounts).unwrap_err().message(),
        "schema for four_byte_counts missing"
    );
}

#[test]
fn values_are_stored_in_columns_of_the_schema() {
    let table = Table { columns: vec!["a".to_string()] };
    let mut column: Vec<u32> = vec![1];
    store(&table, "a", &mut column, 2);
    store(&table, "b", &mut column, 3);
    assert_eq!(column, vec![1, 2]);
}

#[test]
fn larger_requests_win_over_the_preference() {
    assert_eq!(inner_request_size(true, 1, 50), Some(50));
    assert_eq!(inner_request_size(true, 80, 50), Some(80));
    assert_eq!(inner_request_size(false, 80, 50), None);
}

#[test]
fn decimals_have_no_leading_zeros() {
    let mut text = "n=".to_string();
    push_decimal(&mut text, 0);
    push_decimal(&mut text, 10203);
    push_decimal(&mut text, u64::MAX);
    assert_eq!(text, "n=01020318446744073709551615");
}
