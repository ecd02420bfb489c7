use database_reflection::reflection::{Column, Index, SqlDatatype, SqlSigned};

#[test]
fn test_index_integrity() {
    let column = Column::new("local", "local_id", SqlDatatype::Int(10, SqlSigned::Unsigned));

    let index = Index::new("ind_local_1", column, true, false);

    assert_eq!(index.name(), &String::from("ind_local_1"));
    assert_eq!(index.column().name(), &String::from("local_id"));
    assert!(index.primary());
    assert!(!index.unique());
}
