use database_reflection::metadata::consts::{
    METADATA_CASCADE, METADATA_CHARSET, METADATA_COLLATION, METADATA_FLAG_AUTO_INCREMENT,
    METADATA_FLAG_DEFAULT_CURRENT_TIMESTAMP, METADATA_FLAG_NULLABLE,
    METADATA_FLAG_ON_UPDATE_CURRENT_TIMESTAMP, METADATA_FLAG_PRIMARY, METADATA_FLAG_UNIQUE,
    METADATA_FLAG_UNSIGNED, METADATA_ON_DELETE, METADATA_ON_UPDATE, METADATA_SET_NULL,
};

#[test]
fn consts_are_public_test_consts_are_public() {
    assert!(METADATA_CHARSET.len() > 0);
    assert!(METADATA_COLLATION.len() > 0);
    assert!(METADATA_ON_UPDATE.len() > 0);
    assert!(METADATA_ON_DELETE.len() > 0);
    assert!(METADATA_CASCADE.len() > 0);
    assert!(METADATA_SET_NULL.len() > 0);

    assert!(METADATA_FLAG_UNSIGNED.len() > 0);
    assert!(METADATA_FLAG_NULLABLE.len() > 0);
    assert!(METADATA_FLAG_PRIMARY.len() > 0);
    assert!(METADATA_FLAG_UNIQUE.len() > 0);
    assert!(METADATA_FLAG_AUTO_INCREMENT.len() > 0);
    assert!(METADATA_FLAG_DEFAULT_CURRENT_TIMESTAMP.len() > 0);
    assert!(METADATA_FLAG_ON_UPDATE_CURRENT_TIMESTAMP.len() > 0);
}
