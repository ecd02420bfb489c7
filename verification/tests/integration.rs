use database_reflection::metadata::consts::{
    METADATA_CASCADE, METADATA_CHARSET, METADATA_COLLATION, METADATA_FLAG_AUTO_INCREMENT,
    METADATA_FLAG_NULLABLE, METADATA_FLAG_PRIMARY, METADATA_FLAG_UNSIGNED, METADATA_ON_DELETE,
    METADATA_ON_UPDATE,
};
use database_reflection::reflection::Constraint;
use database_reflection::reflection::Database;
use database_reflection::reflection::Index;
use database_reflection::reflection::Table;
use database_reflection::reflection::{Column, ConstraintSide};
use database_reflection::reflection::{DefaultValue, JsonValue, SqlDatatype, SqlSigned};

fn unsigned_int_col(table: &str, name: &str, auto_increment: bool, primary: bool) -> Column {
    let mut c = Column::new(table, name, SqlDatatype::Int(10, SqlSigned::Signed));
    c.set_meta_flag(METADATA_FLAG_UNSIGNED);
    if auto_increment {
        c.set_meta_flag(METADATA_FLAG_AUTO_INCREMENT);
    }
    if primary {
        c.set_meta_flag(METADATA_FLAG_PRIMARY);
    }
    c
}

fn nullable_varchar_col(table: &str, name: &str, len: u32) -> Column {
    let mut c = Column::new(table, name, SqlDatatype::Varchar(len));
    c.set_meta_flag(METADATA_FLAG_NULLABLE);
    c
}

fn timestamp_col(table: &str, name: &str, on_update: bool, current_default: bool) -> Column {
    let mut c = Column::new(table, name, SqlDatatype::Timestamp);
    if on_update {
        c.set_meta(METADATA_ON_UPDATE, "current_timestamp()");
    }
    if current_default {
        c.set_default(Some(DefaultValue::Value(JsonValue::Str(String::from(
            "current_timestamp()",
        )))));
    }
    c
}

fn get_mock_db() -> Database {
    let db_name = "test";
    let mut db = Database::new(db_name);

    db.set_meta(METADATA_CHARSET, "utf8mb4");
    db.set_meta(METADATA_COLLATION, "utf8mb4_unicode_ci");

    //

    let clients_table_name = "clients";
    let mut clients_table = Table::new(clients_table_name);
    clients_table.set_column(unsigned_int_col(clients_table_name, "client_id", true, true));
    clients_table.set_column(Column::new(
        clients_table_name,
        "email",
        SqlDatatype::Varchar(255),
    ));
    clients_table.set_column(Column::new(
        clients_table_name,
        "password",
        SqlDatatype::Varchar(64),
    ));
    clients_table.set_column(nullable_varchar_col(clients_table_name, "phone", 45));
    clients_table.set_column(nullable_varchar_col(clients_table_name, "first_name", 45));
    clients_table.set_column(nullable_varchar_col(clients_table_name, "last_name", 45));
    let mut is_email_verified = Column::new(
        clients_table_name,
        "is_email_verified",
        SqlDatatype::Tinyint(1, SqlSigned::Signed),
    );
    is_email_verified.set_meta_flag(METADATA_FLAG_UNSIGNED);
    is_email_verified.set_default(Some(DefaultValue::Value(JsonValue::Num(0))));
    clients_table.set_column(is_email_verified);
    clients_table.set_column(nullable_varchar_col(
        clients_table_name,
        "email_verification_code",
        64,
    ));
    clients_table.set_column(nullable_varchar_col(
        clients_table_name,
        "password_reset_code",
        64,
    ));
    clients_table.set_column(timestamp_col(clients_table_name, "last_access", true, true));
    clients_table.set_column(timestamp_col(clients_table_name, "created", false, true));

    if let Some(client_id_col) = clients_table.column("client_id").cloned() {
        clients_table.set_index(Index::new("PRIMARY", client_id_col, true, true));
    }

    if let Some(email_col) = clients_table.column("email").cloned() {
        clients_table.set_index(Index::new("email_UNIQUE", email_col, false, true));
    }

    clients_table.set_meta(METADATA_CHARSET, "utf8mb4");
    clients_table.set_meta(METADATA_COLLATION, "utf8mb4_unicode_ci");

    db.set_table(clients_table);

    //

    let client_tokens_table_name = "client_tokens";
    let mut client_tokens_table = Table::new(client_tokens_table_name);
    client_tokens_table.set_column(unsigned_int_col(
        client_tokens_table_name,
        "client_token_id",
        true,
        true,
    ));
    client_tokens_table.set_column(unsigned_int_col(
        client_tokens_table_name,
        "client_id",
        false,
        false,
    ));
    client_tokens_table.set_column(Column::new(
        client_tokens_table_name,
        "auth_token",
        SqlDatatype::Varchar(64),
    ));
    client_tokens_table.set_column(Column::new(
        client_tokens_table_name,
        "auth_token_expiration_date",
        SqlDatatype::Timestamp,
    ));
    client_tokens_table.set_column(nullable_varchar_col(
        client_tokens_table_name,
        "remote_address",
        64,
    ));
    client_tokens_table.set_column(nullable_varchar_col(
        client_tokens_table_name,
        "user_agent",
        255,
    ));
    client_tokens_table.set_column(timestamp_col(
        client_tokens_table_name,
        "last_access",
        true,
        true,
    ));
    client_tokens_table.set_column(timestamp_col(
        client_tokens_table_name,
        "created",
        false,
        true,
    ));

    if let Some(client_token_id_col) = client_tokens_table.column("client_token_id").cloned() {
        client_tokens_table.set_index(Index::new("PRIMARY", client_token_id_col, true, true));
    }

    if let Some(client_id_col) = client_tokens_table.column("client_id").cloned() {
        client_tokens_table.set_index(Index::new(
            "fk_client_tokens_1_idx",
            client_id_col,
            false,
            false,
        ));
    }

    let foreign_client_id = db
        .table("clients")
        .and_then(|t| t.column("client_id").cloned());
    if let Some(client_id_col) = foreign_client_id {
        let mut fk = Constraint::new(
            "fk_client_tokens_1",
            client_tokens_table.column("client_id").unwrap().clone(),
            client_id_col,
        );
        fk.set_meta(METADATA_ON_DELETE, METADATA_CASCADE);
        fk.set_meta(METADATA_ON_UPDATE, METADATA_CASCADE);
        client_tokens_table.set_constraint(fk);
    }

    client_tokens_table.set_meta(METADATA_CHARSET, "utf8mb4");
    client_tokens_table.set_meta(METADATA_COLLATION, "utf8mb4_unicode_ci");

    db.set_table(client_tokens_table);

    //

    let products_table_name = "products";
    let mut products_table = Table::new(products_table_name);
    products_table.set_column(unsigned_int_col(products_table_name, "product_id", true, true));
    products_table.set_column(nullable_varchar_col(products_table_name, "name", 255));
    let mut is_enabled = Column::new(
        products_table_name,
        "is_enabled",
        SqlDatatype::Tinyint(1, SqlSigned::Signed),
    );
    is_enabled.set_meta_flag(METADATA_FLAG_UNSIGNED);
    is_enabled.set_default(Some(DefaultValue::Value(JsonValue::Num(1))));
    products_table.set_column(is_enabled);

    if let Some(product_id_col) = products_table.column("product_id").cloned() {
        products_table.set_index(Index::new("PRIMARY", product_id_col, true, true));
    }

    products_table.set_meta(METADATA_CHARSET, "utf8mb4");
    products_table.set_meta(METADATA_COLLATION, "utf8mb4_unicode_ci");

    db.set_table(products_table);

    //

    let client_products_table_name = "client_products";
    let mut client_products_table = Table::new(client_products_table_name);
    client_products_table.set_column(unsigned_int_col(
        client_products_table_name,
        "client_product_id",
        true,
        false,
    ));
    client_products_table.set_column(unsigned_int_col(
        client_products_table_name,
        "client_id",
        false,
        false,
    ));
    client_products_table.set_column(unsigned_int_col(
        client_products_table_name,
        "product_id",
        false,
        false,
    ));

    client_products_table.set_index(Index::new(
        "PRIMARY",
        client_products_table
            .column("client_product_id")
            .unwrap()
            .clone(),
        true,
        true,
    ));
    client_products_table.set_index(Index::new(
        "fk_client_products_1_idx",
        client_products_table.column("client_id").unwrap().clone(),
        false,
        false,
    ));
    client_products_table.set_index(Index::new(
        "fk_client_products_2_idx",
        client_products_table.column("product_id").unwrap().clone(),
        false,
        false,
    ));

    let foreign_client_id = db
        .table("clients")
        .and_then(|t| t.column("client_id").cloned());
    if let Some(client_id_col) = foreign_client_id {
        let mut fk = Constraint::new(
            "fk_client_products_1",
            client_products_table.column("client_id").unwrap().clone(),
            client_id_col,
        );
        fk.set_meta(METADATA_ON_DELETE, METADATA_CASCADE);
        fk.set_meta(METADATA_ON_UPDATE, METADATA_CASCADE);
        client_products_table.set_constraint(fk);
    }

    let foreign_product_id = db
        .table("products")
        .and_then(|t| t.column("product_id").cloned());
    if let Some(product_id_col) = foreign_product_id {
        let mut fk = Constraint::new(
            "fk_client_products_2",
            client_products_table.column("product_id").unwrap().clone(),
            product_id_col,
        );
        fk.set_meta(METADATA_ON_DELETE, METADATA_CASCADE);
        fk.set_meta(METADATA_ON_UPDATE, METADATA_CASCADE);
        client_products_table.set_constraint(fk);
    }

    client_products_table.set_meta(METADATA_CHARSET, "utf8mb4");
    client_products_table.set_meta(METADATA_COLLATION, "utf8mb4_unicode_ci");

    db.set_table(client_products_table);

    db
}

#[test]
fn integration_construction() {
    let db = get_mock_db();

    //

    assert!(db
        .table("clients")
        .unwrap()
        .column("phone")
        .unwrap()
        .meta_flag(METADATA_FLAG_NULLABLE));

    assert_eq!(
        db.table("clients").unwrap().meta(METADATA_CHARSET),
        Some("utf8mb4".to_string())
    );

    let col_list = vec!["client_product_id", "client_id", "product_id"];
    for column in db.table("client_products").unwrap().columns().iter() {
        assert!(col_list.contains(&column.name().as_str()));
    }

    assert_eq!(
        db.table("client_products")
            .unwrap()
            .constraint("fk_client_products_1")
            .unwrap()
            .foreign()
            .table()
            .as_str(),
        "clients"
    );

    assert_eq!(
        db.table("client_products")
            .unwrap()
            .constraint_by_column_name("client_id")
            .unwrap()
            .foreign()
            .table()
            .as_str(),
        "clients"
    );

    assert_eq!(
        db.table("client_products")
            .unwrap()
            .constraint_by_column(
                db.table("client_products")
                    .unwrap()
                    .column("client_id")
                    .unwrap()
            )
            .unwrap()
            .foreign()
            .table()
            .as_str(),
        "clients"
    );

    //

    assert_eq!(
        db.table("client_products")
            .unwrap()
            .index("PRIMARY")
            .unwrap()
            .column()
            .name()
            .as_str(),
        "client_product_id"
    );

    assert_eq!(
        db.table("client_products")
            .unwrap()
            .index_by_column_name("client_id")
            .unwrap()
            .column()
            .name()
            .as_str(),
        "client_id"
    );

    assert_eq!(
        db.table("client_products")
            .unwrap()
            .index_by_column(
                db.table("client_products")
                    .unwrap()
                    .column("client_id")
                    .unwrap()
            )
            .unwrap()
            .column()
            .name()
            .as_str(),
        "client_id"
    );

    //

    assert_eq!(db.table("client_products").unwrap().constraints().len(), 2);

    let constr_list = vec!["fk_client_products_1", "fk_client_products_2"];
    for constr in db.table("client_products").unwrap().constraints().iter() {
        assert!(constr_list.contains(&constr.name().as_str()));
    }

    //

    assert_eq!(db.table("client_products").unwrap().indexes().len(), 3);

    let idx_list = vec![
        "PRIMARY",
        "fk_client_products_1_idx",
        "fk_client_products_2_idx",
    ];
    for idx in db.table("client_products").unwrap().indexes().iter() {
        assert!(idx_list.contains(&idx.name().as_str()));
    }

    for table in db.tables().iter() {
        assert_eq!(table.primary_key_count(), 1);
    }

    assert_eq!(
        db.table("clients").unwrap().primary_key(),
        Some("client_id".to_string())
    );
    assert_eq!(
        db.table("clients").unwrap().primary_key_column(),
        db.table("clients").unwrap().column("client_id")
    );

    assert_eq!(db.table("clients").unwrap().primary_keys().len(), 1);
    assert_eq!(
        db.table("clients").unwrap().primary_keys().iter().next().cloned(),
        Some("client_id".to_string())
    );
    assert_eq!(
        db.table("clients").unwrap().primary_key_columns().first(),
        db.table("clients").unwrap().column("client_id")
    );

    //

    assert_eq!(db.constraints().len(), 3);

    //

    for c in db
        .constraints_by_table(db.table("clients").unwrap(), None)
        .iter()
    {
        println!(
            "Constraint {}.{} -> {}.{}",
            c.local().table(),
            c.local().name(),
            c.foreign().table(),
            c.foreign().name()
        );
    }

    println!();

    for c in db
        .constraints_by_table(db.table("products").unwrap(), None)
        .iter()
    {
        println!(
            "Constraint {}.{} -> {}.{}",
            c.local().table(),
            c.local().name(),
            c.foreign().table(),
            c.foreign().name()
        );
    }

    println!();

    for c in db
        .constraints_by_table(
            db.table("client_products").unwrap(),
            Some(ConstraintSide::Local),
        )
        .iter()
    {
        println!(
            "Constraint {}.{} -> {}.{}",
            c.local().table(),
            c.local().name(),
            c.foreign().table(),
            c.foreign().name()
        );
    }

    println!();

    for c in db
        .constraints_by_column(
            db.table("client_products")
                .unwrap()
                .column("client_id")
                .unwrap(),
            None,
        )
        .iter()
    {
        println!(
            "Constraint {}.{} -> {}.{}",
            c.local().table(),
            c.local().name(),
            c.foreign().table(),
            c.foreign().name()
        );
    }

    println!();

    for c in db
        .constraints_by_column(
            db.table("products").unwrap().column("product_id").unwrap(),
            None,
        )
        .iter()
    {
        println!(
            "Constraint {}.{} -> {}.{}",
            c.local().table(),
            c.local().name(),
            c.foreign().table(),
            c.foreign().name()
        );
    }

    assert_eq!(db.name(), "test");
    assert_eq!(db.meta(METADATA_CHARSET), Some(String::from("utf8mb4")));
    assert_eq!(
        db.meta(METADATA_COLLATION),
        Some(String::from("utf8mb4_unicode_ci"))
    );
    assert_eq!(db.meta("shit"), None);
}

#[test]
fn constraints_partition_by_side() {
    let db = get_mock_db();

    // client_products holds one cross-referencing constraint per foreign
    // table, and clients sits on the foreign side of two constraints
    let local = db.constraints_by_table(
        db.table("client_products").unwrap(),
        Some(ConstraintSide::Local),
    );
    assert_eq!(local.len(), 2);

    let foreign = db.constraints_by_table(
        db.table("client_products").unwrap(),
        Some(ConstraintSide::Foreign),
    );
    assert_eq!(foreign.len(), 0);

    let either = db.constraints_by_table(db.table("client_products").unwrap(), None);
    assert_eq!(either.len(), 2);

    let clients_foreign =
        db.constraints_by_table(db.table("clients").unwrap(), Some(ConstraintSide::Foreign));
    assert_eq!(clients_foreign.len(), 2);
    let clients_local =
        db.constraints_by_table(db.table("clients").unwrap(), Some(ConstraintSide::Local));
    assert_eq!(clients_local.len(), 0);

    let product_col = db.table("products").unwrap().column("product_id").unwrap();
    let by_col_foreign = db.constraints_by_column(product_col, Some(ConstraintSide::Foreign));
    assert_eq!(by_col_foreign.len(), 1);
    assert_eq!(by_col_foreign[0].name().as_str(), "fk_client_products_2");
    let by_col_local = db.constraints_by_column(product_col, Some(ConstraintSide::Local));
    assert_eq!(by_col_local.len(), 0);

    let by_col_name = db.constraints_by_column_name("client_id", None);
    assert_eq!(by_col_name.len(), 2);
}
