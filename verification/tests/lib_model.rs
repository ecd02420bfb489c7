use database_reflection::metadata::consts::{
    METADATA_CASCADE, METADATA_CHARSET, METADATA_COLLATION, METADATA_FLAG_AUTO_INCREMENT,
    METADATA_FLAG_NULLABLE, METADATA_FLAG_UNSIGNED, METADATA_ON_DELETE, METADATA_ON_UPDATE,
};
use database_reflection::reflection::{
    Column, Constraint, Database, DefaultValue, Index, JsonValue, SqlDatatype, SqlSigned, Table,
};

fn get_mock_db() -> Database {
    let db_name = "test";
    let mut db = Database::new(db_name);

    db.set_meta(METADATA_CHARSET, "utf8mb4");
    db.set_meta(METADATA_COLLATION, "utf8mb4_unicode_ci");

    //

    let clients_table_name = "clients";
    let mut clients_table = Table::new(clients_table_name);
    let mut client_id = Column::new(
        clients_table_name,
        "client_id",
        SqlDatatype::Int(10, SqlSigned::Signed),
    );
    client_id.set_meta_flag(METADATA_FLAG_UNSIGNED);
    client_id.set_meta_flag(METADATA_FLAG_AUTO_INCREMENT);
    clients_table.set_column(client_id);
    clients_table.set_column(Column::new(
        clients_table_name,
        "email",
        SqlDatatype::Varchar(255),
    ));
    clients_table.set_column(Column::new(
        clients_table_name,
        "password",
        SqlDatatype::Varchar(64),
    ));
    let mut phone = Column::new(clients_table_name, "phone", SqlDatatype::Varchar(45));
    phone.set_meta_flag(METADATA_FLAG_NULLABLE);
    clients_table.set_column(phone);
    let mut is_email_verified = Column::new(
        clients_table_name,
        "is_email_verified",
        SqlDatatype::Tinyint(1, SqlSigned::Signed),
    );
    is_email_verified.set_meta_flag(METADATA_FLAG_UNSIGNED);
    is_email_verified.set_default(Some(DefaultValue::Value(JsonValue::Num(0))));
    clients_table.set_column(is_email_verified);
    let mut last_access = Column::new(clients_table_name, "last_access", SqlDatatype::Timestamp);
    last_access.set_meta(METADATA_ON_UPDATE, "current_timestamp()");
    last_access.set_default(Some(DefaultValue::Value(JsonValue::Str(String::from(
        "current_timestamp()",
    )))));
    clients_table.set_column(last_access);

    if let Some(client_id_col) = clients_table.column("client_id").cloned() {
        clients_table.set_index(Index::new("PRIMARY", client_id_col, true, true));
    }
    if let Some(email_col) = clients_table.column("email").cloned() {
        clients_table.set_index(Index::new("email_UNIQUE", email_col, false, true));
    }

    clients_table.set_meta(METADATA_CHARSET, "utf8mb4");
    clients_table.set_meta(METADATA_COLLATION, "utf8mb4_unicode_ci");

    db.set_table(clients_table);

    //

    let client_tokens_table_name = "client_tokens";
    let mut client_tokens_table = Table::new(client_tokens_table_name);
    let mut client_token_id = Column::new(
        client_tokens_table_name,
        "client_token_id",
        SqlDatatype::Int(10, SqlSigned::Signed),
    );
    client_token_id.set_meta_flag(METADATA_FLAG_UNSIGNED);
    client_token_id.set_meta_flag(METADATA_FLAG_AUTO_INCREMENT);
    client_tokens_table.set_column(client_token_id);
    let mut fk_client_id = Column::new(
        client_tokens_table_name,
        "client_id",
        SqlDatatype::Int(10, SqlSigned::Signed),
    );
    fk_client_id.set_meta_flag(METADATA_FLAG_UNSIGNED);
    client_tokens_table.set_column(fk_client_id);
    client_tokens_table.set_column(Column::new(
        client_tokens_table_name,
        "auth_token",
        SqlDatatype::Varchar(64),
    ));

    if let Some(client_token_id_col) = client_tokens_table.column("client_token_id").cloned() {
        client_tokens_table.set_index(Index::new("PRIMARY", client_token_id_col, true, true));
    }
    if let Some(client_id_col) = client_tokens_table.column("client_id").cloned() {
        client_tokens_table.set_index(Index::new(
            "fk_client_tokens_1_idx",
            client_id_col,
            false,
            false,
        ));
    }

    let foreign_client_id = db
        .table("clients")
        .and_then(|t| t.column("client_id").cloned());
    if let Some(client_id_col) = foreign_client_id {
        let mut fk = Constraint::new(
            "fk_client_tokens_1",
            client_tokens_table.column("client_id").unwrap().clone(),
            client_id_col,
        );
        fk.set_meta(METADATA_ON_DELETE, METADATA_CASCADE);
        fk.set_meta(METADATA_ON_UPDATE, METADATA_CASCADE);
        client_tokens_table.set_constraint(fk);
    }

    client_tokens_table.set_meta(METADATA_CHARSET, "utf8mb4");
    client_tokens_table.set_meta(METADATA_COLLATION, "utf8mb4_unicode_ci");

    db.set_table(client_tokens_table);

    //

    let products_table_name = "products";
    let mut products_table = Table::new(products_table_name);
    let mut product_id = Column::new(
        products_table_name,
        "product_id",
        SqlDatatype::Int(10, SqlSigned::Signed),
    );
    product_id.set_meta_flag(METADATA_FLAG_UNSIGNED);
    product_id.set_meta_flag(METADATA_FLAG_AUTO_INCREMENT);
    products_table.set_column(product_id);
    let mut name_col = Column::new(products_table_name, "name", SqlDatatype::Varchar(255));
    name_col.set_meta_flag(METADATA_FLAG_NULLABLE);
    products_table.set_column(name_col);

    if let Some(product_id_col) = products_table.column("product_id").cloned() {
        products_table.set_index(Index::new("PRIMARY", product_id_col, true, true));
    }

    products_table.set_meta(METADATA_CHARSET, "utf8mb4");
    products_table.set_meta(METADATA_COLLATION, "utf8mb4_unicode_ci");

    db.set_table(products_table);

    //

    let client_products_table_name = "client_products";
    let mut client_products_table = Table::new(client_products_table_name);
    let mut client_product_id = Column::new(
        client_products_table_name,
        "client_product_id",
        SqlDatatype::Int(10, SqlSigned::Signed),
    );
    client_product_id.set_meta_flag(METADATA_FLAG_UNSIGNED);
    client_product_id.set_meta_flag(METADATA_FLAG_AUTO_INCREMENT);
    client_products_table.set_column(client_product_id);
    let mut cp_client_id = Column::new(
        client_products_table_name,
        "client_id",
        SqlDatatype::Int(10, SqlSigned::Signed),
    );
    cp_client_id.set_meta_flag(METADATA_FLAG_UNSIGNED);
    client_products_table.set_column(cp_client_id);
    let mut cp_product_id = Column::new(
        client_products_table_name,
        "product_id",
        SqlDatatype::Int(10, SqlSigned::Signed),
    );
    cp_product_id.set_meta_flag(METADATA_FLAG_UNSIGNED);
    client_products_table.set_column(cp_product_id);

    client_products_table.set_index(Index::new(
        "PRIMARY",
        client_products_table
            .column("client_product_id")
            .unwrap()
            .clone(),
        true,
        true,
    ));
    client_products_table.set_index(Index::new(
        "fk_client_products_1_idx",
        client_products_table.column("client_id").unwrap().clone(),
        false,
        false,
    ));
    client_products_table.set_index(Index::new(
        "fk_client_products_2_idx",
        client_products_table.column("product_id").unwrap().clone(),
        false,
        false,
    ));

    let foreign_client_id = db
        .table("clients")
        .and_then(|t| t.column("client_id").cloned());
    if let Some(client_id_col) = foreign_client_id {
        let mut fk = Constraint::new(
            "fk_client_products_1",
            client_products_table.column("client_id").unwrap().clone(),
            client_id_col,
        );
        fk.set_meta(METADATA_ON_DELETE, METADATA_CASCADE);
        fk.set_meta(METADATA_ON_UPDATE, METADATA_CASCADE);
        client_products_table.set_constraint(fk);
    }

    let foreign_product_id = db
        .table("products")
        .and_then(|t| t.column("product_id").cloned());
    if let Some(product_id_col) = foreign_product_id {
        let mut fk = Constraint::new(
            "fk_client_products_2",
            client_products_table.column("product_id").unwrap().clone(),
            product_id_col,
        );
        fk.set_meta(METADATA_ON_DELETE, METADATA_CASCADE);
        fk.set_meta(METADATA_ON_UPDATE, METADATA_CASCADE);
        client_products_table.set_constraint(fk);
    }

    client_products_table.set_meta(METADATA_CHARSET, "utf8mb4");
    client_products_table.set_meta(METADATA_COLLATION, "utf8mb4_unicode_ci");

    db.set_table(client_products_table);

    db
}

#[test]
fn lib_construction() {
    let db = get_mock_db();

    //

    for c in db
        .constraints_by_table(db.table("clients").unwrap(), None)
        .iter()
    {
        println!(
            "Constraint {}.{} -> {}.{}",
            c.local().table(),
            c.local().name(),
            c.foreign().table(),
            c.foreign().name()
        );
    }

    println!();

    for c in db
        .constraints_by_table(db.table("products").unwrap(), None)
        .iter()
    {
        println!(
            "Constraint {}.{} -> {}.{}",
            c.local().table(),
            c.local().name(),
            c.foreign().table(),
            c.foreign().name()
        );
    }

    println!();

    for c in db
        .constraints_by_column(
            db.table("client_products")
                .unwrap()
                .column("client_id")
                .unwrap(),
            None,
        )
        .iter()
    {
        println!(
            "Constraint {}.{} -> {}.{}",
            c.local().table(),
            c.local().name(),
            c.foreign().table(),
            c.foreign().name()
        );
    }

    println!();

    for c in db
        .constraints_by_column(
            db.table("products").unwrap().column("product_id").unwrap(),
            None,
        )
        .iter()
    {
        println!(
            "Constraint {}.{} -> {}.{}",
            c.local().table(),
            c.local().name(),
            c.foreign().table(),
            c.foreign().name()
        );
    }

    assert_eq!(db.name(), "test");
    assert_eq!(db.meta(METADATA_CHARSET), Some(String::from("utf8mb4")));
    assert_eq!(
        db.meta(METADATA_COLLATION),
        Some(String::from("utf8mb4_unicode_ci"))
    );
    assert_eq!(db.meta("shit"), None);
}
