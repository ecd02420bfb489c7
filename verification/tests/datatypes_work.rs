use database_reflection::reflection::{
    DefaultValue, JsonDatatype, JsonNumber, JsonString, JsonValue, ParseDatatypeError,
    RustDatatype, SqlDatatype, SqlSigned,
};

#[test]
fn test_datatypes() {
    assert_eq!(
        SqlDatatype::parse("tinyint(1) unsigned"),
        Ok(SqlDatatype::Tinyint(1, SqlSigned::Unsigned))
    );
    assert_eq!(
        SqlDatatype::parse("tinyint(1) unsigned")
            .ok()
            .map(|t| t.sign())
            .unwrap_or_default(),
        Some(SqlSigned::Unsigned)
    );
    assert_eq!(
        SqlDatatype::parse("tinyint(1) unsigned")
            .ok()
            .map(|t| t.len())
            .unwrap_or_default(),
        Some(1)
    );
    assert_eq!(
        SqlDatatype::parse("int(10) unsigned"),
        Ok(SqlDatatype::Int(10, SqlSigned::Unsigned))
    );
    assert_eq!(
        SqlDatatype::parse("int(10)"),
        Ok(SqlDatatype::Int(10, SqlSigned::Signed))
    );
    assert_eq!(
        SqlDatatype::parse("int(10) unsigned")
            .ok()
            .map(|t| t.sign())
            .unwrap_or_default(),
        Some(SqlSigned::Unsigned)
    );
    assert_eq!(
        SqlDatatype::parse("int(10) unsigned")
            .ok()
            .map(|t| t.len())
            .unwrap_or_default(),
        Some(10)
    );
    assert_eq!(
        SqlDatatype::parse("int(10) unsigned")
            .ok()
            .map(|t| RustDatatype::from_sql(&t))
            .unwrap(),
        RustDatatype("u32".to_string(), Some(10))
    );
    assert_eq!(
        SqlDatatype::parse("int(10)")
            .ok()
            .map(|t| RustDatatype::from_sql(&t))
            .unwrap(),
        RustDatatype("i32".to_string(), Some(10))
    );
    assert_eq!(
        SqlDatatype::parse("smallint(5) unsigned"),
        Ok(SqlDatatype::Smallint(5, SqlSigned::Unsigned))
    );
    assert_eq!(
        SqlDatatype::parse("smallint(5) unsigned")
            .ok()
            .map(|t| t.sign())
            .unwrap_or_default(),
        Some(SqlSigned::Unsigned)
    );
    assert_eq!(
        SqlDatatype::parse("smallint(5) unsigned")
            .ok()
            .map(|t| t.len())
            .unwrap_or_default(),
        Some(5)
    );
    assert_eq!(
        SqlDatatype::parse("smallint(5)")
            .ok()
            .map(|t| RustDatatype::from_sql(&t))
            .unwrap(),
        RustDatatype("i32".to_string(), Some(5))
    );
    assert_eq!(
        SqlDatatype::parse("mediumint(15) unsigned"),
        Ok(SqlDatatype::Mediumint(15, SqlSigned::Unsigned))
    );
    assert_eq!(
        SqlDatatype::parse("mediumint(15) unsigned")
            .ok()
            .map(|t| t.sign())
            .unwrap_or_default(),
        Some(SqlSigned::Unsigned)
    );
    assert_eq!(
        SqlDatatype::parse("mediumint(15) unsigned")
            .ok()
            .map(|t| t.len())
            .unwrap_or_default(),
        Some(15)
    );
    assert_eq!(
        SqlDatatype::parse("mediumint(15)")
            .ok()
            .map(|t| RustDatatype::from_sql(&t))
            .unwrap(),
        RustDatatype("i32".to_string(), Some(15))
    );
    assert_eq!(
        SqlDatatype::parse("bigint(32)"),
        Ok(SqlDatatype::Bigint(32, SqlSigned::Signed))
    );
    assert_eq!(
        SqlDatatype::parse("bigint(32)")
            .ok()
            .map(|t| t.sign())
            .unwrap_or_default(),
        Some(SqlSigned::Signed)
    );
    assert_eq!(
        SqlDatatype::parse("bigint(32)")
            .ok()
            .map(|t| t.len())
            .unwrap_or_default(),
        Some(32)
    );
    assert_eq!(
        SqlDatatype::parse("bigint(32)")
            .ok()
            .map(|t| JsonDatatype::from_sql(&t))
            .unwrap(),
        JsonDatatype::Number(JsonNumber::BigInt)
    );
    assert_eq!(
        SqlDatatype::parse("bigint(32) unsigned")
            .ok()
            .map(|t| RustDatatype::from_sql(&t))
            .unwrap(),
        RustDatatype("u64".to_string(), Some(32))
    );
    assert_eq!(
        SqlDatatype::parse("bigint(32)")
            .ok()
            .map(|t| RustDatatype::from_sql(&t))
            .unwrap(),
        RustDatatype("i64".to_string(), Some(32))
    );
    assert_eq!(
        SqlDatatype::parse("float(4,2)"),
        Ok(SqlDatatype::Float(4, 2, SqlSigned::Signed))
    );
    assert_eq!(
        SqlDatatype::parse("float(4,2)")
            .ok()
            .map(|t| t.sign())
            .unwrap_or_default(),
        Some(SqlSigned::Signed)
    );
    assert_eq!(
        SqlDatatype::parse("float(4,2)")
            .ok()
            .map(|t| t.len())
            .unwrap_or_default(),
        Some(4)
    );
    assert_eq!(
        SqlDatatype::parse("float(4,2)")
            .ok()
            .map(|t| JsonDatatype::from_sql(&t))
            .unwrap(),
        JsonDatatype::Number(JsonNumber::Float)
    );
    assert_eq!(
        SqlDatatype::parse("float(4,2)")
            .ok()
            .map(|t| RustDatatype::from_sql(&t))
            .unwrap(),
        RustDatatype("f32".to_string(), Some(2))
    );
    assert_eq!(
        SqlDatatype::parse("double(10,2) unsigned"),
        Ok(SqlDatatype::Double(10, 2, SqlSigned::Unsigned))
    );
    assert_eq!(
        SqlDatatype::parse("double(10,2) unsigned")
            .ok()
            .map(|t| JsonDatatype::from_sql(&t))
            .unwrap(),
        JsonDatatype::Number(JsonNumber::Float)
    );
    assert_eq!(
        SqlDatatype::parse("double(10,2) unsigned")
            .ok()
            .map(|t| t.sign())
            .unwrap_or_default(),
        Some(SqlSigned::Unsigned)
    );
    assert_eq!(
        SqlDatatype::parse("double(10,2) unsigned")
            .ok()
            .map(|t| t.len())
            .unwrap_or_default(),
        Some(10)
    );
    assert_eq!(
        SqlDatatype::parse("double(10,2)")
            .ok()
            .map(|t| RustDatatype::from_sql(&t))
            .unwrap(),
        RustDatatype("f64".to_string(), Some(2))
    );
    assert_eq!(
        SqlDatatype::parse("decimal(10,2) unsigned"),
        Ok(SqlDatatype::Decimal(10, 2, SqlSigned::Unsigned))
    );
    assert_eq!(
        SqlDatatype::parse("decimal(10,2) unsigned")
            .ok()
            .map(|t| t.sign())
            .unwrap_or_default(),
        Some(SqlSigned::Unsigned)
    );
    assert_eq!(
        SqlDatatype::parse("decimal(10,2) unsigned")
            .ok()
            .map(|t| t.len())
            .unwrap_or_default(),
        Some(10)
    );

    assert_eq!(SqlDatatype::parse("date"), Ok(SqlDatatype::Date));
    assert_eq!(
        SqlDatatype::parse("date")
            .ok()
            .map(|t| JsonDatatype::from_sql(&t))
            .unwrap(),
        JsonDatatype::String(JsonString::Date, Some(10))
    );
    assert_eq!(
        SqlDatatype::parse("date")
            .ok()
            .map(|t| RustDatatype::from_sql(&t))
            .unwrap(),
        RustDatatype("String".to_string(), Some(10))
    );
    assert_eq!(SqlDatatype::parse("time"), Ok(SqlDatatype::Time));
    assert_eq!(
        SqlDatatype::parse("time")
            .ok()
            .map(|t| JsonDatatype::from_sql(&t))
            .unwrap(),
        JsonDatatype::String(JsonString::Time, Some(8))
    );
    assert_eq!(
        SqlDatatype::parse("time")
            .ok()
            .map(|t| RustDatatype::from_sql(&t))
            .unwrap(),
        RustDatatype("String".to_string(), Some(8))
    );
    assert_eq!(SqlDatatype::parse("datetime"), Ok(SqlDatatype::Datetime));
    assert_eq!(SqlDatatype::parse("timestamp"), Ok(SqlDatatype::Timestamp));
    assert_eq!(
        SqlDatatype::parse("timestamp")
            .ok()
            .map(|t| t.len())
            .unwrap_or_default(),
        None
    );

    assert_eq!(SqlDatatype::parse("char(64)"), Ok(SqlDatatype::Char(64)));
    assert_eq!(
        SqlDatatype::parse("char(64)")
            .ok()
            .map(|t| t.len())
            .unwrap_or_default(),
        Some(64)
    );
    assert_eq!(
        SqlDatatype::parse("char(64)")
            .ok()
            .map(|t| RustDatatype::from_sql(&t))
            .unwrap(),
        RustDatatype("String".to_string(), Some(64))
    );
    assert_eq!(
        SqlDatatype::parse("varchar(45)"),
        Ok(SqlDatatype::Varchar(45))
    );
    assert_eq!(
        SqlDatatype::parse("varchar(64)"),
        Ok(SqlDatatype::Varchar(64))
    );
    assert_eq!(
        SqlDatatype::parse("varchar(64)")
            .ok()
            .map(|t| t.len())
            .unwrap_or_default(),
        Some(64)
    );
    assert_eq!(
        SqlDatatype::parse("varchar(64)")
            .ok()
            .map(|t| JsonDatatype::from_sql(&t))
            .unwrap(),
        JsonDatatype::String(JsonString::String, Some(64))
    );
    assert_eq!(
        SqlDatatype::parse("varchar(64)")
            .ok()
            .map(|t| RustDatatype::from_sql(&t))
            .unwrap(),
        RustDatatype("String".to_string(), Some(64))
    );
    assert_eq!(
        SqlDatatype::parse("text(1024)"),
        Ok(SqlDatatype::Text(1024))
    );
    assert_eq!(
        SqlDatatype::parse("text(1024)")
            .ok()
            .map(|t| RustDatatype::from_sql(&t))
            .unwrap(),
        RustDatatype("String".to_string(), Some(1024))
    );
    assert_eq!(
        SqlDatatype::parse("text(1024)")
            .ok()
            .map(|t| t.len())
            .unwrap_or_default(),
        Some(1024)
    );
    assert_eq!(SqlDatatype::parse("text"), Ok(SqlDatatype::Text(65535)));
    assert_eq!(
        SqlDatatype::parse("text")
            .ok()
            .map(|t| t.len())
            .unwrap_or_default(),
        Some(65535)
    );

    assert_eq!(
        SqlDatatype::parse("binary(32)"),
        Ok(SqlDatatype::Binary(32))
    );
    assert_eq!(
        SqlDatatype::parse("binary(32)")
            .ok()
            .map(|t| t.len())
            .unwrap_or_default(),
        Some(32)
    );
    assert_eq!(
        SqlDatatype::parse("varbinary(32)"),
        Ok(SqlDatatype::Varbinary(32))
    );
    assert_eq!(
        SqlDatatype::parse("varbinary(32)")
            .ok()
            .map(|t| t.len())
            .unwrap_or_default(),
        Some(32)
    );
    assert_eq!(
        SqlDatatype::parse("varbinary(32)")
            .ok()
            .map(|t| JsonDatatype::from_sql(&t))
            .unwrap(),
        JsonDatatype::String(JsonString::String, Some(32))
    );
    assert_eq!(
        SqlDatatype::parse("varbinary(32)")
            .ok()
            .map(|t| RustDatatype::from_sql(&t))
            .unwrap(),
        RustDatatype("String".to_string(), Some(32))
    );
    assert_eq!(
        SqlDatatype::parse(r#"enum("one","two","three")"#),
        Ok(SqlDatatype::Enum(vec![
            String::from("one"),
            String::from("two"),
            String::from("three")
        ]))
    );
    assert_eq!(
        SqlDatatype::parse(r#"enum("one","two","three")"#)
            .ok()
            .map(|t| t.len())
            .unwrap_or_default(),
        Some(3)
    );
    assert_eq!(
        SqlDatatype::parse(r#"enum("one","two","three")"#)
            .ok()
            .map(|t| JsonDatatype::from_sql(&t))
            .unwrap(),
        JsonDatatype::Array(vec![
            "one".to_string(),
            "two".to_string(),
            "three".to_string()
        ])
    );
    assert_eq!(
        SqlDatatype::parse(r#"enum("one","two","three")"#)
            .ok()
            .map(|t| RustDatatype::from_sql(&t))
            .unwrap(),
        RustDatatype("String".to_string(), Some(5))
    );
    assert_eq!(
        SqlDatatype::parse(r#"set("this","that")"#),
        Ok(SqlDatatype::SetType(vec![
            String::from("this"),
            String::from("that")
        ]))
    );
    assert_eq!(
        SqlDatatype::parse(r#"set("this","that")"#)
            .ok()
            .map(|t| t.len())
            .unwrap_or_default(),
        Some(2)
    );
    assert_eq!(
        SqlDatatype::parse(r#"set("this","that")"#)
            .ok()
            .map(|t| RustDatatype::from_sql(&t))
            .unwrap(),
        RustDatatype("Vec<String>".to_string(), Some(2))
    );

    assert_eq!(SqlDatatype::parse("varchar(nan)"), Err(ParseDatatypeError));
    assert_eq!(SqlDatatype::parse("badtype(10)"), Err(ParseDatatypeError));
    assert_eq!(SqlDatatype::parse("badtype"), Err(ParseDatatypeError));

    //

    let data_val = DefaultValue::Value(JsonValue::Str(String::from("test")));
    let _ = DefaultValue::Null;

    if let DefaultValue::Value(JsonValue::Str(s)) = data_val {
        assert_eq!(s, "test".to_string());
    } else {
        assert!(false);
    }
}

#[test]
fn test_tinyint_boolean_projection() {
    // length one native-projects to a boolean whatever the sign
    assert_eq!(
        SqlDatatype::parse("tinyint(1) unsigned")
            .ok()
            .map(|t| RustDatatype::from_sql(&t))
            .unwrap(),
        RustDatatype("bool".to_string(), None)
    );
    assert_eq!(
        SqlDatatype::parse("tinyint(1)")
            .ok()
            .map(|t| RustDatatype::from_sql(&t))
            .unwrap(),
        RustDatatype("bool".to_string(), None)
    );
    // the JSON boolean override asks for the unsigned sign as well
    assert_eq!(
        SqlDatatype::parse("tinyint(1) unsigned")
            .ok()
            .map(|t| JsonDatatype::from_sql(&t))
            .unwrap(),
        JsonDatatype::Boolean
    );
    assert_eq!(
        SqlDatatype::parse("tinyint(1)")
            .ok()
            .map(|t| JsonDatatype::from_sql(&t))
            .unwrap(),
        JsonDatatype::Number(JsonNumber::Int)
    );
    // any longer tinyint is an ordinary 32-bit integer
    assert_eq!(
        SqlDatatype::parse("tinyint(2) unsigned")
            .ok()
            .map(|t| RustDatatype::from_sql(&t))
            .unwrap(),
        RustDatatype("u32".to_string(), Some(2))
    );
    assert_eq!(
        SqlDatatype::parse("tinyint(2) unsigned")
            .ok()
            .map(|t| JsonDatatype::from_sql(&t))
            .unwrap(),
        JsonDatatype::Number(JsonNumber::Int)
    );
}

#[test]
fn test_datatype_parser_edges() {
    // a missing scale reuses the whole clause for both components
    assert_eq!(
        SqlDatatype::parse("float(4)"),
        Ok(SqlDatatype::Float(4, 4, SqlSigned::Signed))
    );
    // unparsable precision or scale components fall back to zero
    assert_eq!(
        SqlDatatype::parse("decimal(x,2)"),
        Ok(SqlDatatype::Decimal(0, 2, SqlSigned::Signed))
    );
    assert_eq!(
        SqlDatatype::parse("float()"),
        Ok(SqlDatatype::Float(0, 0, SqlSigned::Signed))
    );
    // the unsigned keyword is recognized anywhere in the descriptor
    assert_eq!(
        SqlDatatype::parse("decimal(10,2) unsigned zerofill"),
        Ok(SqlDatatype::Decimal(10, 2, SqlSigned::Unsigned))
    );
    // a stray closing parenthesis before the opening one yields no clause
    assert_eq!(SqlDatatype::parse(")int("), Err(ParseDatatypeError));
    // an empty or overlong length is a hard parse error
    assert_eq!(SqlDatatype::parse("int()"), Err(ParseDatatypeError));
    assert_eq!(SqlDatatype::parse("int(4294967296)"), Err(ParseDatatypeError));
    assert_eq!(
        SqlDatatype::parse("int(4294967295)"),
        Ok(SqlDatatype::Int(4294967295, SqlSigned::Signed))
    );
    // quotes are trimmed from options; inner content is preserved
    assert_eq!(
        SqlDatatype::parse("enum('a b','c')"),
        Ok(SqlDatatype::Enum(vec![
            String::from("a b"),
            String::from("c")
        ]))
    );
    // an empty input is a parse error, not a default
    assert_eq!(SqlDatatype::parse(""), Err(ParseDatatypeError));
}
