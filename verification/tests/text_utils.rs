use nayud_batch::config::parse_bool;
use nayud_batch::config::parse_i32_str;
use nayud_batch::config::parse_u16_str;
use nayud_batch::config::parse_u64_str;
use nayud_batch::cql::keyspace_cql;
use nayud_batch::cql::quote_ident;
use nayud_batch::cql::u64_to_dec;
use nayud_batch::cql::watermark_table_cql;
use nayud_batch::cql::watermark_upsert_cql;
use nayud_batch::errors::AppError;
use nayud_batch::utils::mask_secret;

#[test]
fn mask_secret_hides_short_and_long_values() {
    assert_eq!(mask_secret(""), "****");
    assert_eq!(mask_secret("abc"), "****");
    assert_eq!(mask_secret("abcd"), "****");
    assert_eq!(mask_secret("abcde"), "ab****de");
    assert_eq!(mask_secret("cassandra"), "ca****ra");
}

#[test]
fn quote_ident_escapes_quotes() {
    assert_eq!(quote_ident("batch"), "\"batch\"");
    assert_eq!(quote_ident("ks\"x"), "\"ks\"\"x\"");
    assert_eq!(quote_ident(""), "\"\"");
}

#[test]
fn decimal_rendering() {
    assert_eq!(u64_to_dec(0), "0");
    assert_eq!(u64_to_dec(7), "7");
    assert_eq!(u64_to_dec(1234567890), "1234567890");
    assert_eq!(u64_to_dec(u64::MAX), "18446744073709551615");
}

#[test]
fn watermark_statements() {
    assert_eq!(
        watermark_upsert_cql("batch", 42, 1700000000123),
        "INSERT INTO \"batch\".repl_watermark (id, last_applied_log_id, heartbeat_ms) VALUES (1, 42, 1700000000123)"
    );
    assert_eq!(
        watermark_table_cql("batch"),
        "CREATE TABLE IF NOT EXISTS \"batch\".repl_watermark (id tinyint PRIMARY KEY, last_applied_log_id bigint, heartbeat_ms bigint)"
    );
}

#[test]
fn keyspace_statement() {
    assert_eq!(
        keyspace_cql("batch", "asia-southeast2", 3, true),
        "CREATE KEYSPACE IF NOT EXISTS \"batch\" WITH replication = {'class': 'NetworkTopologyStrategy', 'asia-southeast2': 3} AND durable_writes = true"
    );
    assert_eq!(
        keyspace_cql("b", "dc1", 1, false),
        "CREATE KEYSPACE IF NOT EXISTS \"b\" WITH replication = {'class': 'NetworkTopologyStrategy', 'dc1': 1} AND durable_writes = false"
    );
}

#[test]
fn parse_bool_words() {
    assert_eq!(parse_bool("1"), Ok(true));
    assert_eq!(parse_bool("true"), Ok(true));
    assert_eq!(parse_bool("YES"), Ok(true));
    assert_eq!(parse_bool(" on "), Ok(true));
    assert_eq!(parse_bool("y"), Ok(true));
    assert_eq!(parse_bool("0"), Ok(false));
    assert_eq!(parse_bool("False"), Ok(false));
    assert_eq!(parse_bool("no"), Ok(false));
    assert_eq!(parse_bool("N"), Ok(false));
    assert_eq!(parse_bool("\toff\n"), Ok(false));
    assert_eq!(parse_bool("maybe"), Err(()));
    assert_eq!(parse_bool(""), Err(()));
}

#[test]
fn parse_numbers() {
    assert_eq!(parse_u16_str("9042"), Some(9042));
    assert_eq!(parse_u16_str("+7"), Some(7));
    assert_eq!(parse_u16_str("007"), Some(7));
    assert_eq!(parse_u16_str("65535"), Some(65535));
    assert_eq!(parse_u16_str("65536"), None);
    assert_eq!(parse_u16_str(""), None);
    assert_eq!(parse_u16_str("+"), None);
    assert_eq!(parse_u16_str("12a"), None);
    assert_eq!(parse_u16_str("not-a-number"), None);

    assert_eq!(parse_u64_str("18446744073709551615"), Some(u64::MAX));
    assert_eq!(parse_u64_str("18446744073709551616"), None);

    assert_eq!(parse_i32_str("-5"), Some(-5));
    assert_eq!(parse_i32_str("+5"), Some(5));
    assert_eq!(parse_i32_str("-2147483648"), Some(i32::MIN));
    assert_eq!(parse_i32_str("2147483647"), Some(i32::MAX));
    assert_eq!(parse_i32_str("2147483648"), None);
    assert_eq!(parse_i32_str("-2147483649"), None);
    assert_eq!(parse_i32_str("-"), None);
}

#[test]
fn error_messages_carry_their_tag() {
    assert_eq!(AppError::config("c").to_message(), "Config: c");
    assert_eq!(AppError::db("d").to_message(), "Db: d");
    assert_eq!(AppError::web("w").to_message(), "Web: w");
    assert_eq!(AppError::other("o").to_message(), "Other: o");
}
