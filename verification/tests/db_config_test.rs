use hgdb_core::db_config::parse_db_path;

#[test]
fn test_parse_db_path() {
    let config = "db_path = \"/Users/gigin/Documents/mydbs/rocksdb/DB-config\"\n";
    assert_eq!(
        parse_db_path(config),
        Some("/Users/gigin/Documents/mydbs/rocksdb/DB-config".to_string())
    );
}

#[test]
fn test_parse_db_path_picks_first_matching_line() {
    let config = "other = 1\ndb_path = \"first\"\ndb_path = \"second\"\n";
    assert_eq!(parse_db_path(config), Some("first".to_string()));
}

#[test]
fn test_parse_db_path_unquoted_and_padded() {
    let config = "db_path =   \t/var/data/store  \n";
    assert_eq!(parse_db_path(config), Some("/var/data/store".to_string()));
}

#[test]
fn test_parse_db_path_missing_or_malformed() {
    // No db_path line at all.
    assert_eq!(parse_db_path("name = \"x\"\n"), None);
    // A db_path line without an equals sign.
    assert_eq!(parse_db_path("db_path \"x\"\n"), None);
    // Empty text.
    assert_eq!(parse_db_path(""), None);
    // The value is what stands between the first equals sign and the second.
    assert_eq!(parse_db_path("db_path = a=b\n"), Some("a".to_string()));
}
