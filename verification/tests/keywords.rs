#![allow(non_snake_case)]

use plex_pg_core::keywords::preprocess;
use plex_pg_core::translate::{TranslateError, Translation};

fn translate(sql: &str) -> Result<Translation, TranslateError> {
    plex_pg_core::translate::translate(sql, false)
}

/// FROM metadata_item_settings, a join under an alias and a join under the
/// table's own name: that join gets AS mi, and metadata_items.<col> becomes
/// mi.<col>.
#[test]
fn compat_aliases__preprocess_rewrites_metadata_items_self_join_alias_refs() {
    let input = [
        "SELECT metadata_items.id, metadata_items.title ",
        "FROM metadata_item_settings ",
        "JOIN metadata_items AS parents ON parents.id = metadata_items.parent_id ",
        "JOIN metadata_items ON metadata_items.id = metadata_item_settings.metadata_item_id ",
        "WHERE metadata_items.library_section_id = 1"
    ].concat();
    let out = preprocess(&input);
    // The unaliased JOIN should have AS mi now
    assert!(
        out.to_lowercase().contains("join metadata_items as mi"),
        "unaliased join should get AS mi, out={}",
        out
    );
    // All metadata_items.<col> should be mi.<col>
    assert!(
        !out.to_lowercase().contains("metadata_items."),
        "no bare metadata_items. refs should remain, out={}",
        out
    );
    // The aliased parents join must stay
    assert!(
        out.to_lowercase()
            .contains("join metadata_items as parents"),
        "parents alias must be preserved, out={}",
        out
    );
    // mi. refs are present
    assert!(
        out.to_lowercase().contains("mi.id"),
        "mi.id should appear, out={}",
        out
    );
}

/// All joins have an alias already: nothing changes.
#[test]
fn compat_aliases__preprocess_no_rewrite_when_all_joins_aliased() {
    let input = [
        "select metadata_items.id from metadata_item_settings ",
        "join metadata_items as parents on parents.id=metadata_items.parent_id ",
        "join metadata_items as grandparents on grandparents.id=parents.parent_id"
    ].concat();
    let out = preprocess(&input);
    // Both aliases must still be present.
    assert!(
        out.to_lowercase()
            .contains("join metadata_items as parents"),
        "parents alias must stay, out={}",
        out
    );
    assert!(
        out.to_lowercase()
            .contains("join metadata_items as grandparents"),
        "grandparents alias must stay, out={}",
        out
    );
    // No spurious AS mi should have been injected
    assert!(
        !out.to_lowercase().contains("as mi"),
        "no AS mi should appear when all joins aliased, out={}",
        out
    );
}

/// The base table is metadata_items itself, so its columns are not ambiguous.
#[test]
fn compat_aliases__preprocess_no_rewrite_for_shape_b_metadata_items_root() {
    let input = [
        "select metadata_items.id from metadata_items ",
        "join metadata_items as parents on parents.id=metadata_items.parent_id ",
        "join metadata_items as grandparents on grandparents.id=parents.parent_id ",
        "where metadata_items.library_section_id in (2)"
    ].concat();
    let out = preprocess(&input);
    // FROM is metadata_items, NOT metadata_item_settings, so no rewrite fires.
    assert!(
        !out.to_lowercase().contains("as mi"),
        "no AS mi for shape-B query, out={}",
        out
    );
}

#[test]
fn subset_txn__keyword_begin_immediate() {
    let r = translate("BEGIN IMMEDIATE").unwrap();
    assert!(!r.sql.to_uppercase().contains("IMMEDIATE"));
    assert!(!r.sql.to_uppercase().contains("DEFERRED"));
    assert!(!r.sql.to_uppercase().contains("EXCLUSIVE"));
}

#[test]
fn subset_txn__keyword_begin_deferred() {
    let r = translate("BEGIN DEFERRED").unwrap();
    assert!(!r.sql.to_uppercase().contains("DEFERRED"));
}

#[test]
fn subset_txn__keyword_begin_exclusive() {
    let r = translate("BEGIN EXCLUSIVE").unwrap();
    assert!(!r.sql.to_uppercase().contains("EXCLUSIVE"));
}

#[test]
fn subset_txn__keyword_end_to_commit() {
    let r = translate("END").unwrap();
    assert!(r.sql.to_uppercase().contains("COMMIT"));
}

#[test]
fn subset_txn__keyword_release_without_savepoint_keyword() {
    let r = translate("RELEASE sp1").unwrap();
    let up = r.sql.to_uppercase();
    assert!(up.contains("RELEASE SAVEPOINT SP1"), "{}", r.sql);
}

#[test]
fn subset_txn__keyword_rollback_transaction_to() {
    let r = translate("ROLLBACK TRANSACTION TO sp1").unwrap();
    let up = r.sql.to_uppercase();
    assert!(up.contains("ROLLBACK TO SAVEPOINT SP1"), "{}", r.sql);
}

#[test]
fn subset_core__keyword_glob_wildcard() {
    let r = translate("SELECT * FROM t WHERE name GLOB '*test*'").unwrap();
    assert!(r.sql.to_uppercase().contains("ILIKE") || r.sql.to_uppercase().contains("LIKE"));
    assert!(!r.sql.to_uppercase().contains(" GLOB "));
}

#[test]
fn subset_core__keyword_indexed_by_removed() {
    let r = translate("SELECT * FROM metadata_items INDEXED BY idx_title WHERE title = 'test'")
        .unwrap();
    assert!(!r.sql.to_uppercase().contains("INDEXED BY"));
    assert!(r.sql.to_uppercase().contains("WHERE"));
}

#[test]
fn subset_core__keyword_not_indexed_removed() {
    let r = translate("SELECT * FROM metadata_items NOT INDEXED WHERE id = 1").unwrap();
    let up = r.sql.to_uppercase();
    assert!(!up.contains("NOT INDEXED"), "{}", r.sql);
    assert!(up.contains("WHERE"), "{}", r.sql);
}

#[test]
fn subset_core__keyword_sqlite_master_replaced() {
    let r = translate("SELECT name FROM sqlite_master WHERE type='table'").unwrap();
    assert!(
        r.sql.to_lowercase().contains("information_schema")
            || r.sql.to_lowercase().contains("pg_")
    );
    assert!(!r.sql.to_lowercase().contains("sqlite_master"));
}

#[test]
fn subset_core__keyword_empty_in_list() {
    let r = translate("SELECT * FROM tags WHERE id IN ()").unwrap();
    assert!(!r.sql.contains("IN ()"));
    assert!(r.sql.to_uppercase().contains("IN") && r.sql.to_uppercase().contains("SELECT"));
}

#[test]
fn subset_core__keyword_group_by_null_removed() {
    let r = translate("SELECT count(*) FROM metadata_items GROUP BY NULL").unwrap();
    assert!(!r.sql.to_uppercase().contains("GROUP BY NULL"));
}

#[test]
fn subset_pragma__keyword_pragma_read_is_mapped_to_select() {
    let r = translate("PRAGMA foreign_keys").unwrap();
    let up = r.sql.to_uppercase();
    assert!(up.contains("SELECT 1 AS FOREIGN_KEYS"), "{}", r.sql);
}

#[test]
fn subset_pragma__keyword_pragma_set_is_mapped_to_select_one() {
    let r = translate("PRAGMA journal_mode=WAL").unwrap();
    let up = r.sql.to_uppercase();
    assert!(up.contains("SET_CONFIG"), "{}", r.sql);
    assert!(up.contains("PLEX.SQLITE.JOURNAL_MODE"), "{}", r.sql);
    assert!(!up.contains("PRAGMA"), "{}", r.sql);
}

#[test]
fn subset_pragma__keyword_pragma_schema_prefix_is_supported() {
    let r = translate("PRAGMA main.busy_timeout = 5000").unwrap();
    let up = r.sql.to_uppercase();
    assert!(up.contains("SET_CONFIG"), "{}", r.sql);
    assert!(up.contains("LOCK_TIMEOUT"), "{}", r.sql);
    assert!(!up.contains("PRAGMA"), "{}", r.sql);
}

#[test]
fn subset_pragma__keyword_pragma_unknown_is_removed() {
    let r = translate("PRAGMA this_is_unknown").unwrap();
    assert!(r.sql.trim().is_empty(), "{}", r.sql);
}

#[test]
fn subset_pragma__keyword_pragma_busy_timeout_read_uses_current_setting() {
    let r = translate("PRAGMA busy_timeout").unwrap();
    let up = r.sql.to_uppercase();
    assert!(up.contains("CURRENT_SETTING"), "{}", r.sql);
    assert!(up.contains("LOCK_TIMEOUT"), "{}", r.sql);
}

#[test]
fn subset_pragma__keyword_pragma_synchronous_set_uses_set_config() {
    let r = translate("PRAGMA synchronous = FULL").unwrap();
    let up = r.sql.to_uppercase();
    assert!(up.contains("SET_CONFIG"), "{}", r.sql);
    assert!(up.contains("SYNCHRONOUS_COMMIT"), "{}", r.sql);
}

#[test]
fn subset_pragma__keyword_pragma_temp_store_set_uses_session_setting() {
    let r = translate("PRAGMA temp_store=MEMORY").unwrap();
    let up = r.sql.to_uppercase();
    assert!(up.contains("SET_CONFIG"), "{}", r.sql);
    assert!(up.contains("PLEX.SQLITE.TEMP_STORE"), "{}", r.sql);
}

#[test]
fn subset_pragma__keyword_pragma_temp_store_read_uses_current_setting() {
    let r = translate("PRAGMA temp_store").unwrap();
    let up = r.sql.to_uppercase();
    assert!(up.contains("CURRENT_SETTING"), "{}", r.sql);
    assert!(up.contains("PLEX.SQLITE.TEMP_STORE"), "{}", r.sql);
}

#[test]
fn subset_pragma__keyword_pragma_cache_size_set_uses_session_setting() {
    let r = translate("PRAGMA cache_size=-4000").unwrap();
    let up = r.sql.to_uppercase();
    assert!(up.contains("SET_CONFIG"), "{}", r.sql);
    assert!(up.contains("PLEX.SQLITE.CACHE_SIZE"), "{}", r.sql);
}

#[test]
fn subset_pragma__keyword_pragma_cache_size_read_uses_current_setting() {
    let r = translate("PRAGMA cache_size").unwrap();
    let up = r.sql.to_uppercase();
    assert!(up.contains("CURRENT_SETTING"), "{}", r.sql);
    assert!(up.contains("PLEX.SQLITE.CACHE_SIZE"), "{}", r.sql);
}

#[test]
fn subset_pragma__keyword_pragma_locking_mode_set_uses_session_setting() {
    let r = translate("PRAGMA locking_mode=EXCLUSIVE").unwrap();
    let up = r.sql.to_uppercase();
    assert!(up.contains("SET_CONFIG"), "{}", r.sql);
    assert!(up.contains("PLEX.SQLITE.LOCKING_MODE"), "{}", r.sql);
}

#[test]
fn subset_pragma__keyword_pragma_locking_mode_read_uses_current_setting() {
    let r = translate("PRAGMA locking_mode").unwrap();
    let up = r.sql.to_uppercase();
    assert!(up.contains("CURRENT_SETTING"), "{}", r.sql);
    assert!(up.contains("PLEX.SQLITE.LOCKING_MODE"), "{}", r.sql);
}

#[test]
fn subset_pragma__keyword_pragma_wal_autocheckpoint_set_uses_session_setting() {
    let r = translate("PRAGMA wal_autocheckpoint=200").unwrap();
    let up = r.sql.to_uppercase();
    assert!(up.contains("SET_CONFIG"), "{}", r.sql);
    assert!(up.contains("PLEX.SQLITE.WAL_AUTOCHECKPOINT"), "{}", r.sql);
}

#[test]
fn subset_pragma__keyword_pragma_wal_autocheckpoint_read_uses_current_setting() {
    let r = translate("PRAGMA wal_autocheckpoint").unwrap();
    let up = r.sql.to_uppercase();
    assert!(up.contains("CURRENT_SETTING"), "{}", r.sql);
    assert!(up.contains("PLEX.SQLITE.WAL_AUTOCHECKPOINT"), "{}", r.sql);
}

#[test]
fn subset_pragma__keyword_pragma_mmap_size_set_uses_session_setting() {
    let r = translate("PRAGMA mmap_size=1048576").unwrap();
    let up = r.sql.to_uppercase();
    assert!(up.contains("SET_CONFIG"), "{}", r.sql);
    assert!(up.contains("PLEX.SQLITE.MMAP_SIZE"), "{}", r.sql);
}

#[test]
fn subset_pragma__keyword_pragma_mmap_size_read_uses_current_setting() {
    let r = translate("PRAGMA mmap_size").unwrap();
    let up = r.sql.to_uppercase();
    assert!(up.contains("CURRENT_SETTING"), "{}", r.sql);
    assert!(up.contains("PLEX.SQLITE.MMAP_SIZE"), "{}", r.sql);
}

#[test]
fn subset_pragma__keyword_pragma_page_size_set_uses_session_setting() {
    let r = translate("PRAGMA page_size=8192").unwrap();
    let up = r.sql.to_uppercase();
    assert!(up.contains("SET_CONFIG"), "{}", r.sql);
    assert!(up.contains("PLEX.SQLITE.PAGE_SIZE"), "{}", r.sql);
}

#[test]
fn subset_pragma__keyword_pragma_page_size_read_uses_current_setting() {
    let r = translate("PRAGMA page_size").unwrap();
    let up = r.sql.to_uppercase();
    assert!(up.contains("CURRENT_SETTING"), "{}", r.sql);
    assert!(up.contains("PLEX.SQLITE.PAGE_SIZE"), "{}", r.sql);
}

#[test]
fn subset_pragma__keyword_pragma_auto_vacuum_set_uses_session_setting() {
    let r = translate("PRAGMA auto_vacuum=INCREMENTAL").unwrap();
    let up = r.sql.to_uppercase();
    assert!(up.contains("SET_CONFIG"), "{}", r.sql);
    assert!(up.contains("PLEX.SQLITE.AUTO_VACUUM"), "{}", r.sql);
}

#[test]
fn subset_pragma__keyword_pragma_auto_vacuum_read_uses_current_setting() {
    let r = translate("PRAGMA auto_vacuum").unwrap();
    let up = r.sql.to_uppercase();
    assert!(up.contains("CURRENT_SETTING"), "{}", r.sql);
    assert!(up.contains("PLEX.SQLITE.AUTO_VACUUM"), "{}", r.sql);
}

#[test]
fn subset_pragma__keyword_pragma_strict_mode_causes_translation_failure_for_unknown() {
    let result = plex_pg_core::translate::translate("PRAGMA totally_unknown_pragma", true);
    assert!(
        result.is_err(),
        "strict pragma mode should fail unknown PRAGMA"
    );
}

#[test]
fn subset_core__keyword_explain_query_plan_rewritten_to_explain() {
    let r = translate("EXPLAIN QUERY PLAN SELECT * FROM t").unwrap();
    let up = r.sql.to_uppercase();
    assert!(up.starts_with("EXPLAIN "), "{}", r.sql);
    assert!(!up.contains("QUERY PLAN"), "{}", r.sql);
}

#[test]
fn subset_core__keyword_vacuum_rewritten_to_select_one() {
    let r = translate("VACUUM").unwrap();
    assert_eq!(r.sql.trim().to_uppercase(), "SELECT 1");
}

#[test]
fn subset_core__keyword_reindex_rewritten_to_select_one() {
    let r = translate("REINDEX").unwrap();
    assert_eq!(r.sql.trim().to_uppercase(), "SELECT 1");
}

#[test]
fn subset_core__keyword_attach_database_rewritten_to_select_one() {
    let r = translate("ATTACH DATABASE 'x.db' AS aux").unwrap();
    assert_eq!(r.sql.trim().to_uppercase(), "SELECT 1");
}

#[test]
fn subset_core__keyword_detach_database_rewritten_to_select_one() {
    let r = translate("DETACH DATABASE aux").unwrap();
    assert_eq!(r.sql.trim().to_uppercase(), "SELECT 1");
}

#[test]
fn subset_core__keyword_analyze_sqlite_internal_rewritten_to_select_one() {
    let r = translate("ANALYZE sqlite_master").unwrap();
    assert_eq!(r.sql.trim().to_uppercase(), "SELECT 1");
}

// Plex rebuilding its full-text index
//
// Plex decides its search index needs rebuilding when it opens a library
// an older server wrote, and tears the index down before building it back:
// it drops eight triggers and the table per index, then issues CREATE
// VIRTUAL TABLE ... USING fts4. None of that is expressible here, and none
// of it should be. Under this shim `fts4_metadata_titles` and friends are
// *views* the schema provides over the real tables, so letting the drops
// through would delete the compatibility layer rather than an index Plex
// owns -- PostgreSQL says as much, "fts4_metadata_titles" is not a table.
//
// So the whole rebuild is a no-op, the same answer VACUUM and REINDEX get.

#[test]
fn subset_fts__rebuilding_the_search_index_does_not_drop_the_compatibility_views() {
    let r = translate("drop table if exists fts4_metadata_titles").unwrap();
    assert_eq!(r.sql.trim().to_uppercase(), "SELECT 1");

    let r = translate("drop table if exists fts4_tag_titles_icu").unwrap();
    assert_eq!(r.sql.trim().to_uppercase(), "SELECT 1");
}

#[test]
fn subset_fts__dropping_one_of_the_index_triggers_is_a_no_op() {
    // PostgreSQL needs DROP TRIGGER <name> ON <table>; SQLite's form has no
    // table, so this reaches the server as "syntax error at end of input".
    let r = translate("drop trigger if exists fts4_metadata_titles_after_insert").unwrap();
    assert_eq!(r.sql.trim().to_uppercase(), "SELECT 1");

    let r = translate("drop trigger if exists fts4_tag_titles_before_delete_icu").unwrap();
    assert_eq!(r.sql.trim().to_uppercase(), "SELECT 1");
}

#[test]
fn subset_fts__recreating_an_fts4_index_is_a_no_op() {
    let r = translate(
        "CREATE VIRTUAL TABLE fts4_metadata_titles USING fts4(title, title_sort, original_title)",
    )
    .unwrap();
    assert_eq!(r.sql.trim().to_uppercase(), "SELECT 1");
}

#[test]
fn subset_fts__the_icu_index_carries_a_tokenizer_and_is_still_a_no_op() {
    // The ICU pair names a tokenizer that only Plex's SQLite has, so this
    // one cannot be translated even in principle.
    let r = translate(&[
        "CREATE VIRTUAL TABLE fts4_tag_titles_icu USING fts4(tag, ",
        "tokenize=collating 'root@colStrength=primary;colAlternate=shifted')"
    ].concat())
    .unwrap();
    assert_eq!(r.sql.trim().to_uppercase(), "SELECT 1");
}

#[test]
fn subset_fts__recreating_one_of_the_index_triggers_is_a_no_op() {
    // The other half of the rebuild: having dropped the triggers that keep
    // the index in step with metadata_items, Plex writes them back. They
    // maintain an fts4 table that is a view here, so they have nothing to
    // maintain and PostgreSQL cannot parse their SQLite bodies anyway --
    // "syntax error at or near BEGIN", then at or near "new".
    let r = translate(&[
        "CREATE TRIGGER fts4_metadata_titles_before_delete BEFORE DELETE ON metadata_items ",
        "BEGIN DELETE FROM fts4_metadata_titles WHERE docid=old.rowid; END"
    ].concat())
    .unwrap();
    assert_eq!(r.sql.trim().to_uppercase(), "SELECT 1");
}

#[test]
fn subset_fts__an_index_trigger_whose_body_holds_a_semicolon_is_still_one_statement() {
    // A trigger body carries its own statement terminator, so anything
    // that splits on semicolons first turns this into "SELECT 1; END".
    let r = translate(&[
        "CREATE TRIGGER fts4_tag_titles_after_insert AFTER INSERT ON tags ",
        "WHEN new.tag_type in (0,1,2,4,6,207,400) ",
        "BEGIN INSERT INTO fts4_tag_titles(docid, tag) VALUES(new.rowid, new.tag); END"
    ].concat())
    .unwrap();
    assert_eq!(r.sql.trim().to_uppercase(), "SELECT 1");
    assert!(!r.sql.to_uppercase().contains("END"), "{}", r.sql);
}

#[test]
fn subset_fts__a_drop_that_is_not_part_of_the_index_still_runs() {
    // The no-op is scoped to the shim's own fts4 objects. Swallowing DROP
    // generally would turn a real schema change into silence.
    let r = translate("drop table if exists metadata_items").unwrap();
    let up = r.sql.to_uppercase();
    assert!(up.contains("DROP TABLE"), "{}", r.sql);

    let r = translate("drop trigger if exists metadata_items_after_insert").unwrap();
    assert!(r.sql.to_uppercase().contains("DROP TRIGGER"), "{}", r.sql);
}

#[test]
fn subset_core__keyword_create_table_without_rowid_strict_stripped() {
    let r = translate("CREATE TABLE t(id INTEGER PRIMARY KEY) WITHOUT ROWID, STRICT").unwrap();
    let up = r.sql.to_uppercase();
    assert!(!up.contains("WITHOUT ROWID"), "{}", r.sql);
    assert!(!up.contains("STRICT"), "{}", r.sql);
}

#[test]
fn subset_core__keyword_regexp_operator_rewritten() {
    let r = translate("SELECT * FROM t WHERE name REGEXP 'ab.*'").unwrap();
    let up = r.sql.to_uppercase();
    assert!(!up.contains("REGEXP"), "{}", r.sql);
    assert!(r.sql.contains('~'), "{}", r.sql);
}

#[test]
fn subset_core__keyword_not_regexp_operator_rewritten() {
    let r = translate("SELECT * FROM t WHERE name NOT REGEXP 'ab.*'").unwrap();
    let up = r.sql.to_uppercase();
    assert!(!up.contains("REGEXP"), "{}", r.sql);
    assert!(r.sql.contains("!~"), "{}", r.sql);
}

#[test]
fn subset_core__keyword_raise_function_rewritten_to_null() {
    let r = translate(
        "CREATE TRIGGER tr_bi BEFORE INSERT ON t BEGIN SELECT RAISE(ABORT, 'boom'); END",
    )
    .unwrap();
    let up = r.sql.to_uppercase();
    assert!(!up.contains("RAISE("), "{}", r.sql);
    assert!(up.contains("NULL"), "{}", r.sql);
}

// COLLATE stripping tests

#[test]
fn compat_aliases__preprocess_strips_icu_root_in_order_by() {
    let sql = "select metadata_items.id from metadata_items where metadata_items.library_section_id in (1) order by metadata_items.added_at desc, metadata_items.title_sort collate icu_root asc, metadata_items.id asc";
    let r = translate(sql).unwrap();
    let out = r.sql.to_lowercase();
    assert!(
        !out.contains("collate icu_root"),
        "icu_root collation should be stripped, got: {}",
        r.sql
    );
    assert!(
        out.contains("order by"),
        "ORDER BY should still be present, got: {}",
        r.sql
    );
}

#[test]
fn compat_aliases__preprocess_strips_icu_root_multiple_order_by_cols() {
    let sql = "select id from metadata_items order by added_at desc, grandparents.title_sort collate icu_root asc, metadata_items.title_sort collate icu_root asc, metadata_items.id asc";
    let r = translate(sql).unwrap();
    let out = r.sql.to_lowercase();
    assert!(
        !out.contains("collate icu_root"),
        "All icu_root collations should be stripped, got: {}",
        r.sql
    );
}

#[test]
fn compat_aliases__preprocess_nocase_handled_at_ast_level() {
    let sql = "SELECT * FROM t ORDER BY name COLLATE NOCASE ASC";
    let r = translate(sql).unwrap();
    let out = r.sql.to_uppercase();
    // The final output should not contain raw COLLATE NOCASE
    assert!(
        !out.contains("COLLATE NOCASE"),
        "COLLATE NOCASE should be handled (converted to LOWER or stripped), got: {}",
        r.sql
    );
}

#[test]
fn compat_aliases__preprocess_strips_rtrim_collation() {
    let sql = "SELECT * FROM t ORDER BY name COLLATE RTRIM";
    let r = translate(sql).unwrap();
    assert!(
        !r.sql.to_uppercase().contains("COLLATE RTRIM"),
        "RTRIM collation should be stripped, got: {}",
        r.sql
    );
}

#[test]
fn compat_aliases__preprocess_strips_binary_collation() {
    let sql = "SELECT * FROM t ORDER BY name COLLATE BINARY";
    let r = translate(sql).unwrap();
    assert!(
        !r.sql.to_uppercase().contains("COLLATE BINARY"),
        "BINARY collation should be stripped, got: {}",
        r.sql
    );
}

#[test]
fn compat_aliases__preprocess_strips_unicode_collation() {
    let sql = "SELECT * FROM t ORDER BY name COLLATE UNICODE";
    let r = translate(sql).unwrap();
    assert!(
        !r.sql.to_uppercase().contains("COLLATE UNICODE"),
        "UNICODE collation should be stripped, got: {}",
        r.sql
    );
}

#[test]
fn compat_aliases__preprocess_collate_not_stripped_inside_string() {
    // A string literal containing 'COLLATE icu_root' must not be touched
    let sql = "SELECT 'COLLATE icu_root' FROM t";
    let r = translate(sql).unwrap();
    assert!(
        r.sql.contains("COLLATE icu_root"),
        "Collate inside string literal should not be stripped, got: {}",
        r.sql
    );
}

#[test]
fn compat_aliases__preprocess_long_query_collate_icu_parse_succeeds() {
    let sql = [
        "select metadata_items.id from metadata_items ",
        "join metadata_items as parents on parents.id=metadata_items.parent_id ",
        "join metadata_items as grandparents on grandparents.id=parents.parent_id ",
        "where metadata_items.library_section_id in (2) ",
        "and (metadata_items.metadata_type=4 and metadata_items.added_at>1000000) ",
        "order by metadata_items.added_at desc, ",
        "grandparents.title_sort collate icu_root asc, ",
        "parents.`index` IS NULL, parents.`index` asc, ",
        "metadata_items.`index` IS NULL, metadata_items.`index` asc, ",
        "metadata_items.title_sort collate icu_root asc, ",
        "metadata_items.id asc"
    ].concat();
    let r = translate(&sql);
    assert!(
        r.is_ok(),
        "Long query with COLLATE icu_root should parse successfully, got: {:?}",
        r.err()
    );
    let out = r.unwrap().sql.to_lowercase();
    assert!(
        !out.contains("collate icu_root"),
        "icu_root collation should be stripped from output, got: {}",
        out
    );
}

#[test]
fn compat_aliases__preprocess_does_not_treat_backtick_limit_identifier_as_limit_clause() {
    let sql = "SELECT pqg.`id`,pqg.`limit`,pqg.`continuous` FROM play_queue_generators pqg WHERE pqg.`type`!=:C1";
    let out = preprocess(sql);
    let low = out.to_ascii_lowercase();
    assert!(
        !low.contains(" offset "),
        "identifier `limit` should not trigger LIMIT/OFFSET rewrite: {}",
        out
    );
    assert!(
        out.contains("`limit`"),
        "backtick identifier should remain unchanged in preprocess output: {}",
        out
    );
}

fn sql(statement: &str) -> String {
    translate(statement).unwrap().sql
}

#[test]
fn transactions_are_written_as_postgresql_writes_them() {
    assert_eq!(sql("begin immediate transaction;"), "BEGIN");
    assert_eq!(sql("BEGIN TRANSACTION"), "BEGIN TRANSACTION");
    assert_eq!(sql("END TRANSACTION;"), "COMMIT");
    assert_eq!(sql("RELEASE SAVEPOINT sp1"), "RELEASE SAVEPOINT sp1");
    assert_eq!(sql("release `sp 1`"), "RELEASE SAVEPOINT `sp 1`");
    assert_eq!(sql("ROLLBACK TO SAVEPOINT sp1"), "ROLLBACK TO SAVEPOINT sp1");
    assert_eq!(sql("rollback to savepoint"), "ROLLBACK TO SAVEPOINT savepoint");
    assert_eq!(sql("ROLLBACK"), "ROLLBACK");
}

#[test]
fn operators_are_replaced_in_place() {
    assert_eq!(sql("SELECT a  REGEXP 'x' FROM t"), "SELECT a  ~ 'x' FROM t");
    assert_eq!(sql("SELECT a not regexp 'x'"), "SELECT a !~ 'x'");
    assert_eq!(sql("a GLOB '*it''s?_%\\'"), "a LIKE '%it''s_\\_\\%\\\\'");
    assert_eq!(sql("a=?AND b=?1GLOB '*'"), "a=?AND b=?1LIKE '%'");
    assert_eq!(sql("a GLOB '[ab]*'"), "a GLOB '[ab]*'");
    assert_eq!(sql("a GLOB :p"), "a GLOB :p");
    assert_eq!(sql("id in( )"), "id in (SELECT NULL WHERE FALSE)");
    assert_eq!(sql("SELECT RAISE(ABORT, f((1))) x"), "SELECT NULL x");
    assert_eq!(sql("SELECT RAISE(ABORT"), "SELECT RAISE(ABORT");
}

#[test]
fn a_limit_with_two_numbers_names_its_offset() {
    assert_eq!(sql("SELECT 1 LIMIT 5, 10;"), "SELECT 1 LIMIT 10 OFFSET 5;");
    assert_eq!(sql("SELECT (SELECT 1 limit :a,:b)"), "SELECT (SELECT 1 limit :b OFFSET :a)");
    assert_eq!(sql("SELECT 1 LIMIT 5, 10 + 1"), "SELECT 1 LIMIT 5, 10 + 1");
    assert_eq!(sql("SELECT t.limit, b, c"), "SELECT t.limit, b, c");
}

#[test]
fn hints_and_collations_are_dropped() {
    assert_eq!(sql("SELECT a FROM t INDEXED BY \"i\" WHERE b"), "SELECT a FROM t WHERE b");
    assert_eq!(sql("SELECT a FROM t NOT INDEXED"), "SELECT a FROM t");
    assert_eq!(sql("SELECT a GROUP BY NULL ORDER BY a"), "SELECT a ORDER BY a");
    assert_eq!(sql("SELECT a GROUP BY NULL, b"), "SELECT a GROUP BY NULL, b");
    assert_eq!(sql("(SELECT a GROUP BY NULL)"), "(SELECT a)");
    assert_eq!(sql("SELECT a GROUP BY NULL HAVING b"), "SELECT a HAVING b");
    assert_eq!(sql("ORDER BY a.b collate icu_root desc"), "ORDER BY a.b desc");
    assert_eq!(sql("ORDER BY t.collate, b"), "ORDER BY t.collate, b");
}

#[test]
fn a_sort_term_without_case_is_sorted_in_lower_case() {
    assert_eq!(sql("ORDER BY name COLLATE NOCASE ASC"), "ORDER BY LOWER(name) ASC");
    assert_eq!(sql("ORDER BY t . `n` collate nocase"), "ORDER BY LOWER(t . `n`)");
    assert_eq!(sql("ORDER BY f(x, y) COLLATE NOCASE"), "ORDER BY LOWER(f(x, y))");
    assert_eq!(
        sql("ORDER BY a DESC, b || c COLLATE NOCASE DESC, d COLLATE NOCASE LIMIT 1"),
        "ORDER BY a DESC, LOWER(b || c) DESC, LOWER(d) LIMIT 1"
    );
    assert_eq!(
        sql("ORDER BY CASE a WHEN 1 THEN b END COLLATE NOCASE"),
        "ORDER BY LOWER(CASE a WHEN 1 THEN b END)"
    );
    assert_eq!(sql("ORDER BY (a COLLATE NOCASE) DESC"), "ORDER BY (LOWER(a)) DESC");
    assert_eq!(
        sql("SELECT row_number() OVER (ORDER BY a COLLATE NOCASE) FROM t"),
        "SELECT row_number() OVER (ORDER BY LOWER(a)) FROM t"
    );
    assert_eq!(sql("ORDER BY t.collate, nocase"), "ORDER BY t.collate, nocase");
    assert_eq!(
        sql("ORDER BY a COLLATE NOCASE COLLATE NOCASE"),
        "ORDER BY LOWER(a)"
    );
    assert_eq!(preprocess("ORDER BY name COLLATE NOCASE"), "ORDER BY name COLLATE NOCASE");
}

#[test]
fn a_comparison_without_case_lowers_both_sides() {
    assert_eq!(
        sql("SELECT 1 WHERE title COLLATE NOCASE = 'Abc'"),
        "SELECT 1 WHERE LOWER(title) = LOWER('Abc')"
    );
    assert_eq!(
        sql("SELECT 1 WHERE t.a <> :p COLLATE NOCASE AND b = 'X'"),
        "SELECT 1 WHERE LOWER(t.a) <> LOWER(:p) AND b = 'X'"
    );
    assert_eq!(
        sql("SELECT 1 WHERE (a=b COLLATE NOCASE) ORDER BY c"),
        "SELECT 1 WHERE (LOWER(a)=LOWER(b)) ORDER BY c"
    );
    assert_eq!(
        sql("ORDER BY a = 'x' COLLATE NOCASE DESC"),
        "ORDER BY LOWER(a) = LOWER('x') DESC"
    );
    assert_eq!(
        sql("ORDER BY CASE WHEN a = 'x' COLLATE NOCASE THEN 1 END"),
        "ORDER BY CASE WHEN LOWER(a) = LOWER('x') THEN 1 END"
    );
    assert_eq!(sql("SELECT 1 WHERE a LIKE 'x' COLLATE NOCASE"), "SELECT 1 WHERE a LIKE 'x'");
    assert_eq!(sql("SELECT 1 WHERE a = 5 COLLATE NOCASE"), "SELECT 1 WHERE a = 5");
}

#[test]
fn table_options_are_dropped_at_the_end_of_a_table() {
    assert_eq!(sql("CREATE TABLE t(id) WITHOUT ROWID;"), "CREATE TABLE t(id);");
    assert_eq!(sql("create temp table t(id) strict"), "create temp table t(id)");
    assert_eq!(sql("CREATE TABLE t(id) STRICT, WITHOUT ROWID"), "CREATE TABLE t(id)");
    assert_eq!(sql("CREATE TABLE t(strict INT)"), "CREATE TABLE t(strict INT)");
    assert_eq!(sql("SELECT f(x) strict"), "SELECT f(x) strict");
}

#[test]
fn the_catalog_keeps_the_name_it_is_given() {
    let named = sql("SELECT m.name FROM main.sqlite_master AS m");
    assert!(named.starts_with("SELECT m.name FROM (SELECT"));
    assert!(named.ends_with(" AS m"));
    assert!(!named.contains("pg_objects"));
    let bare = sql("SELECT sqlite_master.name FROM sqlite_master WHERE type = 'table'");
    assert!(bare.starts_with("SELECT pg_objects.name FROM (SELECT"));
    assert!(bare.ends_with(") AS pg_objects WHERE type = 'table'"));
    assert_eq!(sql("SELECT main.sqlite_master.name"), "SELECT pg_objects.name");
    for behind in ["RIGHT JOIN x", "FULL JOIN x", "HAVING x", "WINDOW w AS (x)"] {
        let joined = sql(&format!("SELECT 1 FROM sqlite_master {}", behind));
        assert!(joined.ends_with(&format!(") AS pg_objects {}", behind)));
    }
    let hinted = sql("SELECT 1 FROM sqlite_master NOT INDEXED");
    assert!(hinted.ends_with(") AS pg_objects"));
}

#[test]
fn pragmas_become_settings() {
    assert_eq!(sql("PRAGMA foreign_keys"), "SELECT 1 AS foreign_keys");
    assert_eq!(sql("PRAGMA foreign_keys=ON;"), "SELECT 1");
    assert_eq!(
        sql("PRAGMA main.Busy_Timeout = 5000"),
        "SELECT set_config('lock_timeout', '5000', false)"
    );
    assert_eq!(
        sql("PRAGMA busy_timeout;"),
        "SELECT current_setting('lock_timeout', true) AS busy_timeout"
    );
    assert_eq!(
        sql("PRAGMA cache_size(-4000)"),
        "SELECT set_config('plex.sqlite.cache_size', '-4000', false)"
    );
    assert_eq!(
        sql("PRAGMA synchronous = Off"),
        "SELECT set_config('synchronous_commit', 'off', false)"
    );
    assert_eq!(
        sql("PRAGMA synchronous = 0"),
        "SELECT set_config('synchronous_commit', 'off', false)"
    );
    assert_eq!(
        sql("PRAGMA synchronous = FULL"),
        "SELECT set_config('synchronous_commit', 'on', false)"
    );
    assert_eq!(
        sql("PRAGMA journal_mode = \"it's\""),
        "SELECT set_config('plex.sqlite.journal_mode', 'it''s', false)"
    );
    assert_eq!(
        sql("PRAGMA journal_mode = 'it''s'"),
        "SELECT set_config('plex.sqlite.journal_mode', 'it''s', false)"
    );
    assert_eq!(
        sql("PRAGMA journal_mode = 'wal"),
        "SELECT set_config('plex.sqlite.journal_mode', 'wal', false)"
    );
    assert_eq!(sql("PRAGMA journal_mode ="), "");
    assert_eq!(sql("PRAGMA"), "");
}

#[test]
fn strict_rejects_only_pragmas_that_would_be_dropped() {
    let known = plex_pg_core::translate::translate("PRAGMA page_size", true).unwrap();
    assert_eq!(known.sql, sql("PRAGMA page_size"));
    let unknown = plex_pg_core::translate::translate("PRAGMA nothing", true);
    assert!(matches!(unknown, Err(TranslateError::UnknownPragma)));
    let other = plex_pg_core::translate::translate("SELECT nothing", true).unwrap();
    assert_eq!(other.sql, "SELECT nothing");
}

#[test]
fn a_plain_statement_is_passed_on_to_the_letter() {
    let statement = "  SELECT 'it''s COLLATE icu_root' , \"limit\" /* IN () */, [glob]\n\
                     FROM `a``b` -- REGEXP 'x'\n WHERE x = ?1 AND y <> :p; ";
    assert_eq!(preprocess(statement), statement);
    assert_eq!(sql(statement), statement);
    assert_eq!(sql("SELECT 'open"), "SELECT 'open");
    assert_eq!(sql("/* open"), "/* open");
    assert_eq!(sql(""), "");
}

#[test]
fn only_the_search_index_is_left_alone() {
    assert_eq!(sql("DROP TRIGGER \"fts4_x\""), "SELECT 1");
    assert_eq!(sql("CREATE TEMP TRIGGER IF NOT EXISTS fts4_x BEGIN END"), "SELECT 1");
    assert_eq!(sql("CREATE VIRTUAL TABLE x USING fts4"), "SELECT 1");
    assert_eq!(sql("CREATE VIRTUAL TABLE x USING rtree"), "CREATE VIRTUAL TABLE x USING rtree");
    assert_eq!(sql("ANALYZE metadata_items"), "ANALYZE metadata_items");
    assert_eq!(
        sql("explain query plan select a from t not indexed"),
        "EXPLAIN select a from t"
    );
}
