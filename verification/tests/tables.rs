use snow_core::row::{Cell, Row};
use snow_core::tables::{
    canonical_record_table, canonical_record_table_for_number, canonical_server_table_alias,
    is_business_application_alias, is_change_request_number, is_record_lookup_table_allowed,
    normalize_record_lookup_sys_id, normalize_record_lookup_table, normalize_table_name,
    record_number_prefix, resource_plan_parent_table_for_number, table_for_builtin_record_number,
    ResourceType, RECORD_LOOKUP_ALLOWED_TABLES,
};
use snow_core::types::{CacheSource, JournalEntry, RecordTexts, SnowRecord};

fn cell(name: &str, raw: &str, display: Option<&str>) -> Cell {
    Cell {
        name: name.to_string(),
        raw: Some(raw.to_string()),
        display: display.map(|d| d.to_string()),
        other: None,
    }
}

#[test]
fn change_subclasses_and_chg_numbers_map_to_change_request() {
    assert_eq!(ResourceType::from_table("change_request_normal"), ResourceType::Change);
    assert_eq!(canonical_record_table_for_number("Normal", "CHG0332518"), "change_request");
}

#[test]
fn builtin_prefixes_include_demand_task_numbers() {
    assert_eq!(table_for_builtin_record_number("DMNTSK0001122"), Some("dmn_demand_task"));
    assert_eq!(table_for_builtin_record_number("dmntsk0001122"), Some("dmn_demand_task"));
}

#[test]
fn private_task_table_is_allowed_by_the_runtime_gate_and_public_schema() {
    assert!(is_record_lookup_table_allowed("vtb_task"));
    assert_eq!(normalize_record_lookup_table("VTB_TASK").unwrap(), "vtb_task");
    assert!(RECORD_LOOKUP_ALLOWED_TABLES.contains(&"vtb_task"));
}

#[test]
fn business_application_resource_type_accepts_aliases() {
    assert_eq!(
        ResourceType::from_table("business_application"),
        ResourceType::BusinessApplication
    );
    assert_eq!(ResourceType::from_table("business-app"), ResourceType::BusinessApplication);
    assert_eq!(
        normalize_record_lookup_table("cmdb_ci_business_app").unwrap(),
        "cmdb_ci_business_app"
    );
    assert_eq!(
        normalize_record_lookup_table("business_application").unwrap(),
        "cmdb_ci_business_app"
    );
}

#[test]
fn server_resource_type_accepts_aliases() {
    assert_eq!(ResourceType::from_table("server"), ResourceType::Server);
    assert_eq!(ResourceType::from_table("cmdb_ci_linux_server"), ResourceType::Server);
    assert_eq!(ResourceType::from_table("cmdb_ci_win_server"), ResourceType::Server);
    assert_eq!(normalize_record_lookup_table("server").unwrap(), "cmdb_ci_server");
    assert_eq!(normalize_record_lookup_table("linux_server").unwrap(), "cmdb_ci_linux_server");
    assert_eq!(normalize_record_lookup_table("windows_server").unwrap(), "cmdb_ci_win_server");
}

#[test]
fn change_display_tables_are_canonicalized_in_core_records() {
    let row = Row {
        table: "Change Request".to_string(),
        sys_id: "chg-sys".to_string(),
        cells: vec![
            cell("sys_id", "chg-sys", None),
            cell("number", "CHG0332518", None),
            cell("short_description", "Normal change", None),
            cell("state", "1", Some("Open")),
        ],
    };
    let texts = RecordTexts {
        number: "CHG0332518".to_string(),
        state: "Open".to_string(),
        short_description: "Normal change".to_string(),
        description: String::new(),
    };
    let snow_record = SnowRecord::from_servicenow(&row, texts, Vec::new(), Vec::new(), 7);
    assert_eq!(snow_record.table, "change_request");
    assert_eq!(snow_record.resource_type, ResourceType::Change);
    assert_eq!(snow_record.number, "CHG0332518");
    assert_eq!(snow_record.state, "Open");
    assert_eq!(snow_record.sys_id, "chg-sys");
    assert_eq!(snow_record.synced_at, 7);
    assert_eq!(snow_record.source, CacheSource::Api);
}

#[test]
fn journal_entries_read_their_timestamp() {
    let entry = JournalEntry::from_servicenow(
        "1970-01-02 00:00:01",
        "Casey User".to_string(),
        "note".to_string(),
        5,
    );
    assert_eq!(entry.timestamp, 86_401);
    assert_eq!(entry.author, "Casey User");
    let unread = JournalEntry::from_servicenow("soon", String::new(), String::new(), 5);
    assert_eq!(unread.timestamp, 5);
}

#[test]
fn table_names_lose_case_and_separators() {
    assert_eq!(normalize_table_name("  Change Request "), "change_request");
    assert_eq!(normalize_table_name("business-app"), "business_app");
    assert_eq!(normalize_table_name(&normalize_table_name(" A-B c ")), "a_b_c");
}

#[test]
fn canonical_tables_stay_canonical() {
    for name in ["Change Request", "change_request_emergency", "business-app", "incident", ""] {
        let once = canonical_record_table(name);
        assert_eq!(canonical_record_table(&once), once);
    }
    assert!(is_business_application_alias("Business Application"));
    assert!(!is_business_application_alias("incident"));
    assert_eq!(canonical_server_table_alias("linux-server"), Some("cmdb_ci_linux_server"));
    assert_eq!(canonical_server_table_alias("incident"), None);
}

#[test]
fn sys_ids_are_thirty_two_hex_digits() {
    assert_eq!(
        normalize_record_lookup_sys_id(" 0123456789ABCDEF0123456789abcdef ").unwrap(),
        "0123456789abcdef0123456789abcdef"
    );
    assert!(normalize_record_lookup_sys_id("0123456789abcdef0123456789abcde").is_err());
    assert!(normalize_record_lookup_sys_id("g123456789abcdef0123456789abcdef").is_err());
}

#[test]
fn tables_out_of_the_list_are_refused() {
    assert!(!is_record_lookup_table_allowed("sys_user"));
    assert!(normalize_record_lookup_table("sys_user").is_err());
    assert!(normalize_record_lookup_table("").is_err());
}

#[test]
fn numbers_tell_their_table() {
    assert!(is_change_request_number("chg0000001"));
    assert!(!is_change_request_number("INC0000001"));
    assert_eq!(record_number_prefix("inc0001").as_deref(), Some("INC"));
    assert_eq!(record_number_prefix("0001"), None);
    assert_eq!(table_for_builtin_record_number("ZZZ0000001"), None);
    assert_eq!(resource_plan_parent_table_for_number("PRJ0000001"), Some("pm_project"));
    assert_eq!(resource_plan_parent_table_for_number("INC0000001"), None);
}
