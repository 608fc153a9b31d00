use tone::config::Config;
use tone::format::{
    format_datastore_state, format_display_value, format_host_state, format_image_state,
    format_lcm_state, format_one_error, format_vm_state, truncate_string,
};
use tone::registry::ColumnDef;
use tone::splash::SplashState;

fn column(format: Option<&str>) -> ColumnDef {
    ColumnDef {
        header: "STATE".to_string(),
        json_path: "STATE".to_string(),
        width: 10,
        color_map: None,
        format: format.map(str::to_string),
    }
}

#[test]
fn vm_states() {
    let names = [
        "INIT", "PENDING", "HOLD", "ACTIVE", "STOPPED", "SUSPENDED", "DONE", "UNKNOWN(7)",
        "POWEROFF", "UNDEPLOYED", "CLONING", "CLONING_FAILURE", "UNKNOWN(12)",
    ];
    for (code, name) in names.iter().enumerate() {
        assert_eq!(format_vm_state(code as i32), *name);
    }
    assert_eq!(format_vm_state(-1), "UNKNOWN(-1)");
    assert_eq!(format_vm_state(i32::MIN), "UNKNOWN(-2147483648)");
    assert_eq!(format_vm_state(i32::MAX), "UNKNOWN(2147483647)");
}

#[test]
fn lcm_states() {
    assert_eq!(format_lcm_state(0), "LCM_INIT");
    assert_eq!(format_lcm_state(3), "RUNNING");
    assert_eq!(format_lcm_state(12), "SHUTDOWN");
    assert_eq!(format_lcm_state(13), "LCM_UNKNOWN(13)");
    assert_eq!(format_lcm_state(14), "CLEANUP_RESUBMIT");
    assert_eq!(format_lcm_state(15), "UNKNOWN");
    assert_eq!(format_lcm_state(36), "BOOT_MIGRATE_FAILURE");
    assert_eq!(format_lcm_state(43), "PROLOG_MIGRATE_POWEROFF_FAILURE");
    assert_eq!(format_lcm_state(58), "DISK_SNAPSHOT_DELETE");
    assert_eq!(format_lcm_state(68), "BACKUP");
    assert_eq!(format_lcm_state(69), "BACKUP_POWEROFF");
    assert_eq!(format_lcm_state(70), "LCM_UNKNOWN(70)");
    assert_eq!(format_lcm_state(-3), "LCM_UNKNOWN(-3)");
    for code in 0..70 {
        let name = format_lcm_state(code);
        assert_eq!(name.starts_with("LCM_UNKNOWN"), code == 13, "{}", code);
    }
}

#[test]
fn host_image_and_datastore_states() {
    let hosts = [
        "INIT", "MONITORING_MONITORED", "MONITORED", "ERROR", "DISABLED", "MONITORING_ERROR",
        "MONITORING_INIT", "MONITORING_DISABLED", "OFFLINE", "UNKNOWN(9)",
    ];
    for (code, name) in hosts.iter().enumerate() {
        assert_eq!(format_host_state(code as i32), *name);
    }
    let images = [
        "INIT", "READY", "USED", "DISABLED", "LOCKED", "ERROR", "CLONE", "DELETE", "USED_PERS",
        "LOCKED_USED", "LOCKED_USED_PERS", "UNKNOWN(11)",
    ];
    for (code, name) in images.iter().enumerate() {
        assert_eq!(format_image_state(code as i32), *name);
    }
    assert_eq!(format_datastore_state(0), "READY");
    assert_eq!(format_datastore_state(1), "DISABLED");
    assert_eq!(format_datastore_state(2), "UNKNOWN(2)");
    assert_eq!(format_datastore_state(-1), "UNKNOWN(-1)");
}

#[test]
fn values_as_a_column_shows_them() {
    assert_eq!(format_display_value("3", &column(Some("vm_state"))), "ACTIVE");
    assert_eq!(format_display_value("+3", &column(Some("lcm_state"))), "RUNNING");
    assert_eq!(format_display_value("2", &column(Some("host_state"))), "MONITORED");
    assert_eq!(format_display_value("1", &column(Some("image_state"))), "READY");
    assert_eq!(format_display_value("1", &column(Some("datastore_state"))), "DISABLED");
    assert_eq!(format_display_value("99", &column(Some("vm_state"))), "UNKNOWN(99)");
    assert_eq!(format_display_value("3", &column(Some("other"))), "3");
    assert_eq!(format_display_value("3", &column(None)), "3");
    assert_eq!(format_display_value("-", &column(Some("vm_state"))), "-");
    assert_eq!(format_display_value(" 3", &column(Some("vm_state"))), " 3");
    assert_eq!(format_display_value("", &column(Some("vm_state"))), "");
}

#[test]
fn cells_are_cut() {
    assert_eq!(truncate_string("short", 38), "short");
    assert_eq!(truncate_string("0123456789", 10), "0123456789");
    assert_eq!(truncate_string("0123456789x", 10), "0123456...");
    assert_eq!(truncate_string("abcdef", 3), "...");
    assert_eq!(truncate_string("abcdef", 2), "...");
    assert_eq!(truncate_string("abcdef", 0), "...");
    assert_eq!(truncate_string("", 0), "");
    assert_eq!(truncate_string("ééééééé", 10), "ééé...");
}

#[test]
fn errors_as_the_user_sees_them() {
    assert_eq!(
        format_one_error("HTTP request failed: 401 - nope"),
        "Authentication failed. Check ONE_AUTH credentials."
    );
    assert_eq!(
        format_one_error("OpenNebula API error: [one.vmpool.info] User couldn't be authenticated, Authentication required"),
        "Authentication failed. Check ONE_AUTH credentials."
    );
    assert_eq!(
        format_one_error("tcp connect error: Connection refused (os error 111)"),
        "Connection refused. Check ONE_XMLRPC endpoint."
    );
    assert_eq!(
        format_one_error("operation timeout"),
        "Request timed out. Server may be unreachable."
    );
    // The first cause that is found wins.
    assert_eq!(
        format_one_error("timeout after Connection refused"),
        "Connection refused. Check ONE_XMLRPC endpoint."
    );
    assert_eq!(format_one_error("Missing VM id"), "Missing VM id");
    assert_eq!(format_one_error(""), "");
    let long = "x".repeat(100);
    assert_eq!(format_one_error(&long), long);
    let longer = "x".repeat(101);
    assert_eq!(format_one_error(&longer), format!("{}...", long));
    // Causes are looked for as they are written.
    assert_eq!(format_one_error("Timeout"), "Timeout");
}

#[test]
fn kept_settings() {
    let mut config = Config::default();
    assert_eq!(config.endpoint, None);
    assert_eq!(config.username, None);
    assert_eq!(config.effective_endpoint(None), "http://localhost:2633/RPC2");
    assert_eq!(config.effective_endpoint(Some("https://env/RPC2".to_string())), "https://env/RPC2");
    config.username = Some("oneadmin".to_string());
    config.set_endpoint("https://kept/RPC2");
    assert_eq!(config.endpoint, Some("https://kept/RPC2".to_string()));
    assert_eq!(config.username, Some("oneadmin".to_string()));
    assert_eq!(config.effective_endpoint(None), "https://kept/RPC2");
    assert_eq!(config.effective_endpoint(Some("https://env/RPC2".to_string())), "https://env/RPC2");
}

#[test]
fn start_up_progress() {
    let mut splash = SplashState::new();
    assert_eq!(splash.current_step, 0);
    assert_eq!(splash.total_steps, 4);
    assert_eq!(splash.message, "Initializing...");
    splash.set_message("Connecting to OpenNebula...");
    assert_eq!(splash.message, "Connecting to OpenNebula...");
    for expected in [1, 2, 3, 4, 4, 4] {
        splash.complete_step();
        assert_eq!(splash.current_step, expected);
    }
    assert_eq!(splash.total_steps, 4);
    splash.current_step = 9;
    splash.complete_step();
    assert_eq!(splash.current_step, 4);
}
