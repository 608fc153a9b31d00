//! Display forms: the names of state codes, values as a column shows them,
//! and error messages as the user sees them.

use crate::registry::ColumnDef;
use crate::text::{
    chars_of, contains, decimal_text, format_i64, has_substring, parse_i32, parsed_i32, shorten,
    shortened, str_eq,
};
use vstd::prelude::*;
use vstd::string::*;

verus! {

/// The name of a code that a table does not hold: the prefix, then the
/// code in brackets.
pub open spec fn unknown_code(prefix: Seq<char>, code: i32) -> Seq<char> {
    prefix + seq!['('] + decimal_text(code as int) + seq![')']
}

fn unknown(prefix: &str, code: i32) -> (name: String)
    ensures
        name@ == unknown_code(prefix@, code),
{
    proof {
        reveal_strlit("(");
        reveal_strlit(")");
        assert("("@ =~= seq!['(']);
        assert(")"@ =~= seq![')']);
    }
    String::from_str(prefix).concat("(").concat(format_i64(code as i64).as_str()).concat(")")
}

/// The name of a virtual machine state code.
pub open spec fn vm_state_name(state: i32) -> Seq<char> {
    if state == 0 {
        "INIT"@
    } else if state == 1 {
        "PENDING"@
    } else if state == 2 {
        "HOLD"@
    } else if state == 3 {
        "ACTIVE"@
    } else if state == 4 {
        "STOPPED"@
    } else if state == 5 {
        "SUSPENDED"@
    } else if state == 6 {
        "DONE"@
    } else if state == 8 {
        "POWEROFF"@
    } else if state == 9 {
        "UNDEPLOYED"@
    } else if state == 10 {
        "CLONING"@
    } else if state == 11 {
        "CLONING_FAILURE"@
    } else {
        unknown_code("UNKNOWN"@, state)
    }
}

/// The name of a virtual machine state code; for a code without a
/// name, `UNKNOWN` with the code in brackets.
pub fn format_vm_state(state: i32) -> (name: String)
    ensures
        name@ == vm_state_name(state),
{
    match state {
        0 => String::from_str("INIT"),
        1 => String::from_str("PENDING"),
        2 => String::from_str("HOLD"),
        3 => String::from_str("ACTIVE"),
        4 => String::from_str("STOPPED"),
        5 => String::from_str("SUSPENDED"),
        6 => String::from_str("DONE"),
        8 => String::from_str("POWEROFF"),
        9 => String::from_str("UNDEPLOYED"),
        10 => String::from_str("CLONING"),
        11 => String::from_str("CLONING_FAILURE"),
        _ => unknown("UNKNOWN", state),
    }
}

/// The name of a virtual machine life-cycle state code.
pub open spec fn lcm_state_name(lcm_state: i32) -> Seq<char> {
    if lcm_state == 0 {
        "LCM_INIT"@
    } else if lcm_state == 1 {
        "PROLOG"@
    } else if lcm_state == 2 {
        "BOOT"@
    } else if lcm_state == 3 {
        "RUNNING"@
    } else if lcm_state == 4 {
        "MIGRATE"@
    } else if lcm_state == 5 {
        "SAVE_STOP"@
    } else if lcm_state == 6 {
        "SAVE_SUSPEND"@
    } else if lcm_state == 7 {
        "SAVE_MIGRATE"@
    } else if lcm_state == 8 {
        "PROLOG_MIGRATE"@
    } else if lcm_state == 9 {
        "PROLOG_RESUME"@
    } else if lcm_state == 10 {
        "EPILOG_STOP"@
    } else if lcm_state == 11 {
        "EPILOG"@
    } else if lcm_state == 12 {
        "SHUTDOWN"@
    } else if lcm_state == 14 {
        "CLEANUP_RESUBMIT"@
    } else if lcm_state == 15 {
        "UNKNOWN"@
    } else if lcm_state == 16 {
        "HOTPLUG"@
    } else if lcm_state == 17 {
        "SHUTDOWN_POWEROFF"@
    } else if lcm_state == 18 {
        "BOOT_UNKNOWN"@
    } else if lcm_state == 19 {
        "BOOT_POWEROFF"@
    } else if lcm_state == 20 {
        "BOOT_SUSPENDED"@
    } else if lcm_state == 21 {
        "BOOT_STOPPED"@
    } else if lcm_state == 22 {
        "CLEANUP_DELETE"@
    } else if lcm_state == 23 {
        "HOTPLUG_SNAPSHOT"@
    } else if lcm_state == 24 {
        "HOTPLUG_NIC"@
    } else if lcm_state == 25 {
        "HOTPLUG_SAVEAS"@
    } else if lcm_state == 26 {
        "HOTPLUG_SAVEAS_POWEROFF"@
    } else if lcm_state == 27 {
        "HOTPLUG_SAVEAS_SUSPENDED"@
    } else if lcm_state == 28 {
        "SHUTDOWN_UNDEPLOY"@
    } else if lcm_state == 29 {
        "EPILOG_UNDEPLOY"@
    } else if lcm_state == 30 {
        "PROLOG_UNDEPLOY"@
    } else if lcm_state == 31 {
        "BOOT_UNDEPLOY"@
    } else if lcm_state == 32 {
        "HOTPLUG_PROLOG_POWEROFF"@
    } else if lcm_state == 33 {
        "HOTPLUG_EPILOG_POWEROFF"@
    } else if lcm_state == 34 {
        "BOOT_MIGRATE"@
    } else if lcm_state == 35 {
        "BOOT_FAILURE"@
    } else if lcm_state == 36 {
        "BOOT_MIGRATE_FAILURE"@
    } else if lcm_state == 37 {
        "PROLOG_MIGRATE_FAILURE"@
    } else if lcm_state == 38 {
        "PROLOG_FAILURE"@
    } else if lcm_state == 39 {
        "EPILOG_FAILURE"@
    } else if lcm_state == 40 {
        "EPILOG_STOP_FAILURE"@
    } else if lcm_state == 41 {
        "EPILOG_UNDEPLOY_FAILURE"@
    } else if lcm_state == 42 {
        "PROLOG_MIGRATE_POWEROFF"@
    } else if lcm_state == 43 {
        "PROLOG_MIGRATE_POWEROFF_FAILURE"@
    } else if lcm_state == 44 {
        "PROLOG_MIGRATE_SUSPEND"@
    } else if lcm_state == 45 {
        "PROLOG_MIGRATE_SUSPEND_FAILURE"@
    } else if lcm_state == 46 {
        "BOOT_UNDEPLOY_FAILURE"@
    } else if lcm_state == 47 {
        "BOOT_STOPPED_FAILURE"@
    } else if lcm_state == 48 {
        "PROLOG_RESUME_FAILURE"@
    } else if lcm_state == 49 {
        "PROLOG_UNDEPLOY_FAILURE"@
    } else if lcm_state == 50 {
        "DISK_SNAPSHOT_POWEROFF"@
    } else if lcm_state == 51 {
        "DISK_SNAPSHOT_REVERT_POWEROFF"@
    } else if lcm_state == 52 {
        "DISK_SNAPSHOT_DELETE_POWEROFF"@
    } else if lcm_state == 53 {
        "DISK_SNAPSHOT_SUSPENDED"@
    } else if lcm_state == 54 {
        "DISK_SNAPSHOT_REVERT_SUSPENDED"@
    } else if lcm_state == 55 {
        "DISK_SNAPSHOT_DELETE_SUSPENDED"@
    } else if lcm_state == 56 {
        "DISK_SNAPSHOT"@
    } else if lcm_state == 57 {
        "DISK_SNAPSHOT_REVERT"@
    } else if lcm_state == 58 {
        "DISK_SNAPSHOT_DELETE"@
    } else if lcm_state == 59 {
        "PROLOG_MIGRATE_UNKNOWN"@
    } else if lcm_state == 60 {
        "PROLOG_MIGRATE_UNKNOWN_FAILURE"@
    } else if lcm_state == 61 {
        "DISK_RESIZE"@
    } else if lcm_state == 62 {
        "DISK_RESIZE_POWEROFF"@
    } else if lcm_state == 63 {
        "DISK_RESIZE_UNDEPLOYED"@
    } else if lcm_state == 64 {
        "HOTPLUG_NIC_POWEROFF"@
    } else if lcm_state == 65 {
        "HOTPLUG_RESIZE"@
    } else if lcm_state == 66 {
        "HOTPLUG_SAVEAS_UNDEPLOYED"@
    } else if lcm_state == 67 {
        "HOTPLUG_SAVEAS_STOPPED"@
    } else if lcm_state == 68 {
        "BACKUP"@
    } else if lcm_state == 69 {
        "BACKUP_POWEROFF"@
    } else {
        unknown_code("LCM_UNKNOWN"@, lcm_state)
    }
}

/// The name of a virtual machine life-cycle state code; for a code without a
/// name, `LCM_UNKNOWN` with the code in brackets.
pub fn format_lcm_state(lcm_state: i32) -> (name: String)
    ensures
        name@ == lcm_state_name(lcm_state),
{
    match lcm_state {
        0 => String::from_str("LCM_INIT"),
        1 => String::from_str("PROLOG"),
        2 => String::from_str("BOOT"),
        3 => String::from_str("RUNNING"),
        4 => String::from_str("MIGRATE"),
        5 => String::from_str("SAVE_STOP"),
        6 => String::from_str("SAVE_SUSPEND"),
        7 => String::from_str("SAVE_MIGRATE"),
        8 => String::from_str("PROLOG_MIGRATE"),
        9 => String::from_str("PROLOG_RESUME"),
        10 => String::from_str("EPILOG_STOP"),
        11 => String::from_str("EPILOG"),
        12 => String::from_str("SHUTDOWN"),
        14 => String::from_str("CLEANUP_RESUBMIT"),
        15 => String::from_str("UNKNOWN"),
        16 => String::from_str("HOTPLUG"),
        17 => String::from_str("SHUTDOWN_POWEROFF"),
        18 => String::from_str("BOOT_UNKNOWN"),
        19 => String::from_str("BOOT_POWEROFF"),
        20 => String::from_str("BOOT_SUSPENDED"),
        21 => String::from_str("BOOT_STOPPED"),
        22 => String::from_str("CLEANUP_DELETE"),
        23 => String::from_str("HOTPLUG_SNAPSHOT"),
        24 => String::from_str("HOTPLUG_NIC"),
        25 => String::from_str("HOTPLUG_SAVEAS"),
        26 => String::from_str("HOTPLUG_SAVEAS_POWEROFF"),
        27 => String::from_str("HOTPLUG_SAVEAS_SUSPENDED"),
        28 => String::from_str("SHUTDOWN_UNDEPLOY"),
        29 => String::from_str("EPILOG_UNDEPLOY"),
        30 => String::from_str("PROLOG_UNDEPLOY"),
        31 => String::from_str("BOOT_UNDEPLOY"),
        32 => String::from_str("HOTPLUG_PROLOG_POWEROFF"),
        33 => String::from_str("HOTPLUG_EPILOG_POWEROFF"),
        34 => String::from_str("BOOT_MIGRATE"),
        35 => String::from_str("BOOT_FAILURE"),
        36 => String::from_str("BOOT_MIGRATE_FAILURE"),
        37 => String::from_str("PROLOG_MIGRATE_FAILURE"),
        38 => String::from_str("PROLOG_FAILURE"),
        39 => String::from_str("EPILOG_FAILURE"),
        40 => String::from_str("EPILOG_STOP_FAILURE"),
        41 => String::from_str("EPILOG_UNDEPLOY_FAILURE"),
        42 => String::from_str("PROLOG_MIGRATE_POWEROFF"),
        43 => String::from_str("PROLOG_MIGRATE_POWEROFF_FAILURE"),
        44 => String::from_str("PROLOG_MIGRATE_SUSPEND"),
        45 => String::from_str("PROLOG_MIGRATE_SUSPEND_FAILURE"),
        46 => String::from_str("BOOT_UNDEPLOY_FAILURE"),
        47 => String::from_str("BOOT_STOPPED_FAILURE"),
        48 => String::from_str("PROLOG_RESUME_FAILURE"),
        49 => String::from_str("PROLOG_UNDEPLOY_FAILURE"),
        50 => String::from_str("DISK_SNAPSHOT_POWEROFF"),
        51 => String::from_str("DISK_SNAPSHOT_REVERT_POWEROFF"),
        52 => String::from_str("DISK_SNAPSHOT_DELETE_POWEROFF"),
        53 => String::from_str("DISK_SNAPSHOT_SUSPENDED"),
        54 => String::from_str("DISK_SNAPSHOT_REVERT_SUSPENDED"),
        55 => String::from_str("DISK_SNAPSHOT_DELETE_SUSPENDED"),
        56 => String::from_str("DISK_SNAPSHOT"),
        57 => String::from_str("DISK_SNAPSHOT_REVERT"),
        58 => String::from_str("DISK_SNAPSHOT_DELETE"),
        59 => String::from_str("PROLOG_MIGRATE_UNKNOWN"),
        60 => String::from_str("PROLOG_MIGRATE_UNKNOWN_FAILURE"),
        61 => String::from_str("DISK_RESIZE"),
        62 => String::from_str("DISK_RESIZE_POWEROFF"),
        63 => String::from_str("DISK_RESIZE_UNDEPLOYED"),
        64 => String::from_str("HOTPLUG_NIC_POWEROFF"),
        65 => String::from_str("HOTPLUG_RESIZE"),
        66 => String::from_str("HOTPLUG_SAVEAS_UNDEPLOYED"),
        67 => String::from_str("HOTPLUG_SAVEAS_STOPPED"),
        68 => String::from_str("BACKUP"),
        69 => String::from_str("BACKUP_POWEROFF"),
        _ => unknown("LCM_UNKNOWN", lcm_state),
    }
}

/// The name of a host state code.
pub open spec fn host_state_name(state: i32) -> Seq<char> {
    if state == 0 {
        "INIT"@
    } else if state == 1 {
        "MONITORING_MONITORED"@
    } else if state == 2 {
        "MONITORED"@
    } else if state == 3 {
        "ERROR"@
    } else if state == 4 {
        "DISABLED"@
    } else if state == 5 {
        "MONITORING_ERROR"@
    } else if state == 6 {
        "MONITORING_INIT"@
    } else if state == 7 {
        "MONITORING_DISABLED"@
    } else if state == 8 {
        "OFFLINE"@
    } else {
        unknown_code("UNKNOWN"@, state)
    }
}

/// The name of a host state code; for a code without a
/// name, `UNKNOWN` with the code in brackets.
pub fn format_host_state(state: i32) -> (name: String)
    ensures
        name@ == host_state_name(state),
{
    match state {
        0 => String::from_str("INIT"),
        1 => String::from_str("MONITORING_MONITORED"),
        2 => String::from_str("MONITORED"),
        3 => String::from_str("ERROR"),
        4 => String::from_str("DISABLED"),
        5 => String::from_str("MONITORING_ERROR"),
        6 => String::from_str("MONITORING_INIT"),
        7 => String::from_str("MONITORING_DISABLED"),
        8 => String::from_str("OFFLINE"),
        _ => unknown("UNKNOWN", state),
    }
}

/// The name of an image state code.
pub open spec fn image_state_name(state: i32) -> Seq<char> {
    if state == 0 {
        "INIT"@
    } else if state == 1 {
        "READY"@
    } else if state == 2 {
        "USED"@
    } else if state == 3 {
        "DISABLED"@
    } else if state == 4 {
        "LOCKED"@
    } else if state == 5 {
        "ERROR"@
    } else if state == 6 {
        "CLONE"@
    } else if state == 7 {
        "DELETE"@
    } else if state == 8 {
        "USED_PERS"@
    } else if state == 9 {
        "LOCKED_USED"@
    } else if state == 10 {
        "LOCKED_USED_PERS"@
    } else {
        unknown_code("UNKNOWN"@, state)
    }
}

/// The name of an image state code; for a code without a
/// name, `UNKNOWN` with the code in brackets.
pub fn format_image_state(state: i32) -> (name: String)
    ensures
        name@ == image_state_name(state),
{
    match state {
        0 => String::from_str("INIT"),
        1 => String::from_str("READY"),
        2 => String::from_str("USED"),
        3 => String::from_str("DISABLED"),
        4 => String::from_str("LOCKED"),
        5 => String::from_str("ERROR"),
        6 => String::from_str("CLONE"),
        7 => String::from_str("DELETE"),
        8 => String::from_str("USED_PERS"),
        9 => String::from_str("LOCKED_USED"),
        10 => String::from_str("LOCKED_USED_PERS"),
        _ => unknown("UNKNOWN", state),
    }
}

/// The name of a datastore state code.
pub open spec fn datastore_state_name(state: i32) -> Seq<char> {
    if state == 0 {
        "READY"@
    } else if state == 1 {
        "DISABLED"@
    } else {
        unknown_code("UNKNOWN"@, state)
    }
}

/// The name of a datastore state code; for a code without a
/// name, `UNKNOWN` with the code in brackets.
pub fn format_datastore_state(state: i32) -> (name: String)
    ensures
        name@ == datastore_state_name(state),
{
    match state {
        0 => String::from_str("READY"),
        1 => String::from_str("DISABLED"),
        _ => unknown("UNKNOWN", state),
    }
}

/// A column's value as the table shows it: where the column has a state
/// format and the value is a number, the state's name; else the value.
pub open spec fn display_value(value: Seq<char>, format: Option<Seq<char>>) -> Seq<char> {
    match (format, parsed_i32(value)) {
        (Some(f), Some(state)) => if f == "vm_state"@ {
            vm_state_name(state)
        } else if f == "lcm_state"@ {
            lcm_state_name(state)
        } else if f == "host_state"@ {
            host_state_name(state)
        } else if f == "image_state"@ {
            image_state_name(state)
        } else if f == "datastore_state"@ {
            datastore_state_name(state)
        } else {
            value
        },
        _ => value,
    }
}

/// The format of a column, as a text.
pub open spec fn column_format(col: ColumnDef) -> Option<Seq<char>> {
    match col.format {
        Some(f) => Some(f@),
        None => None,
    }
}

/// A raw value as a column shows it.
pub fn format_display_value(value: &str, col: &ColumnDef) -> (shown: String)
    ensures
        shown@ == display_value(value@, column_format(*col)),
{
    match &col.format {
        Some(format) => {
            let digits = chars_of(value);
            match parse_i32(&digits) {
                Some(state) => {
                    let f = format.as_str();
                    if str_eq(f, "vm_state") {
                        format_vm_state(state)
                    } else if str_eq(f, "lcm_state") {
                        format_lcm_state(state)
                    } else if str_eq(f, "host_state") {
                        format_host_state(state)
                    } else if str_eq(f, "image_state") {
                        format_image_state(state)
                    } else if str_eq(f, "datastore_state") {
                        format_datastore_state(state)
                    } else {
                        String::from_str(value)
                    }
                },
                None => String::from_str(value),
            }
        },
        None => String::from_str(value),
    }
}

/// A text cut for a cell: one longer than `max_len` bytes keeps what fits
/// into three bytes less, with three dots behind it.
pub open spec fn truncated(text: Seq<char>, max_len: nat) -> Seq<char> {
    shortened(
        text,
        max_len,
        if max_len >= 3 {
            (max_len - 3) as nat
        } else {
            0
        },
    )
}

/// Cuts a text for a cell of `max_len` bytes.
pub fn truncate_string(s: &str, max_len: usize) -> (cut: String)
    ensures
        cut@ == truncated(s@, max_len as nat),
{
    let keep: usize = if max_len >= 3 {
        max_len - 3
    } else {
        0
    };
    shorten(s, max_len, keep)
}

/// An error message as the user sees it: a known cause in friendlier
/// words, anything else as it is, cut after a hundred bytes.
pub open spec fn friendly_error(message: Seq<char>) -> Seq<char> {
    if has_substring(message, "401"@) || has_substring(message, "Authentication"@) {
        "Authentication failed. Check ONE_AUTH credentials."@
    } else if has_substring(message, "Connection refused"@) {
        "Connection refused. Check ONE_XMLRPC endpoint."@
    } else if has_substring(message, "timeout"@) {
        "Request timed out. Server may be unreachable."@
    } else {
        shortened(message, 100, 100)
    }
}

/// Turns an error message into what the user sees.
pub fn format_one_error(error: &str) -> (shown: String)
    ensures
        shown@ == friendly_error(error@),
{
    let chars = chars_of(error);
    if contains(&chars, &chars_of("401")) || contains(&chars, &chars_of("Authentication")) {
        String::from_str("Authentication failed. Check ONE_AUTH credentials.")
    } else if contains(&chars, &chars_of("Connection refused")) {
        String::from_str("Connection refused. Check ONE_XMLRPC endpoint.")
    } else if contains(&chars, &chars_of("timeout")) {
        String::from_str("Request timed out. Server may be unreachable.")
    } else {
        shorten(error, 100, 100)
    }
}

} // verus!
