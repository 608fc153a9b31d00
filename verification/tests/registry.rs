use tone::document::Document;
use tone::registry::{
    get_all_resource_keys, get_color_for_value, get_color_map, get_resource, ActionDef, ColorDef,
    ColumnDef, ConfirmConfig, ResourceConfig, ResourceDef, ResourceFilter, SubResourceDef,
};

fn resource(display_name: &str, service: &str) -> ResourceDef {
    ResourceDef {
        display_name: display_name.to_string(),
        service: service.to_string(),
        sdk_method: "list".to_string(),
        sdk_method_params: Document::Object(vec![("filter".to_string(), Document::Int(-2))]),
        response_path: "VM_POOL.VM".to_string(),
        id_field: "ID".to_string(),
        name_field: "NAME".to_string(),
        is_global: false,
        columns: vec![ColumnDef {
            header: "ID".to_string(),
            json_path: "ID".to_string(),
            width: 10,
            color_map: None,
            format: None,
        }],
        sub_resources: vec![SubResourceDef {
            resource_key: "one-hosts".to_string(),
            display_name: "Hosts".to_string(),
            shortcut: "h".to_string(),
            parent_id_field: "HID".to_string(),
            filter_param: "host_id".to_string(),
        }],
        actions: Vec::new(),
        detail_sdk_method: None,
        detail_sdk_method_params: Document::Null,
    }
}

fn registry() -> ResourceConfig {
    let mut registry = ResourceConfig::new();
    registry.merge(ResourceConfig {
        color_maps: vec![(
            "vm_state".to_string(),
            vec![
                ColorDef { value: "ACTIVE".to_string(), color: [0, 255, 0] },
                ColorDef { value: "FAILED".to_string(), color: [255, 0, 0] },
                ColorDef { value: "ACTIVE".to_string(), color: [1, 2, 3] },
            ],
        )],
        resources: vec![
            ("one-vms".to_string(), resource("Virtual Machines", "vm")),
            ("one-hosts".to_string(), resource("Hosts", "host")),
        ],
    });
    registry.merge(ResourceConfig {
        color_maps: Vec::new(),
        resources: vec![("one-images".to_string(), resource("Images", "image"))],
    });
    registry
}

#[test]
fn test_registry_loads_successfully() {
    let registry = registry();
    assert!(
        !registry.resources.is_empty(),
        "Registry should have resources"
    );
}

#[test]
fn test_vm_resource_exists() {
    let registry = registry();
    let resource = get_resource(&registry, "one-vms");
    assert!(resource.is_some(), "VM resource should exist");

    let resource = resource.unwrap();
    assert_eq!(resource.display_name, "Virtual Machines");
    assert_eq!(resource.service, "vm");
}

#[test]
fn test_get_all_resource_keys() {
    let registry = registry();
    let keys = get_all_resource_keys(&registry);
    assert!(!keys.is_empty(), "Should have resource types");
    assert!(keys.contains(&"one-vms".to_string()), "Should contain one-vms");
}

#[test]
fn all_keys_are_sorted_and_listed_once() {
    let mut registry = registry();
    registry.resources.push(("one-vms".to_string(), resource("Shadowed", "vm")));
    registry.resources.push(("a".to_string(), resource("A", "vm")));
    registry.resources.push(("one".to_string(), resource("One", "vm")));
    assert_eq!(
        get_all_resource_keys(&registry),
        vec!["a", "one", "one-hosts", "one-images", "one-vms"]
    );
    assert!(get_all_resource_keys(&ResourceConfig::new()).is_empty());
}

#[test]
fn unknown_resource_is_absent() {
    let registry = registry();
    assert!(get_resource(&registry, "one-nothing").is_none());
    assert!(get_resource(&registry, "").is_none());
    assert!(get_resource(&ResourceConfig::new(), "one-vms").is_none());
}

#[test]
fn last_merged_definition_wins() {
    let mut registry = registry();
    registry.merge(ResourceConfig {
        color_maps: vec![(
            "vm_state".to_string(),
            vec![ColorDef { value: "ACTIVE".to_string(), color: [9, 9, 9] }],
        )],
        resources: vec![
            ("one-vms".to_string(), resource("Machines", "vm2")),
            ("one-vms".to_string(), resource("Machines again", "vm3")),
        ],
    });
    assert_eq!(registry.resources.len(), 3);
    assert_eq!(get_resource(&registry, "one-vms").unwrap().display_name, "Machines again");
    assert_eq!(registry.resources[0].0, "one-vms");
    assert_eq!(get_resource(&registry, "one-hosts").unwrap().service, "host");
    assert_eq!(get_color_for_value(&registry, "vm_state", "ACTIVE"), Some([9, 9, 9]));
    assert_eq!(get_color_for_value(&registry, "vm_state", "FAILED"), None);
}

#[test]
fn colour_lookup_takes_the_first_entry_for_a_value() {
    let registry = registry();
    assert_eq!(get_color_map(&registry, "vm_state").unwrap().len(), 3);
    assert!(get_color_map(&registry, "host_state").is_none());
    assert_eq!(get_color_for_value(&registry, "vm_state", "ACTIVE"), Some([0, 255, 0]));
    assert_eq!(get_color_for_value(&registry, "vm_state", "FAILED"), Some([255, 0, 0]));
    assert_eq!(get_color_for_value(&registry, "vm_state", "active"), None);
    assert_eq!(get_color_for_value(&registry, "nothing", "ACTIVE"), None);
}

fn action(needs_confirm: bool, confirm: Option<ConfirmConfig>) -> ActionDef {
    ActionDef {
        key: "terminate".to_string(),
        display_name: "Terminate".to_string(),
        shortcut: Some("ctrl+d".to_string()),
        sdk_method: "terminate".to_string(),
        id_param: None,
        needs_confirm,
        confirm,
    }
}

#[test]
fn confirm_config_of_an_action() {
    assert!(action(false, None).get_confirm_config().is_none());

    let plain = action(true, None).get_confirm_config().unwrap();
    assert_eq!(plain.message, Some("Terminate".to_string()));
    assert!(!plain.default_yes);
    assert!(!plain.destructive);

    let own = action(
        false,
        Some(ConfirmConfig { message: None, default_yes: true, destructive: true }),
    )
    .get_confirm_config()
    .unwrap();
    assert_eq!(own.message, None);
    assert!(own.default_yes);
    assert!(own.destructive);

    let both = action(
        true,
        Some(ConfirmConfig {
            message: Some("Really".to_string()),
            default_yes: false,
            destructive: true,
        }),
    )
    .get_confirm_config()
    .unwrap();
    assert_eq!(both.message, Some("Really".to_string()));
    assert!(both.destructive);
}

#[test]
fn default_confirm_config_is_harmless() {
    let config = ConfirmConfig::default();
    assert_eq!(config.message, None);
    assert!(!config.default_yes);
    assert!(!config.destructive);
}

#[test]
fn resource_filter_keeps_name_and_values() {
    let filter = ResourceFilter::new("vm_id", vec!["1".to_string(), "2".to_string()]);
    assert_eq!(filter.name, "vm_id");
    assert_eq!(filter.values, vec!["1", "2"]);
}
