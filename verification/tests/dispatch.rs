use tone::auth::OneCredentials;
use tone::client::RemoteCall;
use tone::dispatch::{get_int, invoke_sdk_method};
use tone::document::Document;
use tone::error::ApiError;
use tone::value::XmlRpcValue;

fn params(members: Vec<(&str, Document)>) -> Document {
    Document::Object(members.into_iter().map(|(k, v)| (k.to_string(), v)).collect())
}

fn shown(call: &RemoteCall) -> String {
    format!("{} {:?}", call.method, call.params)
}

fn resolve(service: &str, method: &str, params: &Document) -> String {
    match invoke_sdk_method(service, method, params) {
        Ok(call) => shown(&call),
        Err(error) => format!("error: {}", error.message()),
    }
}

#[test]
fn terminate_without_id_is_a_missing_parameter() {
    let result = invoke_sdk_method("vm", "terminate", &params(Vec::new()));
    match result {
        Err(ApiError::MissingParameter(what)) => {
            assert_eq!(what, "VM");
            assert_eq!(ApiError::MissingParameter(what).message(), "Missing VM id");
        }
        other => panic!("{:?}", other),
    }
}

#[test]
fn missing_id_for_every_service() {
    let none = params(Vec::new());
    assert_eq!(resolve("vm", "get", &none), "error: Missing VM id");
    assert_eq!(resolve("vm", "get_vm", &none), "error: Missing VM id");
    assert_eq!(resolve("host", "get", &none), "error: Missing host id");
    assert_eq!(resolve("datastore", "get_datastore", &none), "error: Missing datastore id");
    assert_eq!(resolve("vnet", "get", &none), "error: Missing vnet id");
    assert_eq!(resolve("image", "get", &none), "error: Missing image id");
    assert_eq!(resolve("template", "get", &none), "error: Missing template id");
    assert_eq!(resolve("cluster", "get", &none), "error: Missing cluster id");
    assert_eq!(resolve("user", "get", &none), "error: Missing user id");
    // An identifier that is no integer is as good as none.
    let text = params(vec![("id", Document::Text("7".to_string()))]);
    assert_eq!(resolve("vm", "terminate", &text), "error: Missing VM id");
    let real = params(vec![("id", Document::Real("7.0".to_string()))]);
    assert_eq!(resolve("host", "get", &real), "error: Missing host id");
    assert_eq!(resolve("vm", "get", &Document::Null), "error: Missing VM id");
}

#[test]
fn unknown_service_and_method() {
    let none = params(Vec::new());
    assert!(matches!(
        invoke_sdk_method("nothing", "list", &none),
        Err(ApiError::UnknownService(_))
    ));
    assert_eq!(resolve("nothing", "list", &none), "error: Unknown service: nothing");
    assert_eq!(resolve("", "list", &none), "error: Unknown service: ");
    assert_eq!(resolve("VM", "list", &none), "error: Unknown service: VM");
    assert!(matches!(
        invoke_sdk_method("vm", "explode", &none),
        Err(ApiError::UnknownMethod(_, _))
    ));
    assert_eq!(resolve("vm", "explode", &none), "error: Unknown VM method: explode");
    assert_eq!(resolve("host", "list_vms", &none), "error: Unknown host method: list_vms");
    assert_eq!(resolve("datastore", "x", &none), "error: Unknown datastore method: x");
    assert_eq!(resolve("vnet", "x", &none), "error: Unknown vnet method: x");
    assert_eq!(resolve("image", "x", &none), "error: Unknown image method: x");
    assert_eq!(resolve("template", "x", &none), "error: Unknown template method: x");
    assert_eq!(resolve("cluster", "x", &none), "error: Unknown cluster method: x");
    assert_eq!(resolve("user", "x", &none), "error: Unknown user method: x");
    assert_eq!(resolve("group", "get", &none), "error: Unknown group method: get");
    assert_eq!(resolve("zone", "get", &none), "error: Unknown zone method: get");
    assert_eq!(resolve("system", "list", &none), "error: Unknown system method: list");
}

#[test]
fn listings_take_defaults() {
    let none = params(Vec::new());
    assert_eq!(resolve("vm", "list", &none), "one.vmpool.info [Int(-2), Int(-1), Int(-1), Int(-1)]");
    assert_eq!(resolve("vm", "list_vms", &none), "one.vmpool.info [Int(-2), Int(-1), Int(-1), Int(-1)]");
    assert_eq!(resolve("vnet", "list", &none), "one.vnpool.info [Int(-2), Int(-1), Int(-1)]");
    assert_eq!(resolve("vnet", "list_vnets", &none), "one.vnpool.info [Int(-2), Int(-1), Int(-1)]");
    assert_eq!(resolve("image", "list", &none), "one.imagepool.info [Int(-2), Int(-1), Int(-1)]");
    assert_eq!(resolve("image", "list_images", &none), "one.imagepool.info [Int(-2), Int(-1), Int(-1)]");
    assert_eq!(resolve("template", "list", &none), "one.templatepool.info [Int(-2), Int(-1), Int(-1)]");
    assert_eq!(resolve("template", "list_templates", &none), "one.templatepool.info [Int(-2), Int(-1), Int(-1)]");
    assert_eq!(resolve("host", "list", &none), "one.hostpool.info []");
    assert_eq!(resolve("host", "list_hosts", &none), "one.hostpool.info []");
    assert_eq!(resolve("datastore", "list", &none), "one.datastorepool.info []");
    assert_eq!(resolve("cluster", "list_clusters", &none), "one.clusterpool.info []");
    assert_eq!(resolve("user", "list_users", &none), "one.userpool.info []");
    assert_eq!(resolve("group", "list", &none), "one.grouppool.info []");
    assert_eq!(resolve("group", "list_groups", &none), "one.grouppool.info []");
    assert_eq!(resolve("zone", "list_zones", &none), "one.zonepool.info []");
    assert_eq!(resolve("system", "version", &none), "one.system.version []");
    assert_eq!(resolve("system", "get_version", &none), "one.system.version []");
    assert_eq!(resolve("system", "config", &none), "one.system.config []");
    assert_eq!(resolve("system", "get_config", &none), "one.system.config []");
    // Parameters that are no object count as none.
    assert_eq!(resolve("vm", "list", &Document::Null), "one.vmpool.info [Int(-2), Int(-1), Int(-1), Int(-1)]");
}

#[test]
fn listings_take_their_parameters() {
    let given = params(vec![
        ("filter", Document::Int(-1)),
        ("start", Document::Int(10)),
        ("end", Document::Int(20)),
        ("state", Document::Int(3)),
        ("vm_id", Document::Text("12".to_string())),
    ]);
    assert_eq!(resolve("vm", "list", &given), "one.vmpool.info [Int(-1), Int(10), Int(20), Int(3)]");
    assert_eq!(resolve("image", "list", &given), "one.imagepool.info [Int(-1), Int(10), Int(20)]");
    let partly = params(vec![
        ("filter", Document::Text("-1".to_string())),
        ("end", Document::Int(5)),
    ]);
    assert_eq!(resolve("vnet", "list", &partly), "one.vnpool.info [Int(-2), Int(-1), Int(5)]");
}

#[test]
fn verbs_with_an_id() {
    let seven = params(vec![("id", Document::Int(7))]);
    assert_eq!(resolve("vm", "get", &seven), "one.vm.info [Int(7)]");
    assert_eq!(resolve("host", "get_host", &seven), "one.host.info [Int(7)]");
    assert_eq!(resolve("datastore", "get", &seven), "one.datastore.info [Int(7)]");
    assert_eq!(resolve("vnet", "get_vnet", &seven), "one.vn.info [Int(7)]");
    assert_eq!(resolve("image", "get_image", &seven), "one.image.info [Int(7)]");
    assert_eq!(resolve("template", "get_template", &seven), "one.template.info [Int(7)]");
    assert_eq!(resolve("cluster", "get_cluster", &seven), "one.cluster.info [Int(7)]");
    assert_eq!(resolve("user", "get_user", &seven), "one.user.info [Int(7)]");
    for action in [
        "resume", "suspend", "stop", "poweroff", "poweroff-hard", "reboot", "reboot-hard",
        "terminate", "terminate-hard", "undeploy", "hold", "release",
    ] {
        assert_eq!(
            resolve("vm", action, &seven),
            format!("one.vm.action [String({:?}), Int(7)]", action)
        );
    }
}

#[test]
fn integers_are_cut_to_32_bits() {
    assert_eq!(get_int(&params(vec![("id", Document::Int(5))]), "id"), Some(5));
    assert_eq!(get_int(&params(vec![("id", Document::Int(-5))]), "id"), Some(-5));
    assert_eq!(get_int(&params(vec![("id", Document::Int(1 << 32))]), "id"), Some(0));
    assert_eq!(
        get_int(&params(vec![("id", Document::Int((1 << 32) + 9))]), "id"),
        Some(9)
    );
    assert_eq!(
        get_int(&params(vec![("id", Document::Int(i64::MAX))]), "id"),
        Some(-1)
    );
    assert_eq!(get_int(&params(vec![("id", Document::Int(5))]), "ID"), None);
    assert_eq!(get_int(&params(vec![("id", Document::Bool(true))]), "id"), None);
}

#[test]
fn calls_by_name() {
    assert_eq!(shown(&RemoteCall::list_vms(-2, 0, 9, 3)), "one.vmpool.info [Int(-2), Int(0), Int(9), Int(3)]");
    assert_eq!(shown(&RemoteCall::get_vm(1)), "one.vm.info [Int(1)]");
    assert_eq!(shown(&RemoteCall::vm_action("hold", 2)), "one.vm.action [String(\"hold\"), Int(2)]");
    assert_eq!(shown(&RemoteCall::list_hosts()), "one.hostpool.info []");
    assert_eq!(shown(&RemoteCall::get_host(3)), "one.host.info [Int(3)]");
    assert_eq!(shown(&RemoteCall::list_datastores()), "one.datastorepool.info []");
    assert_eq!(shown(&RemoteCall::get_datastore(4)), "one.datastore.info [Int(4)]");
    assert_eq!(shown(&RemoteCall::list_vnets(-1, 1, 2)), "one.vnpool.info [Int(-1), Int(1), Int(2)]");
    assert_eq!(shown(&RemoteCall::get_vnet(5)), "one.vn.info [Int(5)]");
    assert_eq!(shown(&RemoteCall::list_images(-1, 1, 2)), "one.imagepool.info [Int(-1), Int(1), Int(2)]");
    assert_eq!(shown(&RemoteCall::get_image(6)), "one.image.info [Int(6)]");
    assert_eq!(shown(&RemoteCall::list_templates(-1, 1, 2)), "one.templatepool.info [Int(-1), Int(1), Int(2)]");
    assert_eq!(shown(&RemoteCall::get_template(7)), "one.template.info [Int(7)]");
    assert_eq!(shown(&RemoteCall::list_clusters()), "one.clusterpool.info []");
    assert_eq!(shown(&RemoteCall::get_cluster(8)), "one.cluster.info [Int(8)]");
    assert_eq!(shown(&RemoteCall::list_users()), "one.userpool.info []");
    assert_eq!(shown(&RemoteCall::get_user(9)), "one.user.info [Int(9)]");
    assert_eq!(shown(&RemoteCall::list_groups()), "one.grouppool.info []");
    assert_eq!(shown(&RemoteCall::list_zones()), "one.zonepool.info []");
    assert_eq!(shown(&RemoteCall::get_version()), "one.system.version []");
    assert_eq!(shown(&RemoteCall::get_system_config()), "one.system.config []");
}

#[test]
fn request_puts_the_authentication_first() {
    let credentials = OneCredentials::new("oneadmin:se<ret", "https://one/RPC2").unwrap();
    let call = RemoteCall::vm_action("hold", 2);
    assert_eq!(
        call.request(&credentials),
        "<?xml version=\"1.0\"?><methodCall><methodName>one.vm.action</methodName><params>\
         <param><value><string>oneadmin:se&lt;ret</string></value></param>\
         <param><value><string>hold</string></value></param>\
         <param><value><int>2</int></value></param>\
         </params></methodCall>"
    );
    assert!(matches!(call.params[0], XmlRpcValue::String(_)));
    assert_eq!(call.params.len(), 2);
    assert_eq!(
        RemoteCall::list_zones().request(&credentials),
        "<?xml version=\"1.0\"?><methodCall><methodName>one.zonepool.info</methodName><params>\
         <param><value><string>oneadmin:se&lt;ret</string></value></param>\
         </params></methodCall>"
    );
}

#[test]
fn messages_of_errors() {
    assert_eq!(ApiError::Malformed("bad".to_string()).message(), "XML parsing error: bad");
    assert_eq!(ApiError::Remote("no".to_string()).message(), "OpenNebula API error: no");
    assert_eq!(ApiError::UnknownService("s".to_string()).message(), "Unknown service: s");
    assert_eq!(
        ApiError::UnknownMethod("VM".to_string(), "m".to_string()).message(),
        "Unknown VM method: m"
    );
    assert_eq!(ApiError::UnknownResource("r".to_string()).message(), "Unknown resource: r");
    assert_eq!(ApiError::Transport("down".to_string()).message(), "down");
}
