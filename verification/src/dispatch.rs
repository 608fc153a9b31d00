//! The service dispatcher: a service, a verb and named parameters resolve
//! to one call of the remote API, or to a local error before anything is
//! sent.

use crate::client::RemoteCall;
use crate::document::{Document, DocumentView};
use crate::error::ApiError;
use crate::text::str_eq;
use crate::value::ValueView;
use vstd::prelude::*;
use vstd::string::*;

verus! {

/// The integer under a name in the parameters, cut to 32 bits; nothing
/// where the name is absent or its value is no integer.
pub open spec fn int_param(params: DocumentView, name: Seq<char>) -> Option<i32> {
    match params.member(name) {
        Some(DocumentView::Int(value)) => Some(value as i32),
        _ => None,
    }
}

/// The integer under a name, or a default.
pub open spec fn int_param_or(params: DocumentView, name: Seq<char>, default: i32) -> i32 {
    match int_param(params, name) {
        Some(value) => value,
        None => default,
    }
}

/// What a request resolves to.
pub enum Resolved {
    /// A call of the remote method with these parameters.
    Call(Seq<char>, Seq<ValueView>),
    /// The identifier of the named kind of thing is absent.
    MissingParameter(Seq<char>),
    /// The service is not known.
    UnknownService(Seq<char>),
    /// The verb is not known under the service of this label.
    UnknownMethod(Seq<char>, Seq<char>),
}

/// A call that takes the identifier under `id`, or the lack of it.
pub open spec fn with_id(remote: Seq<char>, label: Seq<char>, params: DocumentView) -> Resolved {
    match int_param(params, "id"@) {
        Some(id) => Resolved::Call(remote, seq![ValueView::Int(id)]),
        None => Resolved::MissingParameter(label),
    }
}

/// A listing that takes a filter (by default mine and shared, -2) and a
/// range (by default unbounded, -1 and -1).
pub open spec fn with_range(remote: Seq<char>, params: DocumentView) -> Resolved {
    Resolved::Call(
        remote,
        seq![
            ValueView::Int(int_param_or(params, "filter"@, -2i32)),
            ValueView::Int(int_param_or(params, "start"@, -1i32)),
            ValueView::Int(int_param_or(params, "end"@, -1i32)),
        ],
    )
}

/// Whether a verb is an action on a virtual machine.
pub open spec fn is_vm_action(method: Seq<char>) -> bool {
    method == "resume"@ || method == "suspend"@ || method == "stop"@ || method == "poweroff"@
        || method == "poweroff-hard"@ || method == "reboot"@ || method == "reboot-hard"@ || method
        == "terminate"@ || method == "terminate-hard"@ || method == "undeploy"@ || method
        == "hold"@ || method == "release"@
}

/// The verbs of the `vm` service.
pub open spec fn resolved_vm(method: Seq<char>, params: DocumentView) -> Resolved {
    if method == "list"@ || method == "list_vms"@ {
        Resolved::Call(
            "one.vmpool.info"@,
            seq![
                ValueView::Int(int_param_or(params, "filter"@, -2i32)),
                ValueView::Int(int_param_or(params, "start"@, -1i32)),
                ValueView::Int(int_param_or(params, "end"@, -1i32)),
                ValueView::Int(int_param_or(params, "state"@, -1i32)),
            ],
        )
    } else if method == "get"@ || method == "get_vm"@ {
        with_id("one.vm.info"@, "VM"@, params)
    } else if is_vm_action(method) {
        match int_param(params, "id"@) {
            Some(id) => Resolved::Call(
                "one.vm.action"@,
                seq![ValueView::String(method), ValueView::Int(id)],
            ),
            None => Resolved::MissingParameter("VM"@),
        }
    } else {
        Resolved::UnknownMethod("VM"@, method)
    }
}

/// The verbs of a service that lists without parameters and gets by
/// identifier: `list` or `list_` with the plural, `get` or `get_` with the
/// singular.
pub open spec fn resolved_plain(
    method: Seq<char>,
    params: DocumentView,
    label: Seq<char>,
    list_alias: Seq<char>,
    get_alias: Seq<char>,
    pool: Seq<char>,
    info: Seq<char>,
) -> Resolved {
    if method == "list"@ || method == list_alias {
        Resolved::Call(pool, Seq::empty())
    } else if method == "get"@ || method == get_alias {
        with_id(info, label, params)
    } else {
        Resolved::UnknownMethod(label, method)
    }
}

/// The verbs of a service that lists with filter and range and gets by
/// identifier.
pub open spec fn resolved_ranged(
    method: Seq<char>,
    params: DocumentView,
    label: Seq<char>,
    list_alias: Seq<char>,
    get_alias: Seq<char>,
    pool: Seq<char>,
    info: Seq<char>,
) -> Resolved {
    if method == "list"@ || method == list_alias {
        with_range(pool, params)
    } else if method == "get"@ || method == get_alias {
        with_id(info, label, params)
    } else {
        Resolved::UnknownMethod(label, method)
    }
}

/// The verbs of a service that only lists.
pub open spec fn resolved_listing(
    method: Seq<char>,
    label: Seq<char>,
    list_alias: Seq<char>,
    pool: Seq<char>,
) -> Resolved {
    if method == "list"@ || method == list_alias {
        Resolved::Call(pool, Seq::empty())
    } else {
        Resolved::UnknownMethod(label, method)
    }
}

/// The verbs of the `system` service.
pub open spec fn resolved_system(method: Seq<char>) -> Resolved {
    if method == "version"@ || method == "get_version"@ {
        Resolved::Call("one.system.version"@, Seq::empty())
    } else if method == "config"@ || method == "get_config"@ {
        Resolved::Call("one.system.config"@, Seq::empty())
    } else {
        Resolved::UnknownMethod("system"@, method)
    }
}

/// The two-level table: service, then verb.
pub open spec fn resolved(service: Seq<char>, method: Seq<char>, params: DocumentView) -> Resolved {
    if service == "vm"@ {
        resolved_vm(method, params)
    } else if service == "host"@ {
        resolved_plain(
            method,
            params,
            "host"@,
            "list_hosts"@,
            "get_host"@,
            "one.hostpool.info"@,
            "one.host.info"@,
        )
    } else if service == "datastore"@ {
        resolved_plain(
            method,
            params,
            "datastore"@,
            "list_datastores"@,
            "get_datastore"@,
            "one.datastorepool.info"@,
            "one.datastore.info"@,
        )
    } else if service == "vnet"@ {
        resolved_ranged(
            method,
            params,
            "vnet"@,
            "list_vnets"@,
            "get_vnet"@,
            "one.vnpool.info"@,
            "one.vn.info"@,
        )
    } else if service == "image"@ {
        resolved_ranged(
            method,
            params,
            "image"@,
            "list_images"@,
            "get_image"@,
            "one.imagepool.info"@,
            "one.image.info"@,
        )
    } else if service == "template"@ {
        resolved_ranged(
            method,
            params,
            "template"@,
            "list_templates"@,
            "get_template"@,
            "one.templatepool.info"@,
            "one.template.info"@,
        )
    } else if service == "cluster"@ {
        resolved_plain(
            method,
            params,
            "cluster"@,
            "list_clusters"@,
            "get_cluster"@,
            "one.clusterpool.info"@,
            "one.cluster.info"@,
        )
    } else if service == "user"@ {
        resolved_plain(
            method,
            params,
            "user"@,
            "list_users"@,
            "get_user"@,
            "one.userpool.info"@,
            "one.user.info"@,
        )
    } else if service == "group"@ {
        resolved_listing(method, "group"@, "list_groups"@, "one.grouppool.info"@)
    } else if service == "zone"@ {
        resolved_listing(method, "zone"@, "list_zones"@, "one.zonepool.info"@)
    } else if service == "system"@ {
        resolved_system(method)
    } else {
        Resolved::UnknownService(service)
    }
}

/// A resolution, as the dispatcher returns it.
pub open spec fn resolved_view(result: Result<RemoteCall, ApiError>) -> Option<Resolved> {
    match result {
        Ok(call) => Some(Resolved::Call(call.method@, crate::value::values_view(call.params@))),
        Err(ApiError::MissingParameter(label)) => Some(Resolved::MissingParameter(label@)),
        Err(ApiError::UnknownService(service)) => Some(Resolved::UnknownService(service@)),
        Err(ApiError::UnknownMethod(label, method)) => Some(
            Resolved::UnknownMethod(label@, method@),
        ),
        _ => None,
    }
}

/// The integer under a name in the parameters, cut to 32 bits.
pub fn get_int(params: &Document, name: &str) -> (value: Option<i32>)
    ensures
        value == int_param(params@, name@),
{
    match params.get(name) {
        Some(Document::Int(value)) => Some(#[verifier::truncate] (*value as i32)),
        _ => None,
    }
}

fn get_int_or(params: &Document, name: &str, default: i32) -> (value: i32)
    ensures
        value == int_param_or(params@, name@, default),
{
    match get_int(params, name) {
        Some(value) => value,
        None => default,
    }
}

fn unknown_method(label: &str, method: &str) -> (result: Result<RemoteCall, ApiError>)
    ensures
        resolved_view(result) == Some(Resolved::UnknownMethod(label@, method@)),
{
    Err(ApiError::UnknownMethod(String::from_str(label), String::from_str(method)))
}

fn missing(label: &str) -> (result: Result<RemoteCall, ApiError>)
    ensures
        resolved_view(result) == Some(Resolved::MissingParameter(label@)),
{
    Err(ApiError::MissingParameter(String::from_str(label)))
}

fn is_action(method: &str) -> (action: bool)
    ensures
        action == is_vm_action(method@),
{
    str_eq(method, "resume") || str_eq(method, "suspend") || str_eq(method, "stop") || str_eq(
        method,
        "poweroff",
    ) || str_eq(method, "poweroff-hard") || str_eq(method, "reboot") || str_eq(
        method,
        "reboot-hard",
    ) || str_eq(method, "terminate") || str_eq(method, "terminate-hard") || str_eq(
        method,
        "undeploy",
    ) || str_eq(method, "hold") || str_eq(method, "release")
}

fn invoke_vm(method: &str, params: &Document) -> (result: Result<RemoteCall, ApiError>)
    ensures
        resolved_view(result) == Some(resolved_vm(method@, params@)),
{
    if str_eq(method, "list") || str_eq(method, "list_vms") {
        let filter = get_int_or(params, "filter", -2);
        let start = get_int_or(params, "start", -1);
        let end = get_int_or(params, "end", -1);
        let state = get_int_or(params, "state", -1);
        Ok(RemoteCall::list_vms(filter, start, end, state))
    } else if str_eq(method, "get") || str_eq(method, "get_vm") {
        match get_int(params, "id") {
            Some(id) => Ok(RemoteCall::get_vm(id)),
            None => missing("VM"),
        }
    } else if is_action(method) {
        match get_int(params, "id") {
            Some(id) => Ok(RemoteCall::vm_action(method, id)),
            None => missing("VM"),
        }
    } else {
        unknown_method("VM", method)
    }
}

fn invoke_host(method: &str, params: &Document) -> (result: Result<RemoteCall, ApiError>)
    ensures
        resolved_view(result) == Some(resolved(
            "host"@, method@, params@)),
{
    proof {
        lemma_services_differ();
    }
    if str_eq(method, "list") || str_eq(method, "list_hosts") {
        Ok(RemoteCall::list_hosts())
    } else if str_eq(method, "get") || str_eq(method, "get_host") {
        match get_int(params, "id") {
            Some(id) => Ok(RemoteCall::get_host(id)),
            None => missing("host"),
        }
    } else {
        unknown_method("host", method)
    }
}

fn invoke_datastore(method: &str, params: &Document) -> (result: Result<RemoteCall, ApiError>)
    ensures
        resolved_view(result) == Some(resolved("datastore"@, method@, params@)),
{
    proof {
        lemma_services_differ();
    }
    if str_eq(method, "list") || str_eq(method, "list_datastores") {
        Ok(RemoteCall::list_datastores())
    } else if str_eq(method, "get") || str_eq(method, "get_datastore") {
        match get_int(params, "id") {
            Some(id) => Ok(RemoteCall::get_datastore(id)),
            None => missing("datastore"),
        }
    } else {
        unknown_method("datastore", method)
    }
}

fn invoke_vnet(method: &str, params: &Document) -> (result: Result<RemoteCall, ApiError>)
    ensures
        resolved_view(result) == Some(resolved("vnet"@, method@, params@)),
{
    proof {
        lemma_services_differ();
    }
    if str_eq(method, "list") || str_eq(method, "list_vnets") {
        let filter = get_int_or(params, "filter", -2);
        let start = get_int_or(params, "start", -1);
        let end = get_int_or(params, "end", -1);
        Ok(RemoteCall::list_vnets(filter, start, end))
    } else if str_eq(method, "get") || str_eq(method, "get_vnet") {
        match get_int(params, "id") {
            Some(id) => Ok(RemoteCall::get_vnet(id)),
            None => missing("vnet"),
        }
    } else {
        unknown_method("vnet", method)
    }
}

fn invoke_image(method: &str, params: &Document) -> (result: Result<RemoteCall, ApiError>)
    ensures
        resolved_view(result) == Some(resolved("image"@, method@, params@)),
{
    proof {
        lemma_services_differ();
    }
    if str_eq(method, "list") || str_eq(method, "list_images") {
        let filter = get_int_or(params, "filter", -2);
        let start = get_int_or(params, "start", -1);
        let end = get_int_or(params, "end", -1);
        Ok(RemoteCall::list_images(filter, start, end))
    } else if str_eq(method, "get") || str_eq(method, "get_image") {
        match get_int(params, "id") {
            Some(id) => Ok(RemoteCall::get_image(id)),
            None => missing("image"),
        }
    } else {
        unknown_method("image", method)
    }
}

fn invoke_template(method: &str, params: &Document) -> (result: Result<RemoteCall, ApiError>)
    ensures
        resolved_view(result) == Some(resolved("template"@, method@, params@)),
{
    proof {
        lemma_services_differ();
    }
    if str_eq(method, "list") || str_eq(method, "list_templates") {
        let filter = get_int_or(params, "filter", -2);
        let start = get_int_or(params, "start", -1);
        let end = get_int_or(params, "end", -1);
        Ok(RemoteCall::list_templates(filter, start, end))
    } else if str_eq(method, "get") || str_eq(method, "get_template") {
        match get_int(params, "id") {
            Some(id) => Ok(RemoteCall::get_template(id)),
            None => missing("template"),
        }
    } else {
        unknown_method("template", method)
    }
}

fn invoke_cluster(method: &str, params: &Document) -> (result: Result<RemoteCall, ApiError>)
    ensures
        resolved_view(result) == Some(resolved("cluster"@, method@, params@)),
{
    proof {
        lemma_services_differ();
    }
    if str_eq(method, "list") || str_eq(method, "list_clusters") {
        Ok(RemoteCall::list_clusters())
    } else if str_eq(method, "get") || str_eq(method, "get_cluster") {
        match get_int(params, "id") {
            Some(id) => Ok(RemoteCall::get_cluster(id)),
            None => missing("cluster"),
        }
    } else {
        unknown_method("cluster", method)
    }
}

fn invoke_user(method: &str, params: &Document) -> (result: Result<RemoteCall, ApiError>)
    ensures
        resolved_view(result) == Some(resolved("user"@, method@, params@)),
{
    proof {
        lemma_services_differ();
    }
    if str_eq(method, "list") || str_eq(method, "list_users") {
        Ok(RemoteCall::list_users())
    } else if str_eq(method, "get") || str_eq(method, "get_user") {
        match get_int(params, "id") {
            Some(id) => Ok(RemoteCall::get_user(id)),
            None => missing("user"),
        }
    } else {
        unknown_method("user", method)
    }
}

fn invoke_group(method: &str, params: &Document) -> (result: Result<RemoteCall, ApiError>)
    ensures
        resolved_view(result) == Some(resolved("group"@, method@, params@)),
{
    proof {
        lemma_services_differ();
    }
    if str_eq(method, "list") || str_eq(method, "list_groups") {
        Ok(RemoteCall::list_groups())
    } else {
        unknown_method("group", method)
    }
}

fn invoke_zone(method: &str, params: &Document) -> (result: Result<RemoteCall, ApiError>)
    ensures
        resolved_view(result) == Some(resolved("zone"@, method@, params@)),
{
    proof {
        lemma_services_differ();
    }
    if str_eq(method, "list") || str_eq(method, "list_zones") {
        Ok(RemoteCall::list_zones())
    } else {
        unknown_method("zone", method)
    }
}

fn invoke_system(method: &str, params: &Document) -> (result: Result<RemoteCall, ApiError>)
    ensures
        resolved_view(result) == Some(resolved("system"@, method@, params@)),
{
    proof {
        lemma_services_differ();
    }
    if str_eq(method, "version") || str_eq(method, "get_version") {
        Ok(RemoteCall::get_version())
    } else if str_eq(method, "config") || str_eq(method, "get_config") {
        Ok(RemoteCall::get_system_config())
    } else {
        unknown_method("system", method)
    }
}

/// The names of the services are all different.
proof fn lemma_services_differ()
    ensures
        "vm"@.len() == 2,
        "host"@.len() == 4,
        "datastore"@.len() == 9,
        "vnet"@ == seq!['v', 'n', 'e', 't'],
        "image"@ == seq!['i', 'm', 'a', 'g', 'e'],
        "template"@.len() == 8,
        "cluster"@.len() == 7,
        "user"@ == seq!['u', 's', 'e', 'r'],
        "group"@ == seq!['g', 'r', 'o', 'u', 'p'],
        "zone"@ == seq!['z', 'o', 'n', 'e'],
        "system"@.len() == 6,
        "host"@[0] == 'h',
{
    reveal_strlit("vm");
    reveal_strlit("host");
    reveal_strlit("datastore");
    reveal_strlit("vnet");
    reveal_strlit("image");
    reveal_strlit("template");
    reveal_strlit("cluster");
    reveal_strlit("user");
    reveal_strlit("group");
    reveal_strlit("zone");
    reveal_strlit("system");
    assert("vnet"@ =~= seq!['v', 'n', 'e', 't']);
    assert("image"@ =~= seq!['i', 'm', 'a', 'g', 'e']);
    assert("user"@ =~= seq!['u', 's', 'e', 'r']);
    assert("group"@ =~= seq!['g', 'r', 'o', 'u', 'p']);
    assert("zone"@ =~= seq!['z', 'o', 'n', 'e']);
}

/// Resolves a request to one call of the remote API. A listing takes its
/// filter and range from the parameters, with defaults; a verb that needs
/// an identifier fails with `MissingParameter` where `id` is absent or no
/// integer; an unknown service or verb fails with `UnknownService` or
/// `UnknownMethod`. No error of this function has reached the transport.
pub fn invoke_sdk_method(service: &str, method: &str, params: &Document) -> (result: Result<
    RemoteCall,
    ApiError,
>)
    ensures
        resolved_view(result) == Some(resolved(service@, method@, params@)),
{
    if str_eq(service, "vm") {
        invoke_vm(method, params)
    } else if str_eq(service, "host") {
        invoke_host(method, params)
    } else if str_eq(service, "datastore") {
        invoke_datastore(method, params)
    } else if str_eq(service, "vnet") {
        invoke_vnet(method, params)
    } else if str_eq(service, "image") {
        invoke_image(method, params)
    } else if str_eq(service, "template") {
        invoke_template(method, params)
    } else if str_eq(service, "cluster") {
        invoke_cluster(method, params)
    } else if str_eq(service, "user") {
        invoke_user(method, params)
    } else if str_eq(service, "group") {
        invoke_group(method, params)
    } else if str_eq(service, "zone") {
        invoke_zone(method, params)
    } else if str_eq(service, "system") {
        invoke_system(method, params)
    } else {
        Err(ApiError::UnknownService(String::from_str(service)))
    }
}

} // verus!
