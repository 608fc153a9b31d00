//! The remote API, call by call: which method each operation names and
//! which parameters it sends after the authentication string.

use crate::auth::OneCredentials;
use crate::encode::{build_method_call, encoded_call};
use crate::value::{values_view, ValueView, XmlRpcValue};
use vstd::prelude::*;
use vstd::string::*;

verus! {

/// A call that is ready to be sent: the remote method and its parameters,
/// without the authentication string.
#[derive(Debug)]
pub struct RemoteCall {
    pub method: String,
    pub params: Vec<XmlRpcValue>,
}

impl RemoteCall {
    /// Whether this is a call of `method` with the given parameters.
    pub open spec fn is(self, method: Seq<char>, params: Seq<ValueView>) -> bool {
        self.method@ == method && values_view(self.params@) == params
    }

    fn without_params(method: &str) -> (call: RemoteCall)
        ensures
            call.is(method@, Seq::empty()),
    {
        let call = RemoteCall { method: String::from_str(method), params: Vec::new() };
        assert(values_view(call.params@) =~= Seq::empty());
        call
    }

    fn with_id(method: &str, id: i32) -> (call: RemoteCall)
        ensures
            call.is(method@, seq![ValueView::Int(id)]),
    {
        let mut params: Vec<XmlRpcValue> = Vec::new();
        params.push(XmlRpcValue::Int(id));
        assert(values_view(params@) =~= seq![ValueView::Int(id)]);
        RemoteCall { method: String::from_str(method), params }
    }

    fn with_range(method: &str, filter: i32, start: i32, end: i32) -> (call: RemoteCall)
        ensures
            call.is(
                method@,
                seq![ValueView::Int(filter), ValueView::Int(start), ValueView::Int(end)],
            ),
    {
        let mut params: Vec<XmlRpcValue> = Vec::new();
        params.push(XmlRpcValue::Int(filter));
        params.push(XmlRpcValue::Int(start));
        params.push(XmlRpcValue::Int(end));
        assert(values_view(params@) =~= seq![
            ValueView::Int(filter),
            ValueView::Int(start),
            ValueView::Int(end),
        ]);
        RemoteCall { method: String::from_str(method), params }
    }

    /// Lists virtual machines. `filter`: -2 all, -1 mine, otherwise a
    /// user; `start` and `end`: -1 for no bound; `state`: -1 for any.
    pub fn list_vms(filter: i32, start: i32, end: i32, state: i32) -> (call: RemoteCall)
        ensures
            call.is(
                "one.vmpool.info"@,
                seq![
                    ValueView::Int(filter),
                    ValueView::Int(start),
                    ValueView::Int(end),
                    ValueView::Int(state),
                ],
            ),
    {
        let mut params: Vec<XmlRpcValue> = Vec::new();
        params.push(XmlRpcValue::Int(filter));
        params.push(XmlRpcValue::Int(start));
        params.push(XmlRpcValue::Int(end));
        params.push(XmlRpcValue::Int(state));
        assert(values_view(params@) =~= seq![
            ValueView::Int(filter),
            ValueView::Int(start),
            ValueView::Int(end),
            ValueView::Int(state),
        ]);
        RemoteCall { method: String::from_str("one.vmpool.info"), params }
    }

    /// Asks for one virtual machine.
    pub fn get_vm(vm_id: i32) -> (call: RemoteCall)
        ensures
            call.is("one.vm.info"@, seq![ValueView::Int(vm_id)]),
    {
        RemoteCall::with_id("one.vm.info", vm_id)
    }

    /// Performs an action on a virtual machine.
    pub fn vm_action(action: &str, vm_id: i32) -> (call: RemoteCall)
        ensures
            call.is("one.vm.action"@, seq![ValueView::String(action@), ValueView::Int(vm_id)]),
    {
        let mut params: Vec<XmlRpcValue> = Vec::new();
        params.push(XmlRpcValue::String(String::from_str(action)));
        params.push(XmlRpcValue::Int(vm_id));
        assert(values_view(params@) =~= seq![ValueView::String(action@), ValueView::Int(vm_id)]);
        RemoteCall { method: String::from_str("one.vm.action"), params }
    }

    /// Lists hosts.
    pub fn list_hosts() -> (call: RemoteCall)
        ensures
            call.is("one.hostpool.info"@, Seq::empty()),
    {
        RemoteCall::without_params("one.hostpool.info")
    }

    /// Asks for one host.
    pub fn get_host(host_id: i32) -> (call: RemoteCall)
        ensures
            call.is("one.host.info"@, seq![ValueView::Int(host_id)]),
    {
        RemoteCall::with_id("one.host.info", host_id)
    }

    /// Lists datastores.
    pub fn list_datastores() -> (call: RemoteCall)
        ensures
            call.is("one.datastorepool.info"@, Seq::empty()),
    {
        RemoteCall::without_params("one.datastorepool.info")
    }

    /// Asks for one datastore.
    pub fn get_datastore(ds_id: i32) -> (call: RemoteCall)
        ensures
            call.is("one.datastore.info"@, seq![ValueView::Int(ds_id)]),
    {
        RemoteCall::with_id("one.datastore.info", ds_id)
    }

    /// Lists virtual networks.
    pub fn list_vnets(filter: i32, start: i32, end: i32) -> (call: RemoteCall)
        ensures
            call.is(
                "one.vnpool.info"@,
                seq![ValueView::Int(filter), ValueView::Int(start), ValueView::Int(end)],
            ),
    {
        RemoteCall::with_range("one.vnpool.info", filter, start, end)
    }

    /// Asks for one virtual network.
    pub fn get_vnet(vnet_id: i32) -> (call: RemoteCall)
        ensures
            call.is("one.vn.info"@, seq![ValueView::Int(vnet_id)]),
    {
        RemoteCall::with_id("one.vn.info", vnet_id)
    }

    /// Lists images.
    pub fn list_images(filter: i32, start: i32, end: i32) -> (call: RemoteCall)
        ensures
            call.is(
                "one.imagepool.info"@,
                seq![ValueView::Int(filter), ValueView::Int(start), ValueView::Int(end)],
            ),
    {
        RemoteCall::with_range("one.imagepool.info", filter, start, end)
    }

    /// Asks for one image.
    pub fn get_image(image_id: i32) -> (call: RemoteCall)
        ensures
            call.is("one.image.info"@, seq![ValueView::Int(image_id)]),
    {
        RemoteCall::with_id("one.image.info", image_id)
    }

    /// Lists templates.
    pub fn list_templates(filter: i32, start: i32, end: i32) -> (call: RemoteCall)
        ensures
            call.is(
                "one.templatepool.info"@,
                seq![ValueView::Int(filter), ValueView::Int(start), ValueView::Int(end)],
            ),
    {
        RemoteCall::with_range("one.templatepool.info", filter, start, end)
    }

    /// Asks for one template.
    pub fn get_template(template_id: i32) -> (call: RemoteCall)
        ensures
            call.is("one.template.info"@, seq![ValueView::Int(template_id)]),
    {
        RemoteCall::with_id("one.template.info", template_id)
    }

    /// Lists clusters.
    pub fn list_clusters() -> (call: RemoteCall)
        ensures
            call.is("one.clusterpool.info"@, Seq::empty()),
    {
        RemoteCall::without_params("one.clusterpool.info")
    }

    /// Asks for one cluster.
    pub fn get_cluster(cluster_id: i32) -> (call: RemoteCall)
        ensures
            call.is("one.cluster.info"@, seq![ValueView::Int(cluster_id)]),
    {
        RemoteCall::with_id("one.cluster.info", cluster_id)
    }

    /// Lists users.
    pub fn list_users() -> (call: RemoteCall)
        ensures
            call.is("one.userpool.info"@, Seq::empty()),
    {
        RemoteCall::without_params("one.userpool.info")
    }

    /// Asks for one user.
    pub fn get_user(user_id: i32) -> (call: RemoteCall)
        ensures
            call.is("one.user.info"@, seq![ValueView::Int(user_id)]),
    {
        RemoteCall::with_id("one.user.info", user_id)
    }

    /// Lists groups.
    pub fn list_groups() -> (call: RemoteCall)
        ensures
            call.is("one.grouppool.info"@, Seq::empty()),
    {
        RemoteCall::without_params("one.grouppool.info")
    }

    /// Lists zones.
    pub fn list_zones() -> (call: RemoteCall)
        ensures
            call.is("one.zonepool.info"@, Seq::empty()),
    {
        RemoteCall::without_params("one.zonepool.info")
    }

    /// Asks for the remote system's version.
    pub fn get_version() -> (call: RemoteCall)
        ensures
            call.is("one.system.version"@, Seq::empty()),
    {
        RemoteCall::without_params("one.system.version")
    }

    /// Asks for the remote system's configuration.
    pub fn get_system_config() -> (call: RemoteCall)
        ensures
            call.is("one.system.config"@, Seq::empty()),
    {
        RemoteCall::without_params("one.system.config")
    }

    /// The text of the request for this call: the authentication string
    /// of the credentials goes first, the call's own parameters follow.
    pub fn request(&self, credentials: &OneCredentials) -> (document: String)
        ensures
            document@ == encoded_call(
                self.method@,
                seq![ValueView::String(credentials.auth_text())] + values_view(self.params@),
            ),
    {
        let mut full: Vec<XmlRpcValue> = Vec::new();
        full.push(XmlRpcValue::String(credentials.auth_string()));
        let mut i: usize = 0;
        while i < self.params.len()
            invariant
                i <= self.params@.len(),
                values_view(full@) == seq![ValueView::String(credentials.auth_text())]
                    + values_view(self.params@.take(i as int)),
            decreases self.params@.len() - i,
        {
            let ghost before = values_view(full@);
            let copy = self.params[i].clone();
            full.push(copy);
            i += 1;
            assert(values_view(full@) =~= before.push(copy@));
            assert(values_view(self.params@.take(i as int)) =~= values_view(
                self.params@.take(i - 1),
            ).push(copy@));
        }
        assert(self.params@.take(i as int) =~= self.params@);
        build_method_call(self.method.as_str(), &full)
    }
}

} // verus!
