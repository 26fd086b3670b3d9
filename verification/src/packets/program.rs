//! What requests about programs and their instances carry.
use vstd::prelude::*;

use crate::json::Json;
use crate::outside::{lowercase_of, to_lowercase};
use crate::packets::IInput;
use crate::text::{same, trim, trimmed};

verus! {

broadcast use vstd::string::group_string_axioms;

/// Which machine's programs to list.
pub struct ListAppMachsInput {
    pub app_id: String,
}

impl IInput for ListAppMachsInput {
    open spec fn store_text(&self) -> Seq<char> {
        Seq::empty()
    }

    open spec fn origin_text(&self) -> Seq<char> {
        Seq::empty()
    }

    fn get_store_id(&self) -> (r: String) {
        String::new()
    }

    fn origin(&self) -> (r: String) {
        String::new()
    }
}

/// Which logs of an instance to read, and which page of them.
pub struct ReadVmLogsInput {
    pub vm_id: String,
    pub log_type: String,
    pub offset: i64,
    pub count: i64,
}

impl IInput for ReadVmLogsInput {
    open spec fn store_text(&self) -> Seq<char> {
        Seq::empty()
    }

    open spec fn origin_text(&self) -> Seq<char> {
        "global"@
    }

    fn get_store_id(&self) -> (r: String) {
        String::new()
    }

    fn origin(&self) -> (r: String) {
        "global".to_owned()
    }
}

/// A new app.
pub struct CreateAppInput {
    pub chain_id: String,
    pub shard_chain_id: Option<String>,
    pub username: String,
    pub metadata: Json,
}

impl IInput for CreateAppInput {
    open spec fn store_text(&self) -> Seq<char> {
        Seq::empty()
    }

    open spec fn origin_text(&self) -> Seq<char> {
        "global"@
    }

    fn get_store_id(&self) -> (r: String) {
        String::new()
    }

    fn origin(&self) -> (r: String) {
        "global".to_owned()
    }
}

/// A new program of a machine.
pub struct CreateMachineInput {
    pub username: String,
    pub app_id: String,
    pub path: String,
    pub comment: String,
    pub runtime: String,
    pub public_key: String,
}

impl IInput for CreateMachineInput {
    open spec fn store_text(&self) -> Seq<char> {
        Seq::empty()
    }

    open spec fn origin_text(&self) -> Seq<char> {
        "global"@
    }

    fn get_store_id(&self) -> (r: String) {
        String::new()
    }

    fn origin(&self) -> (r: String) {
        "global".to_owned()
    }
}

/// Which app to delete.
pub struct DeleteAppInput {
    pub app_id: String,
}

impl IInput for DeleteAppInput {
    open spec fn store_text(&self) -> Seq<char> {
        Seq::empty()
    }

    open spec fn origin_text(&self) -> Seq<char> {
        "global"@
    }

    fn get_store_id(&self) -> (r: String) {
        String::new()
    }

    fn origin(&self) -> (r: String) {
        "global".to_owned()
    }
}

/// Which program to delete.
pub struct DeleteProgramInput {
    pub program_id: String,
}

impl IInput for DeleteProgramInput {
    open spec fn store_text(&self) -> Seq<char> {
        Seq::empty()
    }

    open spec fn origin_text(&self) -> Seq<char> {
        "global"@
    }

    fn get_store_id(&self) -> (r: String) {
        String::new()
    }

    fn origin(&self) -> (r: String) {
        "global".to_owned()
    }
}

/// A deployment of an entity of a program.
///
/// `distribution` is its scope: `cluster`, `global` and `distributed` send it to every node
/// of this origin; anything else keeps it on the node that receives it. `distributed` asks
/// for the same as `cluster`.
pub struct DeployInput {
    pub machine_id: String,
    pub entity_id: String,
    pub entity_type: String,
    pub downloadable: bool,
    pub payload: String,
    pub metadata: Json,
    pub distribution: String,
    pub distributed: bool,
}

/// Whether a scope, as it was written, means every node of the origin.
pub open spec fn is_cluster_scope(distribution: Seq<char>) -> bool {
    let scope = lowercase_of(trimmed(distribution));
    scope == "cluster"@ || scope == "global"@ || scope == "distributed"@
}

/// Whether a scope in lower case means every node of the origin.
pub fn names_cluster(scope: &str) -> (r: bool)
    ensures
        r == (scope@ == "cluster"@ || scope@ == "global"@ || scope@ == "distributed"@),
{
    same(scope, "cluster") || same(scope, "global") || same(scope, "distributed")
}

impl DeployInput {
    /// Whether the deployment goes to every node of the origin.
    pub fn wants_distribution(&self) -> (r: bool)
        ensures
            r == (self.distributed || is_cluster_scope(self.distribution@)),
    {
        let scope = to_lowercase(trim(self.distribution.as_str()));
        self.distributed || names_cluster(scope.as_str())
    }
}

impl IInput for DeployInput {
    open spec fn store_text(&self) -> Seq<char> {
        Seq::empty()
    }

    open spec fn origin_text(&self) -> Seq<char> {
        "global"@
    }

    fn get_store_id(&self) -> (r: String) {
        String::new()
    }

    fn origin(&self) -> (r: String) {
        "global".to_owned()
    }
}

/// Which page of a list to give.
pub struct ListInput {
    pub offset: i64,
    pub count: i64,
}

impl IInput for ListInput {
    open spec fn store_text(&self) -> Seq<char> {
        Seq::empty()
    }

    open spec fn origin_text(&self) -> Seq<char> {
        Seq::empty()
    }

    fn get_store_id(&self) -> (r: String) {
        String::new()
    }

    fn origin(&self) -> (r: String) {
        String::new()
    }
}

/// What to change of an app.
pub struct UpdateAppInput {
    pub app_id: String,
    pub metadata: Json,
}

impl IInput for UpdateAppInput {
    open spec fn store_text(&self) -> Seq<char> {
        Seq::empty()
    }

    open spec fn origin_text(&self) -> Seq<char> {
        "global"@
    }

    fn get_store_id(&self) -> (r: String) {
        String::new()
    }

    fn origin(&self) -> (r: String) {
        "global".to_owned()
    }
}

/// Which builds of a machine to list.
pub struct MachineBuildsInput {
    pub machine_id: String,
    pub offset: i64,
    pub count: i64,
}

impl IInput for MachineBuildsInput {
    open spec fn store_text(&self) -> Seq<char> {
        Seq::empty()
    }

    open spec fn origin_text(&self) -> Seq<char> {
        "global"@
    }

    fn get_store_id(&self) -> (r: String) {
        String::new()
    }

    fn origin(&self) -> (r: String) {
        "global".to_owned()
    }
}

/// A signal to a machine.
pub struct SignalInput {
    pub data: String,
    pub machine_id: String,
    pub vm_tag: String,
}

impl IInput for SignalInput {
    open spec fn store_text(&self) -> Seq<char> {
        Seq::empty()
    }

    open spec fn origin_text(&self) -> Seq<char> {
        Seq::empty()
    }

    fn get_store_id(&self) -> (r: String) {
        String::new()
    }

    fn origin(&self) -> (r: String) {
        String::new()
    }
}

/// What to change of a program.
pub struct UpdateProgramInput {
    pub program_id: String,
    pub path: String,
    pub metadata: Json,
}

impl IInput for UpdateProgramInput {
    open spec fn store_text(&self) -> Seq<char> {
        Seq::empty()
    }

    open spec fn origin_text(&self) -> Seq<char> {
        "global"@
    }

    fn get_store_id(&self) -> (r: String) {
        String::new()
    }

    fn origin(&self) -> (r: String) {
        "global".to_owned()
    }
}

/// Whose terminal of which instance.
pub struct VmTerminalInput {
    pub creature_id: String,
    pub vm_id: String,
}

impl IInput for VmTerminalInput {
    open spec fn store_text(&self) -> Seq<char> {
        Seq::empty()
    }

    open spec fn origin_text(&self) -> Seq<char> {
        "global"@
    }

    fn get_store_id(&self) -> (r: String) {
        String::new()
    }

    fn origin(&self) -> (r: String) {
        "global".to_owned()
    }
}

/// What an instance asks for; a figure that is not positive asks for the default.
pub struct VmResourcesInput {
    pub max_exec_time_seconds: i64,
    pub ram_mb: i64,
    pub disk_gb: i64,
    pub cpu_cores: i64,
}

/// Which entity of a program to run, stop, delete, or list instances of. A running
/// instance may be bound to a path of the gateway.
pub struct RunProgramEntityInput {
    pub program_id: String,
    pub machine_id: String,
    pub entity_id: String,
    pub vm_id: String,
    pub resources: VmResourcesInput,
    pub params: Vec<(String, String)>,
    pub payment_lock_id: String,
    pub payment_signatures: Vec<String>,
    pub gateway_path: String,
}

impl IInput for RunProgramEntityInput {
    open spec fn store_text(&self) -> Seq<char> {
        Seq::empty()
    }

    open spec fn origin_text(&self) -> Seq<char> {
        Seq::empty()
    }

    fn get_store_id(&self) -> (r: String) {
        String::new()
    }

    fn origin(&self) -> (r: String) {
        String::new()
    }
}

/// Which entity's file to fetch.
pub struct DownloadEntityInput {
    pub machine_id: String,
    pub program_id: String,
    pub entity_id: String,
}

impl IInput for DownloadEntityInput {
    open spec fn store_text(&self) -> Seq<char> {
        Seq::empty()
    }

    open spec fn origin_text(&self) -> Seq<char> {
        Seq::empty()
    }

    fn get_store_id(&self) -> (r: String) {
        String::new()
    }

    fn origin(&self) -> (r: String) {
        String::new()
    }
}

} // verus!
