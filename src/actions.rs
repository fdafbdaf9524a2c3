//! The registry of actions: their names and parameter schemas, the requests
//! that validated parameters make, the commands each request issues, and the
//! results read from what the commands print.
use vstd::prelude::*;
use crate::params::{
    arg_has_type, arg_views, param_outcome, shapes, typed, validate_params, validated, ArgValue,
    ArgView, ParamShape, ParamType, ParamValue, ParameterSpec,
};
use crate::parsers::{
    created_medium, first_labeled, labeled_value, listed_workers, listing_mentions, mentions,
    opt_view, parse_created_medium, parse_snapshot_taken, parse_version, parse_volumes,
    parse_worker_info, parse_worker_listing, snapshot_id, version_text, volume_views, volumes,
    worker_info, worker_views, ListedWorker, VolumeRecord, WorkerInfo,
};
use crate::text::{blocks, decimal, int_text, lines, text_eq, views};

verus! {

/// The actions this provider offers.
#[derive(Clone, Copy, Debug, PartialEq, Eq, Structural)]
pub enum Action {
    TestInstall,
    ListWorkers,
    CreateWorker,
    DeleteWorker,
    GetWorker,
    HasWorker,
    StartWorker,
    GetVolumes,
    HasVolume,
    CreateVolume,
    DeleteVolume,
    AttachVolume,
    DetachVolume,
    CreateSnapshot,
    DeleteSnapshot,
    HasSnapshot,
    RebootWorker,
    ConfigureNetworks,
    SetWorkerMetadata,
    SnapshotVolume,
}

pub open spec fn action_name(a: Action) -> Seq<char> {
    match a {
        Action::TestInstall => "test_install"@,
        Action::ListWorkers => "list_workers"@,
        Action::CreateWorker => "create_worker"@,
        Action::DeleteWorker => "delete_worker"@,
        Action::GetWorker => "get_worker"@,
        Action::HasWorker => "has_worker"@,
        Action::StartWorker => "start_worker"@,
        Action::GetVolumes => "get_volumes"@,
        Action::HasVolume => "has_volume"@,
        Action::CreateVolume => "create_volume"@,
        Action::DeleteVolume => "delete_volume"@,
        Action::AttachVolume => "attach_volume"@,
        Action::DetachVolume => "detach_volume"@,
        Action::CreateSnapshot => "create_snapshot"@,
        Action::DeleteSnapshot => "delete_snapshot"@,
        Action::HasSnapshot => "has_snapshot"@,
        Action::RebootWorker => "reboot_worker"@,
        Action::ConfigureNetworks => "configure_networks"@,
        Action::SetWorkerMetadata => "set_worker_metadata"@,
        Action::SnapshotVolume => "snapshot_volume"@,
    }
}

/// Every action, in the declared order.
pub open spec fn all_actions() -> Seq<Action> {
    seq![
        Action::TestInstall,
        Action::ListWorkers,
        Action::CreateWorker,
        Action::DeleteWorker,
        Action::GetWorker,
        Action::HasWorker,
        Action::StartWorker,
        Action::GetVolumes,
        Action::HasVolume,
        Action::CreateVolume,
        Action::DeleteVolume,
        Action::AttachVolume,
        Action::DetachVolume,
        Action::CreateSnapshot,
        Action::DeleteSnapshot,
        Action::HasSnapshot,
        Action::RebootWorker,
        Action::ConfigureNetworks,
        Action::SetWorkerMetadata,
        Action::SnapshotVolume,
    ]
}

/// The action of a given name: the first of the declared order that bears it.
pub open spec fn action_named_from(name: Seq<char>, i: int) -> Option<Action>
    decreases all_actions().len() - i,
{
    if i < 0 || i >= all_actions().len() {
        None
    } else if action_name(all_actions()[i]) == name {
        Some(all_actions()[i])
    } else {
        action_named_from(name, i + 1)
    }
}

pub open spec fn action_named(name: Seq<char>) -> Option<Action> {
    action_named_from(name, 0)
}

pub open spec fn not_found_message(name: Seq<char>) -> Seq<char> {
    "Action '"@ + name + "' not found"@
}

pub open spec fn text_arg(name: Seq<char>) -> ParamShape {
    ParamShape { name, param_type: ParamType::Text, default_value: None }
}

pub open spec fn int_arg(name: Seq<char>) -> ParamShape {
    ParamShape { name, param_type: ParamType::Integer, default_value: None }
}

pub open spec fn text_opt(name: Seq<char>, d: Seq<char>) -> ParamShape {
    ParamShape { name, param_type: ParamType::Text, default_value: Some(ArgView::Text(d)) }
}

pub open spec fn int_opt(name: Seq<char>, d: int) -> ParamShape {
    ParamShape { name, param_type: ParamType::Integer, default_value: Some(ArgView::Integer(d)) }
}

/// The parameters that each action declares, in order.
pub open spec fn schema(a: Action) -> Seq<ParamShape> {
    match a {
        Action::TestInstall | Action::ListWorkers | Action::GetVolumes => seq![],
        Action::CreateWorker => seq![
            text_arg("worker_name"@),
            text_opt("os_type"@, "Ubuntu_64"@),
            int_opt("memory_mb"@, 2048),
            int_opt("cpu_count"@, 2),
        ],
        Action::DeleteWorker | Action::GetWorker | Action::HasWorker | Action::StartWorker
        | Action::RebootWorker => seq![text_arg("worker_name"@)],
        Action::HasVolume | Action::DeleteVolume => seq![text_arg("disk_path"@)],
        Action::CreateVolume => seq![text_arg("disk_path"@), int_arg("size_mb"@)],
        Action::AttachVolume => seq![
            text_arg("worker_name"@),
            text_opt("controller_name"@, "SATA Controller"@),
            int_arg("port"@),
            text_arg("disk_path"@),
        ],
        Action::DetachVolume => seq![
            text_arg("worker_name"@),
            text_opt("controller_name"@, "SATA Controller"@),
            int_arg("port"@),
        ],
        Action::CreateSnapshot | Action::DeleteSnapshot | Action::HasSnapshot => seq![
            text_arg("worker_name"@),
            text_arg("snapshot_name"@),
        ],
        Action::ConfigureNetworks => seq![
            text_arg("worker_name"@),
            int_arg("network_index"@),
            text_opt("network_type"@, "nat"@),
        ],
        Action::SetWorkerMetadata => seq![
            text_arg("worker_name"@),
            text_arg("key"@),
            text_arg("value"@),
        ],
        Action::SnapshotVolume => seq![
            text_arg("source_volume_path"@),
            text_arg("target_volume_path"@),
        ],
    }
}

/// Whether every default in `decl` has its parameter's type.
pub open spec fn defaults_typed(decl: Seq<ParamShape>) -> bool {
    forall|i: int|
        0 <= i < decl.len() ==> match #[trigger] decl[i].default_value {
            Some(d) => arg_has_type(d, decl[i].param_type),
            None => true,
        }
}

/// Whether `args` has one value of the declared type per declaration.
pub open spec fn args_fit(args: Seq<ArgView>, decl: Seq<ParamShape>) -> bool {
    &&& args.len() == decl.len()
    &&& forall|i: int| 0 <= i < args.len() ==> arg_has_type(#[trigger] args[i], decl[i].param_type)
}

pub proof fn lemma_validated_fits(decl: Seq<ParamShape>, ps: Seq<(String, ParamValue)>)
    requires
        defaults_typed(decl),
        validated(decl, ps) is Ok,
    ensures
        args_fit(validated(decl, ps)->Ok_0, decl),
    decreases decl.len(),
{
    if decl.len() > 0 {
        let d = decl.drop_last();
        assert(defaults_typed(d)) by {
            assert forall|i: int| 0 <= i < d.len() implies match #[trigger] d[i].default_value {
                Some(x) => arg_has_type(x, d[i].param_type),
                None => true,
            } by {
                assert(d[i] == decl[i]);
            }
        }
        lemma_validated_fits(d, ps);
        let p = decl.last();
        assert(decl[decl.len() - 1] == p);
        match param_outcome(p, ps) {
            Ok(a) => {
                assert(arg_has_type(a, p.param_type)) by {
                    match crate::params::lookup(ps, p.name) {
                        Some(v) => {
                            assert(typed(v, p.param_type) == Some(a));
                        },
                        None => {},
                    }
                }
                let args = validated(decl, ps)->Ok_0;
                assert forall|i: int| 0 <= i < args.len() implies arg_has_type(
                    #[trigger] args[i],
                    decl[i].param_type,
                ) by {
                    if i < args.len() - 1 {
                        assert(args[i] == validated(d, ps)->Ok_0[i]);
                        assert(decl[i] == d[i]);
                    }
                }
            },
            Err(_) => {},
        }
    }
}

/// What each action does, in a sentence.
pub open spec fn action_description(a: Action) -> Seq<char> {
    match a {
        Action::TestInstall => "Test if VirtualBox is properly installed"@,
        Action::ListWorkers => "List all virtual machines"@,
        Action::CreateWorker => "Create a new virtual machine"@,
        Action::DeleteWorker => "Delete a virtual machine"@,
        Action::GetWorker => "Get information about a virtual machine"@,
        Action::HasWorker => "Check if a virtual machine exists"@,
        Action::StartWorker => "Start a virtual machine"@,
        Action::GetVolumes => "List all virtual disk volumes"@,
        Action::HasVolume => "Check if a disk volume exists"@,
        Action::CreateVolume => "Create a new disk volume"@,
        Action::DeleteVolume => "Delete a disk volume"@,
        Action::AttachVolume => "Create a storage controller and attach a disk to a VM"@,
        Action::DetachVolume => "Detach a disk from a VM"@,
        Action::CreateSnapshot => "Create a snapshot of a VM"@,
        Action::DeleteSnapshot => "Delete a snapshot of a VM"@,
        Action::HasSnapshot => "Check if a snapshot exists"@,
        Action::RebootWorker => "Reboot a VM"@,
        Action::ConfigureNetworks => "Configure network settings for a VM"@,
        Action::SetWorkerMetadata => "Set metadata for a VM"@,
        Action::SnapshotVolume => "Clone a disk volume"@,
    }
}

impl Action {
    /// The name under which the action is dispatched.
    pub fn name(&self) -> (r: &'static str)
        ensures
            r@ == action_name(*self),
    {
        match self {
            Action::TestInstall => "test_install",
            Action::ListWorkers => "list_workers",
            Action::CreateWorker => "create_worker",
            Action::DeleteWorker => "delete_worker",
            Action::GetWorker => "get_worker",
            Action::HasWorker => "has_worker",
            Action::StartWorker => "start_worker",
            Action::GetVolumes => "get_volumes",
            Action::HasVolume => "has_volume",
            Action::CreateVolume => "create_volume",
            Action::DeleteVolume => "delete_volume",
            Action::AttachVolume => "attach_volume",
            Action::DetachVolume => "detach_volume",
            Action::CreateSnapshot => "create_snapshot",
            Action::DeleteSnapshot => "delete_snapshot",
            Action::HasSnapshot => "has_snapshot",
            Action::RebootWorker => "reboot_worker",
            Action::ConfigureNetworks => "configure_networks",
            Action::SetWorkerMetadata => "set_worker_metadata",
            Action::SnapshotVolume => "snapshot_volume",
        }
    }

    /// What the action does, in a sentence.
    pub fn description(&self) -> (r: &'static str)
        ensures
            r@ == action_description(*self),
    {
        match self {
            Action::TestInstall => "Test if VirtualBox is properly installed",
            Action::ListWorkers => "List all virtual machines",
            Action::CreateWorker => "Create a new virtual machine",
            Action::DeleteWorker => "Delete a virtual machine",
            Action::GetWorker => "Get information about a virtual machine",
            Action::HasWorker => "Check if a virtual machine exists",
            Action::StartWorker => "Start a virtual machine",
            Action::GetVolumes => "List all virtual disk volumes",
            Action::HasVolume => "Check if a disk volume exists",
            Action::CreateVolume => "Create a new disk volume",
            Action::DeleteVolume => "Delete a disk volume",
            Action::AttachVolume => "Create a storage controller and attach a disk to a VM",
            Action::DetachVolume => "Detach a disk from a VM",
            Action::CreateSnapshot => "Create a snapshot of a VM",
            Action::DeleteSnapshot => "Delete a snapshot of a VM",
            Action::HasSnapshot => "Check if a snapshot exists",
            Action::RebootWorker => "Reboot a VM",
            Action::ConfigureNetworks => "Configure network settings for a VM",
            Action::SetWorkerMetadata => "Set metadata for a VM",
            Action::SnapshotVolume => "Clone a disk volume",
        }
    }

    /// The action of a given name, if there is one.
    pub fn from_name(name: &str) -> (r: Option<Action>)
        ensures
            r == action_named(name@),
    {
        let all = action_list();
        let mut i: usize = 0;
        while i < all.len()
            invariant
                i <= all.len(),
                all@ == all_actions(),
                action_named(name@) == action_named_from(name@, i as int),
            decreases all.len() - i,
        {
            if text_eq(name, all[i].name()) {
                return Some(all[i]);
            }
            i = i + 1;
        }
        None
    }

    /// The parameters that the action declares, in order.
    pub fn parameters(&self) -> (r: Vec<ParameterSpec>)
        ensures
            shapes(r@) == schema(*self),
            forall|i: int| 0 <= i < r@.len() ==> (#[trigger] r@[i]).wf(),
    {
        let mut v: Vec<ParameterSpec> = Vec::new();
        match self {
            Action::TestInstall | Action::ListWorkers | Action::GetVolumes => {},
            Action::CreateWorker => {
                declare(&mut v, required("worker_name", "Name of the VM to create", ParamType::Text));
                declare(&mut v, optional_text("os_type", "Operating system type", "Ubuntu_64"));
                declare(&mut v, optional_int("memory_mb", "Memory in MB", 2048));
                declare(&mut v, optional_int("cpu_count", "Number of CPUs", 2));
            },
            Action::DeleteWorker => {
                declare(&mut v, required("worker_name", "Name of the VM to delete", ParamType::Text));
            },
            Action::GetWorker | Action::HasWorker | Action::RebootWorker => {
                declare(&mut v, required("worker_name", "Name of the VM", ParamType::Text));
            },
            Action::StartWorker => {
                declare(&mut v, required("worker_name", "Name of the VM to start", ParamType::Text));
            },
            Action::HasVolume | Action::DeleteVolume => {
                declare(&mut v, required("disk_path", "Path to the disk", ParamType::Text));
            },
            Action::CreateVolume => {
                declare(&mut v, required("disk_path", "Path for the new disk", ParamType::Text));
                declare(&mut v, required("size_mb", "Size in MB", ParamType::Integer));
            },
            Action::AttachVolume | Action::DetachVolume => {
                declare(&mut v, required("worker_name", "Name of the VM", ParamType::Text));
                declare(
                    &mut v,
                    optional_text(
                        "controller_name",
                        "Name of the storage controller",
                        "SATA Controller",
                    ),
                );
                declare(&mut v, required("port", "Port number", ParamType::Integer));
                if let Action::AttachVolume = self {
                    declare(&mut v, required("disk_path", "Path to the disk", ParamType::Text));
                }
            },
            Action::CreateSnapshot | Action::DeleteSnapshot | Action::HasSnapshot => {
                declare(&mut v, required("worker_name", "Name of the VM", ParamType::Text));
                declare(&mut v, required("snapshot_name", "Name of the snapshot", ParamType::Text));
            },
            Action::ConfigureNetworks => {
                declare(&mut v, required("worker_name", "Name of the VM", ParamType::Text));
                declare(
                    &mut v,
                    required("network_index", "Network adapter index", ParamType::Integer),
                );
                declare(&mut v, optional_text("network_type", "Network type", "nat"));
            },
            Action::SetWorkerMetadata => {
                declare(&mut v, required("worker_name", "Name of the VM", ParamType::Text));
                declare(&mut v, required("key", "Metadata key", ParamType::Text));
                declare(&mut v, required("value", "Metadata value", ParamType::Text));
            },
            Action::SnapshotVolume => {
                declare(
                    &mut v,
                    required("source_volume_path", "Path to the source disk", ParamType::Text),
                );
                declare(
                    &mut v,
                    required("target_volume_path", "Path for the cloned disk", ParamType::Text),
                );
            },
        }
        assert(shapes(v@) =~= schema(*self));
        v
    }
}

/// Every action, in the declared order.
pub fn action_list() -> (r: Vec<Action>)
    ensures
        r@ == all_actions(),
{
    let mut v: Vec<Action> = Vec::new();
    v.push(Action::TestInstall);
    v.push(Action::ListWorkers);
    v.push(Action::CreateWorker);
    v.push(Action::DeleteWorker);
    v.push(Action::GetWorker);
    v.push(Action::HasWorker);
    v.push(Action::StartWorker);
    v.push(Action::GetVolumes);
    v.push(Action::HasVolume);
    v.push(Action::CreateVolume);
    v.push(Action::DeleteVolume);
    v.push(Action::AttachVolume);
    v.push(Action::DetachVolume);
    v.push(Action::CreateSnapshot);
    v.push(Action::DeleteSnapshot);
    v.push(Action::HasSnapshot);
    v.push(Action::RebootWorker);
    v.push(Action::ConfigureNetworks);
    v.push(Action::SetWorkerMetadata);
    v.push(Action::SnapshotVolume);
    assert(v@ =~= all_actions());
    v
}

fn declare(v: &mut Vec<ParameterSpec>, p: ParameterSpec)
    requires
        p.wf(),
        forall|i: int| 0 <= i < old(v)@.len() ==> (#[trigger] old(v)@[i]).wf(),
    ensures
        final(v)@ == old(v)@.push(p),
        forall|i: int| 0 <= i < final(v)@.len() ==> (#[trigger] final(v)@[i]).wf(),
{
    v.push(p);
}

fn required(name: &str, description: &str, t: ParamType) -> (r: ParameterSpec)
    ensures
        r@ == (ParamShape { name: name@, param_type: t, default_value: None }),
        r.wf(),
{
    ParameterSpec {
        name: String::from_str(name),
        description: String::from_str(description),
        param_type: t,
        required: true,
        default_value: None,
    }
}

fn optional_text(name: &str, description: &str, d: &str) -> (r: ParameterSpec)
    ensures
        r@ == text_opt(name@, d@),
        r.wf(),
{
    ParameterSpec {
        name: String::from_str(name),
        description: String::from_str(description),
        param_type: ParamType::Text,
        required: false,
        default_value: Some(ArgValue::Text(String::from_str(d))),
    }
}

fn optional_int(name: &str, description: &str, d: i64) -> (r: ParameterSpec)
    ensures
        r@ == int_opt(name@, d as int),
        r.wf(),
{
    ParameterSpec {
        name: String::from_str(name),
        description: String::from_str(description),
        param_type: ParamType::Integer,
        required: false,
        default_value: Some(ArgValue::Integer(d)),
    }
}

/// The declaration of an action: its name, what it does, and its parameters.
#[derive(Clone, Debug)]
pub struct ActionDefinition {
    pub name: String,
    pub description: String,
    pub parameters: Vec<ParameterSpec>,
}

/// The names of all actions, in the declared order.
pub fn list_actions() -> (r: Vec<String>)
    ensures
        views(r@) == all_actions().map_values(|a: Action| action_name(a)),
{
    let all = action_list();
    let mut out: Vec<String> = Vec::new();
    let mut i: usize = 0;
    while i < all.len()
        invariant
            i <= all.len(),
            all@ == all_actions(),
            views(out@) == all_actions().take(i as int).map_values(|a: Action| action_name(a)),
        decreases all.len() - i,
    {
        let ghost before = out@;
        out.push(String::from_str(all[i].name()));
        assert(views(out@) =~= views(before).push(action_name(all@[i as int])));
        assert(all_actions().take(i as int + 1).map_values(|a: Action| action_name(a))
            =~= all_actions().take(i as int).map_values(|a: Action| action_name(a)).push(
            action_name(all@[i as int]),
        ));
        i = i + 1;
    }
    assert(all_actions().take(20) =~= all_actions());
    out
}

/// The declaration of the action named `name`, if there is one.
pub fn get_action_definition(name: &str) -> (r: Option<ActionDefinition>)
    ensures
        match action_named(name@) {
            Some(a) => r is Some && r->Some_0.name@ == name@ && r->Some_0.description@
                == action_description(a) && shapes(r->Some_0.parameters@) == schema(a)
                && forall|i: int|
                0 <= i < r->Some_0.parameters@.len() ==> (
                #[trigger] r->Some_0.parameters@[i]).wf(),
            None => r is None,
        },
{
    match Action::from_name(name) {
        Some(a) => {
            proof {
                lemma_action_named(name@, 0);
            }
            Some(
                ActionDefinition {
                    name: String::from_str(a.name()),
                    description: String::from_str(a.description()),
                    parameters: a.parameters(),
                },
            )
        },
        None => None,
    }
}

pub proof fn lemma_action_named(name: Seq<char>, i: int)
    requires
        0 <= i,
    ensures
        match action_named_from(name, i) {
            Some(a) => action_name(a) == name,
            None => forall|k: int| i <= k < all_actions().len() ==> action_name(all_actions()[k]) != name,
        },
    decreases all_actions().len() - i,
{
    if i < all_actions().len() && action_name(all_actions()[i]) != name {
        lemma_action_named(name, i + 1);
    }
}

/// A validated request: an action and one value of the declared type per
/// declared parameter, in declaration order.
#[derive(Clone, Debug)]
pub struct ActionRequest {
    pub action: Action,
    pub args: Vec<ArgValue>,
}

impl ActionRequest {
    pub open spec fn wf(&self) -> bool {
        args_fit(arg_views(self.args@), schema(self.action))
    }
}

proof fn lemma_schema_defaults(a: Action)
    ensures
        defaults_typed(schema(a)),
{
}

/// Looks up the action named `action` and validates `params` against its
/// declaration.
pub fn prepare_request(action: &str, params: &Vec<(String, ParamValue)>) -> (r: Result<
    ActionRequest,
    String,
>)
    ensures
        match action_named(action@) {
            None => r is Err && r->Err_0@ == not_found_message(action@),
            Some(a) => match validated(schema(a), params@) {
                Ok(args) => r is Ok && r->Ok_0.action == a && arg_views(r->Ok_0.args@) == args
                    && r->Ok_0.wf(),
                Err(e) => r is Err && r->Err_0@ == e,
            },
        },
{
    match Action::from_name(action) {
        None => Err(String::from_str("Action '").concat(action).concat("' not found")),
        Some(a) => {
            let decl = a.parameters();
            match validate_params(&decl, params) {
                Ok(args) => {
                    proof {
                        lemma_schema_defaults(a);
                        lemma_validated_fits(schema(a), params@);
                    }
                    Ok(ActionRequest { action: a, args })
                },
                Err(e) => Err(e),
            }
        },
    }
}

pub open spec fn text_of(a: ArgView) -> Seq<char> {
    match a {
        ArgView::Text(s) => s,
        _ => seq![],
    }
}

pub open spec fn int_of(a: ArgView) -> int {
    match a {
        ArgView::Integer(n) => n,
        _ => 0,
    }
}

impl ActionRequest {
    /// The text of argument `i`.
    pub open spec fn text(&self, i: int) -> Seq<char> {
        text_of(self.args@[i]@)
    }

    /// The decimal form of integer argument `i`.
    pub open spec fn number(&self, i: int) -> Seq<char> {
        decimal(int_of(self.args@[i]@))
    }

    fn text_at(&self, i: usize) -> (r: &str)
        requires
            i < self.args@.len(),
        ensures
            r@ == self.text(i as int),
    {
        match &self.args[i] {
            ArgValue::Text(s) => s.as_str(),
            _ => {
                proof {
                    reveal_strlit("");
                }
                assert(""@ =~= Seq::<char>::empty());
                ""
            },
        }
    }

    fn number_at(&self, i: usize) -> (r: String)
        requires
            i < self.args@.len(),
        ensures
            r@ == self.number(i as int),
    {
        match &self.args[i] {
            ArgValue::Integer(n) => int_text(*n),
            _ => int_text(0),
        }
    }
}

/// The argument vectors of the commands that a request issues, in order.
pub open spec fn command_lines(r: ActionRequest) -> Seq<Seq<Seq<char>>> {
    let w = r.text(0);
    match r.action {
        Action::TestInstall => seq![seq!["--version"@]],
        Action::ListWorkers => seq![seq!["list"@, "vms"@]],
        Action::CreateWorker => seq![
            seq!["createvm"@, "--name"@, w, "--ostype"@, r.text(1), "--register"@],
            seq!["modifyvm"@, w, "--memory"@, r.number(2), "--cpus"@, r.number(3)],
            seq!["modifyvm"@, w, "--nic1"@, "nat"@],
        ],
        Action::DeleteWorker => seq![seq!["unregistervm"@, w, "--delete"@]],
        Action::GetWorker | Action::HasWorker => seq![seq!["showvminfo"@, w, "--machinereadable"@]],
        Action::StartWorker => seq![seq!["startvm"@, w, "--type"@, "headless"@]],
        Action::GetVolumes => seq![seq!["list"@, "hdds"@]],
        Action::HasVolume => seq![seq!["showmediuminfo"@, "disk"@, w]],
        Action::CreateVolume => seq![
            seq![
                "createmedium"@,
                "disk"@,
                "--filename"@,
                w,
                "--size"@,
                r.number(1),
                "--format"@,
                "VDI"@,
            ],
        ],
        Action::DeleteVolume => seq![seq!["closemedium"@, "disk"@, w, "--delete"@]],
        Action::AttachVolume => seq![
            seq![
                "storagectl"@,
                w,
                "--name"@,
                r.text(1),
                "--add"@,
                "sata"@,
                "--controller"@,
                "IntelAhci"@,
                "--portcount"@,
                "30"@,
            ],
            seq![
                "storageattach"@,
                w,
                "--storagectl"@,
                r.text(1),
                "--port"@,
                r.number(2),
                "--device"@,
                "0"@,
                "--type"@,
                "dvddrive"@,
                "--medium"@,
                r.text(3),
            ],
        ],
        Action::DetachVolume => seq![
            seq![
                "storageattach"@,
                w,
                "--storagectl"@,
                r.text(1),
                "--port"@,
                r.number(2),
                "--device"@,
                "0"@,
                "--type"@,
                "hdd"@,
                "--medium"@,
                "none"@,
            ],
        ],
        Action::CreateSnapshot => seq![seq!["snapshot"@, w, "take"@, r.text(1)]],
        Action::DeleteSnapshot => seq![seq!["snapshot"@, w, "delete"@, r.text(1)]],
        Action::HasSnapshot => seq![seq!["snapshot"@, w, "list"@, "--machinereadable"@]],
        Action::RebootWorker => seq![seq!["controlvm"@, w, "reset"@]],
        Action::ConfigureNetworks => seq![seq!["modifyvm"@, w, "--nic"@ + r.number(1), r.text(2)]],
        Action::SetWorkerMetadata => seq![seq!["setextradata"@, w, r.text(1), r.text(2)]],
        Action::SnapshotVolume => seq![seq!["clonemedium"@, "disk"@, w, r.text(1)]],
    }
}

pub open spec fn command_views(v: Seq<Vec<String>>) -> Seq<Seq<Seq<char>>> {
    v.map_values(|c: Vec<String>| views(c@))
}

fn word(c: &mut Vec<String>, s: &str)
    ensures
        views(final(c)@) == views(old(c)@).push(s@),
{
    c.push(String::from_str(s));
    assert(views(final(c)@) =~= views(old(c)@).push(s@));
}

fn word_owned(c: &mut Vec<String>, s: String)
    ensures
        views(final(c)@) == views(old(c)@).push(s@),
{
    c.push(s);
    assert(views(final(c)@) =~= views(old(c)@).push(s@));
}

fn issue(out: &mut Vec<Vec<String>>, c: Vec<String>)
    ensures
        command_views(final(out)@) == command_views(old(out)@).push(views(c@)),
{
    out.push(c);
    assert(command_views(final(out)@) =~= command_views(old(out)@).push(views(c@)));
}

impl ActionRequest {
    /// The argument vectors of the commands that the request issues, in order.
    pub fn commands(&self) -> (r: Vec<Vec<String>>)
        requires
            self.wf(),
        ensures
            command_views(r@) == command_lines(*self),
    {
        let mut out: Vec<Vec<String>> = Vec::new();
        let mut c: Vec<String> = Vec::new();
        assert(arg_views(self.args@).len() == self.args@.len());
        match self.action {
            Action::TestInstall => {
                word(&mut c, "--version");
                issue(&mut out, c);
            },
            Action::ListWorkers => {
                word(&mut c, "list");
                word(&mut c, "vms");
                issue(&mut out, c);
            },
            Action::CreateWorker => {
                let w = self.text_at(0);
                word(&mut c, "createvm");
                word(&mut c, "--name");
                word(&mut c, w);
                word(&mut c, "--ostype");
                word(&mut c, self.text_at(1));
                word(&mut c, "--register");
                issue(&mut out, c);
                let mut c2: Vec<String> = Vec::new();
                word(&mut c2, "modifyvm");
                word(&mut c2, w);
                word(&mut c2, "--memory");
                word_owned(&mut c2, self.number_at(2));
                word(&mut c2, "--cpus");
                word_owned(&mut c2, self.number_at(3));
                issue(&mut out, c2);
                let mut c3: Vec<String> = Vec::new();
                word(&mut c3, "modifyvm");
                word(&mut c3, w);
                word(&mut c3, "--nic1");
                word(&mut c3, "nat");
                issue(&mut out, c3);
            },
            Action::DeleteWorker => {
                word(&mut c, "unregistervm");
                word(&mut c, self.text_at(0));
                word(&mut c, "--delete");
                issue(&mut out, c);
            },
            Action::GetWorker | Action::HasWorker => {
                word(&mut c, "showvminfo");
                word(&mut c, self.text_at(0));
                word(&mut c, "--machinereadable");
                issue(&mut out, c);
            },
            Action::StartWorker => {
                word(&mut c, "startvm");
                word(&mut c, self.text_at(0));
                word(&mut c, "--type");
                word(&mut c, "headless");
                issue(&mut out, c);
            },
            Action::GetVolumes => {
                word(&mut c, "list");
                word(&mut c, "hdds");
                issue(&mut out, c);
            },
            Action::HasVolume => {
                word(&mut c, "showmediuminfo");
                word(&mut c, "disk");
                word(&mut c, self.text_at(0));
                issue(&mut out, c);
            },
            Action::CreateVolume => {
                word(&mut c, "createmedium");
                word(&mut c, "disk");
                word(&mut c, "--filename");
                word(&mut c, self.text_at(0));
                word(&mut c, "--size");
                word_owned(&mut c, self.number_at(1));
                word(&mut c, "--format");
                word(&mut c, "VDI");
                issue(&mut out, c);
            },
            Action::DeleteVolume => {
                word(&mut c, "closemedium");
                word(&mut c, "disk");
                word(&mut c, self.text_at(0));
                word(&mut c, "--delete");
                issue(&mut out, c);
            },
            Action::AttachVolume => {
                let w = self.text_at(0);
                let ctl = self.text_at(1);
                word(&mut c, "storagectl");
                word(&mut c, w);
                word(&mut c, "--name");
                word(&mut c, ctl);
                word(&mut c, "--add");
                word(&mut c, "sata");
                word(&mut c, "--controller");
                word(&mut c, "IntelAhci");
                word(&mut c, "--portcount");
                word(&mut c, "30");
                issue(&mut out, c);
                let mut c2: Vec<String> = Vec::new();
                word(&mut c2, "storageattach");
                word(&mut c2, w);
                word(&mut c2, "--storagectl");
                word(&mut c2, ctl);
                word(&mut c2, "--port");
                word_owned(&mut c2, self.number_at(2));
                word(&mut c2, "--device");
                word(&mut c2, "0");
                word(&mut c2, "--type");
                word(&mut c2, "dvddrive");
                word(&mut c2, "--medium");
                word(&mut c2, self.text_at(3));
                issue(&mut out, c2);
            },
            Action::DetachVolume => {
                word(&mut c, "storageattach");
                word(&mut c, self.text_at(0));
                word(&mut c, "--storagectl");
                word(&mut c, self.text_at(1));
                word(&mut c, "--port");
                word_owned(&mut c, self.number_at(2));
                word(&mut c, "--device");
                word(&mut c, "0");
                word(&mut c, "--type");
                word(&mut c, "hdd");
                word(&mut c, "--medium");
                word(&mut c, "none");
                issue(&mut out, c);
            },
            Action::CreateSnapshot => {
                word(&mut c, "snapshot");
                word(&mut c, self.text_at(0));
                word(&mut c, "take");
                word(&mut c, self.text_at(1));
                issue(&mut out, c);
            },
            Action::DeleteSnapshot => {
                word(&mut c, "snapshot");
                word(&mut c, self.text_at(0));
                word(&mut c, "delete");
                word(&mut c, self.text_at(1));
                issue(&mut out, c);
            },
            Action::HasSnapshot => {
                word(&mut c, "snapshot");
                word(&mut c, self.text_at(0));
                word(&mut c, "list");
                word(&mut c, "--machinereadable");
                issue(&mut out, c);
            },
            Action::RebootWorker => {
                word(&mut c, "controlvm");
                word(&mut c, self.text_at(0));
                word(&mut c, "reset");
                issue(&mut out, c);
            },
            Action::ConfigureNetworks => {
                word(&mut c, "modifyvm");
                word(&mut c, self.text_at(0));
                word_owned(&mut c, String::from_str("--nic").concat(self.number_at(1).as_str()));
                word(&mut c, self.text_at(2));
                issue(&mut out, c);
            },
            Action::SetWorkerMetadata => {
                word(&mut c, "setextradata");
                word(&mut c, self.text_at(0));
                word(&mut c, self.text_at(1));
                word(&mut c, self.text_at(2));
                issue(&mut out, c);
            },
            Action::SnapshotVolume => {
                word(&mut c, "clonemedium");
                word(&mut c, "disk");
                word(&mut c, self.text_at(0));
                word(&mut c, self.text_at(1));
                issue(&mut out, c);
            },
        }
        assert(command_views(out@) =~~= command_lines(*self));
        out
    }
}

/// How one command ended: it printed its standard output and exited with
/// status 0, it exited otherwise with its standard error, or it could not be
/// started at all.
#[derive(Clone, Debug)]
pub enum CommandOutcome {
    Succeeded(String),
    Failed(String),
    NotStarted(String),
}

/// What a command printed on success; nothing otherwise.
pub open spec fn stdout_of(o: CommandOutcome) -> Seq<char> {
    match o {
        CommandOutcome::Succeeded(s) => s@,
        _ => seq![],
    }
}

/// The error that a failed command gives.
pub open spec fn runner_error(o: CommandOutcome) -> Seq<char> {
    match o {
        CommandOutcome::Succeeded(_) => seq![],
        CommandOutcome::Failed(e) => "VBoxManage command failed: "@ + e@,
        CommandOutcome::NotStarted(e) => "Failed to execute VBoxManage command: "@ + e@,
    }
}

/// Whether the failure of command `i` of an action leaves the action going:
/// the controller creation of `attach_volume`, which may exist already, and
/// the queries of the existence probes, whose failure is their answer.
pub open spec fn failure_tolerated(a: Action, i: int) -> bool {
    i == 0 && (a == Action::AttachVolume || a == Action::HasWorker || a == Action::HasVolume)
}

/// What to do next in carrying out a request.
#[derive(Debug)]
pub enum Step {
    /// Run the tool with these arguments and report how it ended.
    Run(Vec<String>),
    /// Stop: the action failed with this message.
    Fail(String),
    /// All commands ran; read the result with `finish`.
    Done,
}

/// The step after the outcomes so far: fail on a failure that is not
/// tolerated, else run the next command, else done.
pub open spec fn step_spec(r: ActionRequest, outs: Seq<CommandOutcome>, s: Step) -> bool {
    let n = outs.len();
    if n > 0 && !(outs[n - 1] is Succeeded) && !failure_tolerated(r.action, n - 1) {
        s is Fail && s->Fail_0@ == runner_error(outs[n - 1])
    } else if n < command_lines(r).len() {
        s is Run && views(s->Run_0@) == command_lines(r)[n as int]
    } else {
        s is Done
    }
}

fn tolerated(a: Action, i: usize) -> (r: bool)
    ensures
        r == failure_tolerated(a, i as int),
{
    i == 0 && match a {
        Action::AttachVolume | Action::HasWorker | Action::HasVolume => true,
        _ => false,
    }
}

fn error_of(o: &CommandOutcome) -> (r: String)
    ensures
        r@ == runner_error(*o),
{
    match o {
        CommandOutcome::Succeeded(_) => String::new(),
        CommandOutcome::Failed(e) => String::from_str("VBoxManage command failed: ").concat(
            e.as_str(),
        ),
        CommandOutcome::NotStarted(e) => String::from_str(
            "Failed to execute VBoxManage command: ",
        ).concat(e.as_str()),
    }
}

/// The result of an action.
#[derive(Debug)]
pub enum ActionOutput {
    /// The version of the tool.
    Version(String),
    /// The machines of the terse listing.
    Workers(Vec<ListedWorker>),
    /// A machine was created.
    WorkerCreated { uuid: String, name: String },
    /// The description of one machine.
    Worker(WorkerInfo),
    /// The answer of an existence probe.
    Exists(bool),
    /// A machine was started.
    Started(String),
    /// The virtual disks.
    Volumes(Vec<VolumeRecord>),
    /// A disk was created.
    VolumeCreated { uuid: String, path: String },
    /// The identifier of a new snapshot or clone.
    Identifier(String),
    /// The action succeeded and reports nothing more.
    Completed,
}

pub open spec fn or_empty(o: Option<Seq<char>>) -> Seq<char> {
    match o {
        Some(s) => s,
        None => seq![],
    }
}

/// The result of a request whose commands all ran, read from what the first
/// command printed.
pub open spec fn output_spec(r: ActionRequest, first: CommandOutcome, out: ActionOutput) -> bool {
    let text = stdout_of(first);
    match r.action {
        Action::TestInstall => out is Version && out->Version_0@ == version_text(text),
        Action::ListWorkers => out is Workers && worker_views(out->Workers_0@) == listed_workers(
            lines(text),
        ),
        Action::CreateWorker => out is WorkerCreated && out->WorkerCreated_uuid@ == or_empty(
            first_labeled(lines(text), "UUID"@),
        ) && out->WorkerCreated_name@ == r.text(0),
        Action::GetWorker => out is Worker && out->Worker_0@ == worker_info(lines(text)),
        Action::HasWorker | Action::HasVolume => out == ActionOutput::Exists(first is Succeeded),
        Action::StartWorker => out is Started && out->Started_0@ == r.text(0),
        Action::GetVolumes => out is Volumes && volume_views(out->Volumes_0@) == volumes(
            blocks(text),
        ),
        Action::CreateVolume => out is VolumeCreated && (
        out->VolumeCreated_uuid@,
        out->VolumeCreated_path@,
        ) == created_medium(lines(text)),
        Action::CreateSnapshot => out is Identifier && out->Identifier_0@ == or_empty(
            snapshot_id(lines(text)),
        ),
        Action::HasSnapshot => out == ActionOutput::Exists(mentions(lines(text), r.text(1))),
        Action::SnapshotVolume => out is Identifier && out->Identifier_0@ == or_empty(
            first_labeled(lines(text), "UUID:"@),
        ),
        Action::DeleteWorker | Action::DeleteVolume | Action::AttachVolume | Action::DetachVolume
        | Action::DeleteSnapshot | Action::RebootWorker | Action::ConfigureNetworks
        | Action::SetWorkerMetadata => out is Completed,
    }
}

fn or_empty_string(o: Option<String>) -> (r: String)
    ensures
        r@ == or_empty(opt_view(o)),
{
    match o {
        Some(s) => s,
        None => String::new(),
    }
}

impl ActionRequest {
    /// What to do next, given the outcomes of the commands run so far.
    pub fn next_step(&self, outcomes: &Vec<CommandOutcome>) -> (r: Step)
        requires
            self.wf(),
        ensures
            step_spec(*self, outcomes@, r),
    {
        let n = outcomes.len();
        if n > 0 {
            let last = &outcomes[n - 1];
            let failed = match last {
                CommandOutcome::Succeeded(_) => false,
                _ => true,
            };
            if failed && !tolerated(self.action, n - 1) {
                return Step::Fail(error_of(last));
            }
        }
        let cmds = self.commands();
        if n < cmds.len() {
            let mut c: Vec<String> = Vec::new();
            let line = &cmds[n];
            let mut k: usize = 0;
            while k < line.len()
                invariant
                    k <= line.len(),
                    views(c@) == views(line@).take(k as int),
                decreases line.len() - k,
            {
                word_owned(&mut c, line[k].clone());
                assert(views(line@).take(k as int + 1) =~= views(line@).take(k as int).push(
                    line@[k as int]@,
                ));
                k = k + 1;
            }
            assert(views(line@).take(line.len() as int) =~= views(line@));
            assert(command_views(cmds@)[n as int] == views(line@));
            Step::Run(c)
        } else {
            Step::Done
        }
    }

    /// The result of the request, once its commands have run; `first` is how
    /// the first of them ended.
    pub fn finish(&self, first: &CommandOutcome) -> (r: ActionOutput)
        requires
            self.wf(),
        ensures
            output_spec(*self, *first, r),
    {
        let text = match first {
            CommandOutcome::Succeeded(s) => s.as_str(),
            _ => {
                proof {
                    reveal_strlit("");
                }
                assert(""@ =~= Seq::<char>::empty());
                ""
            },
        };
        assert(arg_views(self.args@).len() == self.args@.len());
        match self.action {
            Action::TestInstall => ActionOutput::Version(parse_version(text)),
            Action::ListWorkers => ActionOutput::Workers(parse_worker_listing(text)),
            Action::CreateWorker => ActionOutput::WorkerCreated {
                uuid: or_empty_string(labeled_value(text, "UUID")),
                name: String::from_str(self.text_at(0)),
            },
            Action::GetWorker => ActionOutput::Worker(parse_worker_info(text)),
            Action::HasWorker | Action::HasVolume => ActionOutput::Exists(
                match first {
                    CommandOutcome::Succeeded(_) => true,
                    _ => false,
                },
            ),
            Action::StartWorker => ActionOutput::Started(String::from_str(self.text_at(0))),
            Action::GetVolumes => ActionOutput::Volumes(parse_volumes(text)),
            Action::CreateVolume => {
                let (uuid, path) = parse_created_medium(text);
                ActionOutput::VolumeCreated { uuid, path }
            },
            Action::CreateSnapshot => ActionOutput::Identifier(
                or_empty_string(parse_snapshot_taken(text)),
            ),
            Action::HasSnapshot => ActionOutput::Exists(listing_mentions(text, self.text_at(1))),
            Action::SnapshotVolume => ActionOutput::Identifier(
                or_empty_string(labeled_value(text, "UUID:")),
            ),
            Action::DeleteWorker | Action::DeleteVolume | Action::AttachVolume
            | Action::DetachVolume | Action::DeleteSnapshot | Action::RebootWorker
            | Action::ConfigureNetworks | Action::SetWorkerMetadata => ActionOutput::Completed,
        }
    }
}

} // verus!
