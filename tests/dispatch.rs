use cpi_virtualbox::actions::{
    get_action_definition, list_actions, prepare_request, Action, ActionOutput, ActionRequest,
    CommandOutcome, Step,
};
use cpi_virtualbox::params::{
    extract_int, extract_string, extract_string_opt, validate_params, ArgValue, ParamType,
    ParamValue, ParameterSpec,
};
use cpi_virtualbox::{tool_name, VirtualBoxExtension};

fn params(entries: &[(&str, ParamValue)]) -> Vec<(String, ParamValue)> {
    entries.iter().map(|(k, v)| (k.to_string(), v.clone())).collect()
}

fn text(s: &str) -> ParamValue {
    ParamValue::Text(s.to_string())
}

fn strings(v: &[&str]) -> Vec<String> {
    v.iter().map(|s| s.to_string()).collect()
}

fn run_step(req: &ActionRequest, outcomes: &Vec<CommandOutcome>) -> Step {
    req.next_step(outcomes)
}

fn expect_run(step: Step) -> Vec<String> {
    match step {
        Step::Run(args) => args,
        other => panic!("expected a command, got {:?}", other),
    }
}

#[test]
fn extension_has_fixed_identity_and_defaults() {
    let ext = VirtualBoxExtension::new();
    assert_eq!(ext.name(), "virtualbox");
    assert_eq!(ext.provider_type(), "command");
    assert_eq!(ext.default_settings.os_type, "Ubuntu_64");
    assert_eq!(ext.default_settings.memory_mb, 2048);
    assert_eq!(ext.default_settings.cpu_count, 2);
    assert_eq!(ext.default_settings.controller_name, "SATA Controller");
    assert_eq!(ext.default_settings.network_type, "nat");
}

#[test]
fn tool_name_depends_on_platform() {
    assert_eq!(tool_name(true), "VBoxManage.exe");
    assert_eq!(tool_name(false), "VBoxManage");
}

#[test]
fn actions_are_listed_in_declared_order() {
    let names = list_actions();
    assert_eq!(names.len(), 20);
    assert_eq!(names[0], "test_install");
    assert_eq!(names[9], "create_volume");
    assert_eq!(names[19], "snapshot_volume");
    let ext = VirtualBoxExtension::new();
    assert_eq!(ext.list_actions(), names);
    for n in &names {
        let def = get_action_definition(n).expect("every listed action has a definition");
        assert_eq!(&def.name, n);
    }
}

#[test]
fn definition_of_create_worker_declares_defaults() {
    let def = get_action_definition("create_worker").unwrap();
    assert_eq!(def.description, "Create a new virtual machine");
    assert_eq!(def.parameters.len(), 4);
    assert_eq!(def.parameters[0].name, "worker_name");
    assert!(def.parameters[0].required);
    assert!(def.parameters[0].default_value.is_none());
    assert_eq!(def.parameters[2].name, "memory_mb");
    assert_eq!(def.parameters[2].param_type, ParamType::Integer);
    assert!(!def.parameters[2].required);
    assert!(matches!(def.parameters[2].default_value, Some(ArgValue::Integer(2048))));
    assert!(get_action_definition("launch_rocket").is_none());
}

#[test]
fn unknown_action_error_names_it() {
    let err = prepare_request("launch_rocket", &Vec::new()).unwrap_err();
    assert_eq!(err, "Action 'launch_rocket' not found");
    assert!(err.contains("launch_rocket"));
    let ext = VirtualBoxExtension::new();
    assert!(ext.prepare_action("", &Vec::new()).unwrap_err().contains("''"));
}

#[test]
fn required_string_missing_or_mistyped_fails() {
    let decl = vec![ParameterSpec {
        name: "worker_name".to_string(),
        description: "Name of the VM".to_string(),
        param_type: ParamType::Text,
        required: true,
        default_value: None,
    }];
    let err = validate_params(&decl, &Vec::new()).unwrap_err();
    assert_eq!(err, "Required parameter 'worker_name' not provided");
    let err2 = validate_params(&decl, &params(&[("worker_name", ParamValue::Integer(123))]))
        .unwrap_err();
    assert_eq!(err2, "Parameter 'worker_name' must be a string");
    let ok = validate_params(&decl, &params(&[("worker_name", text("vm1")), ("extra", ParamValue::Other)]))
        .unwrap();
    assert!(matches!(&ok[0], ArgValue::Text(s) if s == "vm1"));
}

#[test]
fn extractors_report_each_error() {
    let ps = params(&[("s", text("x")), ("n", ParamValue::Integer(7)), ("f", ParamValue::Other)]);
    assert_eq!(extract_string(&ps, "s").unwrap(), "x");
    assert_eq!(extract_string(&ps, "n").unwrap_err(), "Parameter 'n' must be a string");
    assert_eq!(extract_string(&ps, "zz").unwrap_err(), "Required parameter 'zz' not provided");
    assert_eq!(extract_string_opt(&ps, "zz").unwrap(), None);
    assert_eq!(extract_int(&ps, "n").unwrap(), 7);
    assert_eq!(extract_int(&ps, "f").unwrap_err(), "Parameter 'f' must be an integer");
    assert_eq!(extract_int(&ps, "s").unwrap_err(), "Parameter 's' must be an integer");
}

#[test]
fn validation_stops_at_first_failing_parameter() {
    let ps = params(&[("port", text("one"))]);
    let err = prepare_request("attach_volume", &ps).unwrap_err();
    assert_eq!(err, "Required parameter 'worker_name' not provided");
    let ps2 = params(&[("worker_name", text("vm1")), ("port", text("one"))]);
    let err2 = prepare_request("attach_volume", &ps2).unwrap_err();
    assert_eq!(err2, "Parameter 'port' must be an integer");
}

#[test]
fn create_volume_end_to_end() {
    let ps = params(&[("disk_path", text("/tmp/disk.vdi")), ("size_mb", ParamValue::Integer(10240))]);
    let req = prepare_request("create_volume", &ps).unwrap();
    assert_eq!(req.action, Action::CreateVolume);
    let mut outcomes = Vec::new();
    let args = expect_run(run_step(&req, &outcomes));
    assert_eq!(
        args,
        strings(&["createmedium", "disk", "--filename", "/tmp/disk.vdi", "--size", "10240", "--format", "VDI"])
    );
    outcomes.push(CommandOutcome::Succeeded(
        "0%...100%\nMedium created. UUID: abc-123\nLocation: /tmp/disk.vdi\n".to_string(),
    ));
    assert!(matches!(run_step(&req, &outcomes), Step::Done));
    match req.finish(&outcomes[0]) {
        ActionOutput::VolumeCreated { uuid, path } => {
            assert_eq!(uuid, "abc-123");
            assert_eq!(path, "/tmp/disk.vdi");
        }
        other => panic!("unexpected {:?}", other),
    }
}

#[test]
fn has_snapshot_matches_substring() {
    let ps = params(&[("worker_name", text("vm1")), ("snapshot_name", text("base"))]);
    let req = prepare_request("has_snapshot", &ps).unwrap();
    let args = expect_run(run_step(&req, &Vec::new()));
    assert_eq!(args, strings(&["snapshot", "vm1", "list", "--machinereadable"]));
    let outcomes = vec![CommandOutcome::Succeeded("SnapshotName=\"base-v2\"\n".to_string())];
    assert!(matches!(run_step(&req, &outcomes), Step::Done));
    assert!(matches!(req.finish(&outcomes[0]), ActionOutput::Exists(true)));
}

#[test]
fn has_snapshot_failure_is_an_error() {
    let ps = params(&[("worker_name", text("vm1")), ("snapshot_name", text("base"))]);
    let req = prepare_request("has_snapshot", &ps).unwrap();
    let outcomes = vec![CommandOutcome::Failed("no such vm".to_string())];
    match run_step(&req, &outcomes) {
        Step::Fail(e) => assert_eq!(e, "VBoxManage command failed: no such vm"),
        other => panic!("unexpected {:?}", other),
    }
}

#[test]
fn existence_probe_failure_means_absent() {
    for (action, key, value) in [("has_worker", "worker_name", "ghost"), ("has_volume", "disk_path", "/nope.vdi")] {
        let req = prepare_request(action, &params(&[(key, text(value))])).unwrap();
        let outcomes = vec![CommandOutcome::Failed("not found".to_string())];
        assert!(matches!(run_step(&req, &outcomes), Step::Done));
        assert!(matches!(req.finish(&outcomes[0]), ActionOutput::Exists(false)));
        let started = vec![CommandOutcome::NotStarted("missing binary".to_string())];
        assert!(matches!(run_step(&req, &started), Step::Done));
        assert!(matches!(req.finish(&started[0]), ActionOutput::Exists(false)));
        let found = vec![CommandOutcome::Succeeded(String::new())];
        assert!(matches!(req.finish(&found[0]), ActionOutput::Exists(true)));
    }
}

#[test]
fn create_worker_applies_defaults_and_runs_three_commands() {
    let req = prepare_request("create_worker", &params(&[("worker_name", text("vm1"))])).unwrap();
    let mut outcomes = Vec::new();
    let first = expect_run(run_step(&req, &outcomes));
    assert_eq!(first, strings(&["createvm", "--name", "vm1", "--ostype", "Ubuntu_64", "--register"]));
    outcomes.push(CommandOutcome::Succeeded(
        "Virtual machine 'vm1' is created and registered.\nUUID: 42-42\n".to_string(),
    ));
    let second = expect_run(run_step(&req, &outcomes));
    assert_eq!(second, strings(&["modifyvm", "vm1", "--memory", "2048", "--cpus", "2"]));
    outcomes.push(CommandOutcome::Succeeded(String::new()));
    let third = expect_run(run_step(&req, &outcomes));
    assert_eq!(third, strings(&["modifyvm", "vm1", "--nic1", "nat"]));
    outcomes.push(CommandOutcome::Succeeded(String::new()));
    assert!(matches!(run_step(&req, &outcomes), Step::Done));
    match req.finish(&outcomes[0]) {
        ActionOutput::WorkerCreated { uuid, name } => {
            assert_eq!(uuid, "42-42");
            assert_eq!(name, "vm1");
        }
        other => panic!("unexpected {:?}", other),
    }
}

#[test]
fn create_worker_aborts_on_failed_configuration() {
    let ps = params(&[("worker_name", text("vm1")), ("memory_mb", ParamValue::Integer(-1))]);
    let req = prepare_request("create_worker", &ps).unwrap();
    let mut outcomes = vec![CommandOutcome::Succeeded("UUID: 1\n".to_string())];
    let second = expect_run(run_step(&req, &outcomes));
    assert_eq!(second[3], "-1");
    outcomes.push(CommandOutcome::NotStarted("permission denied".to_string()));
    match run_step(&req, &outcomes) {
        Step::Fail(e) => assert_eq!(e, "Failed to execute VBoxManage command: permission denied"),
        other => panic!("unexpected {:?}", other),
    }
}

#[test]
fn attach_volume_ignores_controller_creation_failure() {
    let ps = params(&[
        ("worker_name", text("vm1")),
        ("port", ParamValue::Integer(1)),
        ("disk_path", text("/tmp/d.vdi")),
    ]);
    let req = prepare_request("attach_volume", &ps).unwrap();
    let first = expect_run(run_step(&req, &Vec::new()));
    assert_eq!(
        first,
        strings(&["storagectl", "vm1", "--name", "SATA Controller", "--add", "sata", "--controller", "IntelAhci", "--portcount", "30"])
    );
    let mut outcomes = vec![CommandOutcome::Failed("controller exists".to_string())];
    let second = expect_run(run_step(&req, &outcomes));
    assert_eq!(
        second,
        strings(&["storageattach", "vm1", "--storagectl", "SATA Controller", "--port", "1", "--device", "0", "--type", "dvddrive", "--medium", "/tmp/d.vdi"])
    );
    outcomes.push(CommandOutcome::Failed("busy".to_string()));
    assert!(matches!(run_step(&req, &outcomes), Step::Fail(_)));
    outcomes[1] = CommandOutcome::Succeeded(String::new());
    assert!(matches!(run_step(&req, &outcomes), Step::Done));
    assert!(matches!(req.finish(&outcomes[0]), ActionOutput::Completed));
}

#[test]
fn configure_networks_builds_nic_flag() {
    let ps = params(&[("worker_name", text("vm1")), ("network_index", ParamValue::Integer(2))]);
    let req = prepare_request("configure_networks", &ps).unwrap();
    let args = expect_run(run_step(&req, &Vec::new()));
    assert_eq!(args, strings(&["modifyvm", "vm1", "--nic2", "nat"]));
}

#[test]
fn list_and_info_actions_parse_output() {
    let req = prepare_request("list_workers", &Vec::new()).unwrap();
    assert_eq!(expect_run(run_step(&req, &Vec::new())), strings(&["list", "vms"]));
    let out = CommandOutcome::Succeeded("\"vm1\" {u1}\n".to_string());
    match req.finish(&out) {
        ActionOutput::Workers(ws) => {
            assert_eq!(ws.len(), 1);
            assert_eq!(ws[0].name, "vm1");
        }
        other => panic!("unexpected {:?}", other),
    }
    let req2 = prepare_request("get_worker", &params(&[("worker_name", text("vm1"))])).unwrap();
    assert_eq!(
        expect_run(run_step(&req2, &Vec::new())),
        strings(&["showvminfo", "vm1", "--machinereadable"])
    );
    match req2.finish(&CommandOutcome::Succeeded("memory=512\n".to_string())) {
        ActionOutput::Worker(info) => assert_eq!(info.memory_mb, Some(512)),
        other => panic!("unexpected {:?}", other),
    }
    let req3 = prepare_request("test_install", &Vec::new()).unwrap();
    assert_eq!(expect_run(run_step(&req3, &Vec::new())), strings(&["--version"]));
    match req3.finish(&CommandOutcome::Succeeded("7.0.14\n".to_string())) {
        ActionOutput::Version(v) => assert_eq!(v, "7.0.14"),
        other => panic!("unexpected {:?}", other),
    }
}

#[test]
fn snapshot_volume_reads_clone_uuid() {
    let ps = params(&[("source_volume_path", text("/a.vdi")), ("target_volume_path", text("/b.vdi"))]);
    let req = prepare_request("snapshot_volume", &ps).unwrap();
    assert_eq!(
        expect_run(run_step(&req, &Vec::new())),
        strings(&["clonemedium", "disk", "/a.vdi", "/b.vdi"])
    );
    match req.finish(&CommandOutcome::Succeeded("Clone medium created in format 'VDI'. UUID: c-1\n".to_string())) {
        ActionOutput::Identifier(u) => assert_eq!(u, "c-1"),
        other => panic!("unexpected {:?}", other),
    }
}

#[test]
fn definitions_mark_required_parameters_and_describe_actions() {
    let ext = VirtualBoxExtension::new();
    let def = ext.get_action_definition("create_worker").unwrap();
    assert_eq!(def.description, "Create a new virtual machine");
    let flags: Vec<(&str, bool)> = def.parameters.iter().map(|p| (p.name.as_str(), p.required)).collect();
    assert_eq!(flags, vec![("worker_name", true), ("os_type", false), ("memory_mb", false), ("cpu_count", false)]);
    assert!(matches!(&def.parameters[1].default_value, Some(ArgValue::Text(s)) if s == "Ubuntu_64"));
    for name in list_actions() {
        let d = ext.get_action_definition(&name).unwrap();
        for p in &d.parameters {
            assert_eq!(p.required, p.default_value.is_none());
        }
    }
    assert_eq!(Action::AttachVolume.description(), "Create a storage controller and attach a disk to a VM");
    assert_eq!(ext.get_action_definition("detach_volume").unwrap().description, "Detach a disk from a VM");
}
