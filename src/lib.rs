//! A provider of virtual-machine operations over the VirtualBox command-line
//! tool: a registry of named actions with typed parameter schemas, the
//! validation of untyped parameters against them, the command lines each
//! action issues, and parsers for what the tool prints.
//!
//! The library runs no process itself. A host drives a request step by step:
//! `ActionRequest::next_step` names the next command or the end, the host
//! runs the command and reports how it ended, and `ActionRequest::finish`
//! reads the result.
use vstd::prelude::*;

pub mod actions;
pub mod laws;
pub mod params;
pub mod parsers;
pub mod text;

use crate::actions::{
    action_description, action_name, action_named, all_actions, not_found_message, schema,
    ActionDefinition, ActionRequest,
};
use crate::params::{arg_views, shapes, validated, ParamValue};
use crate::text::views;

verus! {

/// Name of the external command-line tool on the current platform.
pub fn tool_name(windows: bool) -> (r: &'static str)
    ensures
        r@ == (if windows { "VBoxManage.exe"@ } else { "VBoxManage"@ }),
{
    if windows {
        "VBoxManage.exe"
    } else {
        "VBoxManage"
    }
}

/// The provider's default configuration, fixed when it is created.
#[derive(Clone, Debug)]
pub struct DefaultSettings {
    pub os_type: String,
    pub memory_mb: i64,
    pub cpu_count: i64,
    pub controller_name: String,
    pub network_type: String,
    pub username: String,
    pub password: String,
}

/// The VirtualBox provider.
#[derive(Clone, Debug)]
pub struct VirtualBoxExtension {
    pub name: String,
    pub provider_type: String,
    pub default_settings: DefaultSettings,
}

impl VirtualBoxExtension {
    pub fn new() -> (r: Self)
        ensures
            r.name@ == "virtualbox"@,
            r.provider_type@ == "command"@,
            r.default_settings.os_type@ == "Ubuntu_64"@,
            r.default_settings.memory_mb == 2048,
            r.default_settings.cpu_count == 2,
            r.default_settings.controller_name@ == "SATA Controller"@,
            r.default_settings.network_type@ == "nat"@,
            r.default_settings.username@ == "vboxuser"@,
            r.default_settings.password@ == "password"@,
    {
        VirtualBoxExtension {
            name: String::from_str("virtualbox"),
            provider_type: String::from_str("command"),
            default_settings: DefaultSettings {
                os_type: String::from_str("Ubuntu_64"),
                memory_mb: 2048,
                cpu_count: 2,
                controller_name: String::from_str("SATA Controller"),
                network_type: String::from_str("nat"),
                username: String::from_str("vboxuser"),
                password: String::from_str("password"),
            },
        }
    }

    /// The name of the provider.
    pub fn name(&self) -> (r: &str)
        ensures
            r@ == self.name@,
    {
        self.name.as_str()
    }

    /// The kind of provider.
    pub fn provider_type(&self) -> (r: &str)
        ensures
            r@ == self.provider_type@,
    {
        self.provider_type.as_str()
    }

    /// The names of all actions, in the declared order.
    pub fn list_actions(&self) -> (r: Vec<String>)
        ensures
            views(r@) == all_actions().map_values(|a: actions::Action| action_name(a)),
    {
        actions::list_actions()
    }

    /// The declaration of the action named `action`, if there is one.
    pub fn get_action_definition(&self, action: &str) -> (r: Option<ActionDefinition>)
        ensures
            match action_named(action@) {
                Some(a) => r is Some && r->Some_0.name@ == action@ && r->Some_0.description@
                    == action_description(a) && shapes(r->Some_0.parameters@) == schema(a)
                    && forall|i: int|
                    0 <= i < r->Some_0.parameters@.len() ==> (
                    #[trigger] r->Some_0.parameters@[i]).wf(),
                None => r is None,
            },
    {
        actions::get_action_definition(action)
    }

    /// Validates a call of the action named `action`: the request to carry
    /// out, or why there is none.
    pub fn prepare_action(&self, action: &str, params: &Vec<(String, ParamValue)>) -> (r: Result<
        ActionRequest,
        String,
    >)
        ensures
            match action_named(action@) {
                None => r is Err && r->Err_0@ == not_found_message(action@),
                Some(a) => match validated(schema(a), params@) {
                    Ok(args) => r is Ok && r->Ok_0.action == a && arg_views(r->Ok_0.args@)
                        == args && r->Ok_0.wf(),
                    Err(e) => r is Err && r->Err_0@ == e,
                },
            },
    {
        actions::prepare_request(action, params)
    }
}

} // verus!
