//! What the application registers with its host at startup, decided from
//! explicit options and not from how the program was built.

use vstd::prelude::*;

verus! {

/// The options that startup recognizes.
#[derive(Clone, Copy, Debug, PartialEq, Eq)]
pub struct BootstrapOptions {
    /// Whether the logging capability is registered; meant for debug builds.
    pub enable_debug_logging: bool,
}

/// How much a logging capability lets through, from nothing to everything.
#[derive(Clone, Copy, Debug, PartialEq, Eq)]
pub enum LogVerbosity {
    Off,
    Error,
    Warn,
    Info,
    Debug,
    Trace,
}

/// What startup registers with the host.
#[derive(Clone, Copy, Debug, PartialEq, Eq)]
pub struct BootstrapPlan {
    /// Whether the dialog capability, by which the front end picks a path, is
    /// registered.
    pub dialog: bool,
    /// The verbosity of the logging capability, where one is registered.
    pub logging: Option<LogVerbosity>,
}

/// The plan that `options` call for: the dialog capability always, logging at
/// `Info` where debug logging is enabled and not at all where it is not.
pub open spec fn plan_for(options: BootstrapOptions) -> BootstrapPlan {
    BootstrapPlan {
        dialog: true,
        logging: if options.enable_debug_logging {
            Some(LogVerbosity::Info)
        } else {
            None
        },
    }
}

/// Decides what startup registers with the host.
pub fn bootstrap_plan(options: BootstrapOptions) -> (plan: BootstrapPlan)
    ensures
        plan == plan_for(options),
{
    let logging = if options.enable_debug_logging {
        Some(LogVerbosity::Info)
    } else {
        None
    };
    BootstrapPlan { dialog: true, logging }
}

/// The name under which the host's invocation handler knows the export
/// command.
pub const COMMAND_NAME: &'static str = "save_export_image";

} // verus!
