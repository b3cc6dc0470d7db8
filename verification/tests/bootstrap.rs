use image_export::bootstrap::{
    bootstrap_plan, BootstrapOptions, BootstrapPlan, LogVerbosity, COMMAND_NAME,
};

#[test]
fn debug_logging_is_registered_at_info() {
    let plan = bootstrap_plan(BootstrapOptions { enable_debug_logging: true });
    assert_eq!(plan, BootstrapPlan { dialog: true, logging: Some(LogVerbosity::Info) });
}

#[test]
fn logging_is_left_out_when_disabled() {
    let plan = bootstrap_plan(BootstrapOptions { enable_debug_logging: false });
    assert_eq!(plan, BootstrapPlan { dialog: true, logging: None });
}

#[test]
fn dialog_is_registered_either_way() {
    assert!(bootstrap_plan(BootstrapOptions { enable_debug_logging: true }).dialog);
    assert!(bootstrap_plan(BootstrapOptions { enable_debug_logging: false }).dialog);
}

#[test]
fn command_keeps_its_name() {
    assert_eq!(COMMAND_NAME, "save_export_image");
}
