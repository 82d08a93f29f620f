use plugin_setup::boot::PLUGIN_BOOT_RELOAD_JS;

#[test]
fn boot_reload_script_is_one_shot_and_splash_scoped() {
    assert!(PLUGIN_BOOT_RELOAD_JS.contains("__dsh_plugin_boot_reloaded__"));
    assert!(PLUGIN_BOOT_RELOAD_JS.contains("Loading plugins"));
    assert!(PLUGIN_BOOT_RELOAD_JS.contains("sessionStorage"));
    assert!(PLUGIN_BOOT_RELOAD_JS.contains("window === window.top"));
    assert!(PLUGIN_BOOT_RELOAD_JS.contains("location.reload"));
}

#[test]
fn boot_reload_waits_eight_seconds_and_marks_before_reloading() {
    assert!(PLUGIN_BOOT_RELOAD_JS.starts_with("(function () {\n"));
    assert!(PLUGIN_BOOT_RELOAD_JS.ends_with("  setTimeout(tick, 8000);\n})();"));
    let mark = PLUGIN_BOOT_RELOAD_JS.find("sessionStorage.setItem(FLAG, '1')").unwrap();
    let reload = PLUGIN_BOOT_RELOAD_JS.find("location.reload()").unwrap();
    assert!(mark < reload);
}
