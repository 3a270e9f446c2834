use dsh_launcher::uninstall::report::{config_removed_line, config_step, residue_route, ConfigStep, ResidueRoute};

#[test]
fn user_configuration_is_kept_unless_purged() {
    let roaming = "C:\\Users\\u\\AppData\\Roaming\\DSHLauncher";
    assert_eq!(config_step(true, true, roaming), ConfigStep::Delete);
    assert_eq!(config_step(true, false, roaming), ConfigStep::Absent("用户配置不存在（无需删除）".to_string()));
    assert_eq!(
        config_step(false, true, roaming),
        ConfigStep::Keep(
            "已保留用户配置：C:\\Users\\u\\AppData\\Roaming\\DSHLauncher\\settings.toml（如需一并删除，请用 --purge）"
                .to_string()
        )
    );
    assert_eq!(config_step(false, false, roaming), ConfigStep::Nothing);
    assert_eq!(
        config_removed_line(roaming),
        "已删除用户配置 C:\\Users\\u\\AppData\\Roaming\\DSHLauncher（--purge）"
    );
}

#[test]
fn residue_route_follows_key_target_and_guards() {
    let ok_dir: Result<String, String> = Ok("C:\\Apps\\DSHLauncher".to_string());
    let bad: Result<String, String> = Err("注册表值互相矛盾".to_string());
    let fine: Result<(), String> = Ok(());
    let refused: Result<(), String> = Err("安装标记仍在".to_string());

    match residue_route(false, &bad, &refused, false) {
        ResidueRoute::NothingToClean(m) => assert!(m.contains("无需清理"), "{m}"),
        other => panic!("expected NothingToClean, got {other:?}"),
    }
    let r = residue_route(true, &bad, &fine, false);
    assert_eq!(r, ResidueRoute::Refuse("注册表值互相矛盾".to_string()));
    assert_eq!(r.exit_code(), Some(2));
    let r = residue_route(true, &ok_dir, &refused, true);
    assert_eq!(r, ResidueRoute::Refuse("安装标记仍在".to_string()));
    assert_eq!(r.exit_code(), Some(2));
    let r = residue_route(true, &ok_dir, &fine, true);
    assert_eq!(r, ResidueRoute::ReportOnly);
    assert_eq!(r.exit_code(), Some(0));
    let r = residue_route(true, &ok_dir, &fine, false);
    assert_eq!(r, ResidueRoute::RemoveKeyAndShortcuts);
    assert_eq!(r.exit_code(), None);
    assert_eq!(ResidueRoute::NothingToClean(String::new()).exit_code(), Some(0));
}
