use screen_capture_diagnostic::capture::{
    capture_delay_seconds, capture_targets_from_monitors, center_region, click_through_result,
    click_through_unsupported, close_overlay_result, hash_bytes, list_capture_targets, monitor_info,
    sample_path, select_monitor_index, summarize_attempts, unsupported_capture_attempts,
    AttemptOutcome, CaptureRequest, MonitorFacts,
};
use screen_capture_diagnostic::overlay::RectInfo;

fn rect(x: i32, y: i32, width: u32, height: u32) -> RectInfo {
    RectInfo { x, y, width, height }
}

fn outcome(status: &str, black: Option<bool>) -> AttemptOutcome {
    AttemptOutcome { status: status.to_string(), black_screen_suspected: black }
}

#[test]
fn delay_is_capped_at_thirty_seconds() {
    assert_eq!(capture_delay_seconds(5), 5);
    assert_eq!(capture_delay_seconds(30), 30);
    assert_eq!(capture_delay_seconds(100), 30);
    assert_eq!(capture_delay_seconds(0), 0);
}

#[test]
fn placeholder_target_off_windows() {
    let targets = list_capture_targets();
    assert_eq!(targets.len(), 1);
    assert_eq!(targets[0].kind, "platform");
    assert_eq!(targets[0].id, "unsupported");
    assert_eq!(targets[0].label, "当前不是 Windows，真实截图诊断需在 Windows 桌面环境运行");
    assert!(targets[0].bounds.is_none());
}

#[test]
fn monitor_targets_are_numbered() {
    let monitors = vec![
        MonitorFacts { friendly_name: None, is_primary: true, bounds: Some(rect(0, 0, 1920, 1080)) },
        MonitorFacts { friendly_name: Some("LG".to_string()), is_primary: false, bounds: None },
    ];
    let targets = capture_targets_from_monitors(&monitors);
    assert_eq!(targets.len(), 2);
    assert_eq!((targets[0].kind.as_str(), targets[0].id.as_str(), targets[0].label.as_str()), ("monitor", "monitor-0", "显示器 1"));
    assert_eq!(targets[0].bounds, Some(rect(0, 0, 1920, 1080)));
    assert_eq!((targets[1].id.as_str(), targets[1].label.as_str()), ("monitor-1", "LG"));
    assert!(targets[1].bounds.is_none());
}

#[test]
fn calibration_monitor_choice() {
    assert_eq!(select_monitor_index(&vec![false, true], None), Ok(1));
    assert_eq!(select_monitor_index(&vec![false, false], None), Ok(0));
    assert_eq!(select_monitor_index(&vec![false, true], Some("  ")), Ok(1));
    assert_eq!(select_monitor_index(&vec![true, false], Some("monitor-1")), Ok(1));
    assert_eq!(select_monitor_index(&vec![true, false], Some("monitor-+1")), Ok(1));
}

#[test]
fn calibration_monitor_errors() {
    assert_eq!(select_monitor_index(&vec![], None), Err("未找到可捕获的显示器".to_string()));
    assert_eq!(
        select_monitor_index(&vec![true, false], Some("monitor-2")),
        Err("未找到显示器: monitor-2".to_string())
    );
    assert_eq!(
        select_monitor_index(&vec![true], Some("abc")),
        Err("不支持的显示器编号: abc".to_string())
    );
    assert_eq!(
        select_monitor_index(&vec![true], Some("monitor-x")),
        Err("不支持的显示器编号: monitor-x".to_string())
    );
    assert_eq!(
        select_monitor_index(&vec![true], Some("monitor-")),
        Err("不支持的显示器编号: monitor-".to_string())
    );
}

#[test]
fn monitor_description() {
    let info = monitor_info(2, None, true, Ok(rect(1, 2, 3, 4))).unwrap();
    assert_eq!(info.id, "monitor-2");
    assert_eq!(info.name, "显示器 3");
    assert!(info.is_primary);
    assert_eq!(info.bounds, rect(1, 2, 3, 4));
    let named = monitor_info(0, Some("Dell".to_string()), false, Ok(rect(0, 0, 1, 1))).unwrap();
    assert_eq!(named.name, "Dell");
    assert_eq!(monitor_info(0, None, false, Err("no x".to_string())).unwrap_err(), "no x");
}

#[test]
fn centre_region_of_monitor() {
    assert_eq!(center_region(1920, 1080), (640, 360, 640, 360));
    assert_eq!(center_region(100, 50), (0, 0, 100, 50));
    assert_eq!(center_region(641, 361), (0, 0, 640, 360));
    assert_eq!(center_region(0, 0), (0, 0, 0, 0));
}

#[test]
fn sample_names() {
    let save = CaptureRequest { save_samples: true, delay_seconds: 0 };
    let skip = CaptureRequest { save_samples: false, delay_seconds: 0 };
    assert_eq!(sample_path("xcap center:region", &save), Some("xcap_center_region.png".to_string()));
    assert_eq!(sample_path("a/b\\c", &save), Some("a_b_c.png".to_string()));
    assert_eq!(sample_path("xcap_primary_monitor", &skip), None);
}

#[test]
fn sha256_in_lower_hex() {
    assert_eq!(hash_bytes(b""), "e3b0c44298fc1c149afbf4c8996fb92427ae41e4649b934ca495991b7852b855");
    assert_eq!(hash_bytes(b"abc"), "ba7816bf8f01cfea414140de5dae2223b00361a396177a9cb410ff61f20015ad");
    assert_eq!(hash_bytes(&[0u8; 100]).len(), 64);
}

#[test]
fn summary_of_attempts() {
    assert_eq!(
        summarize_attempts(&vec![outcome("success", Some(true)), outcome("failed", None), outcome("success", Some(true))]),
        "有截图策略成功，但 2 个结果疑似黑屏，请优先查看样本图。"
    );
    assert_eq!(
        summarize_attempts(&vec![outcome("failed", None), outcome("success", Some(false))]),
        "至少一个截图策略成功，未发现明显黑屏。"
    );
    assert_eq!(
        summarize_attempts(&vec![outcome("failed", Some(true))]),
        "所有截图策略均失败或在当前平台不可用。"
    );
    assert_eq!(summarize_attempts(&vec![]), "所有截图策略均失败或在当前平台不可用。");
}

#[test]
fn skipped_attempts_off_windows() {
    let skipped = unsupported_capture_attempts();
    let names: Vec<&str> = skipped.iter().map(|a| a.strategy.as_str()).collect();
    assert_eq!(names, vec!["xcap_requested_target", "xcap_primary_monitor", "xcap_center_region"]);
    assert!(skipped.iter().all(|a| a.target_label == "primary_monitor"));
    assert!(skipped.iter().all(|a| a.status == "failed" && a.duration_ms == 0));
    assert_eq!(skipped[2].error, "当前平台不是 Windows，跳过中心区域截图");
}

#[test]
fn overlay_window_answers() {
    let closed = close_overlay_result(true);
    assert_eq!(closed.label, "overlay-poc");
    assert!(closed.closed);
    assert_eq!(closed.message, "Overlay POC 窗口已关闭。");
    assert_eq!(close_overlay_result(false).message, "Overlay POC 窗口不存在，无需关闭。");

    let on = click_through_result(true, Ok(()));
    assert!(on.applied && on.supported && on.requested);
    assert_eq!(on.message, "Windows 点击穿透已启用。");
    let off = click_through_result(false, Ok(()));
    assert!(!off.applied && off.supported);
    assert_eq!(off.message, "Windows 点击穿透已关闭。");
    let failed = click_through_result(true, Err("denied".to_string()));
    assert!(!failed.applied && !failed.supported);
    assert_eq!(failed.message, "Windows 点击穿透请求失败: denied");
    let unsupported = click_through_unsupported(true);
    assert!(unsupported.requested && !unsupported.applied && !unsupported.supported);
    assert_eq!(
        unsupported.message,
        "当前非 Windows 构建，Overlay POC 点击穿透未启用；需要在 Windows 桌面环境实测。"
    );
}
