use screen_capture_diagnostic::overlay::{
    cards_from_calibration_profile, choose_overlay_target, default_overlay_cards, default_true,
    json_u32, requested_monitor_id, resolve_overlay_cards, select_tauri_monitor,
    u32_to_i32_saturating, MonitorListing, OverlayPocCardRequest, OverlayPocRequest,
    OverlayPocTargetRequest, OverlayTargetChoice, RectInfo, SlotRect, overlay_target_record,
    MonitorTargetFacts, ProfileTargetFacts,
};
use screen_capture_diagnostic::json::{JsonObject, JsonScalar};

fn profile(monitor_id: &str) -> ProfileTargetFacts {
    ProfileTargetFacts {
        monitor_id: monitor_id.to_string(),
        monitor_name: "显示器 1".to_string(),
        screenshot_width: 2560,
        screenshot_height: 1440,
    }
}

fn rect(x: i32, y: i32, width: u32, height: u32) -> RectInfo {
    RectInfo { x, y, width, height }
}

fn request(monitor_id: Option<&str>, target: Option<OverlayPocTargetRequest>) -> OverlayPocRequest {
    OverlayPocRequest {
        monitor_id: monitor_id.map(|s| s.to_string()),
        target,
        cards: vec![],
        click_through: false,
    }
}

#[test]
fn default_cards_on_full_hd() {
    let cards = default_overlay_cards(1920, 1080);
    assert_eq!(cards.len(), 3);
    let xs: Vec<i32> = cards.iter().map(|c| c.bounds.x).collect();
    assert_eq!(xs, vec![456, 800, 1144]);
    for (i, c) in cards.iter().enumerate() {
        assert_eq!(c.slot as usize, i + 1);
        assert_eq!(c.title, format!("测试卡片 {}", i + 1));
        assert_eq!(c.body, "Overlay POC");
        assert_eq!(c.source, "fallback.defaultCards");
        assert_eq!((c.bounds.y, c.bounds.width, c.bounds.height), (880, 320, 120));
    }
}

#[test]
fn default_cards_on_small_and_empty_targets() {
    let small = default_overlay_cards(100, 50);
    assert_eq!(
        small.iter().map(|c| c.bounds).collect::<Vec<_>>(),
        vec![rect(0, 0, 100, 50), rect(124, 0, 100, 50), rect(248, 0, 100, 50)]
    );
    let empty = default_overlay_cards(0, 0);
    assert_eq!(
        empty.iter().map(|c| c.bounds).collect::<Vec<_>>(),
        vec![rect(0, 0, 1, 1), rect(25, 0, 1, 1), rect(50, 0, 1, 1)]
    );
}

#[test]
fn default_cards_do_not_overlap_and_fit() {
    for width in [1024u32, 1280, 1920, 2560, 3840] {
        let cards = default_overlay_cards(width, 720);
        for pair in cards.windows(2) {
            assert!(pair[0].bounds.x + pair[0].bounds.width as i32 <= pair[1].bounds.x);
        }
        let last = &cards[2].bounds;
        assert!(last.x as i64 + last.width as i64 <= width as i64);
    }
}

#[test]
fn anchor_cards_sorted_by_slot_above_anchor() {
    let anchors = vec![
        SlotRect { slot: 2, rect: rect(500, 900, 300, 40) },
        SlotRect { slot: 1, rect: rect(100, 900, 300, 40) },
    ];
    let cards = cards_from_calibration_profile(&anchors, None, None, 1080);
    assert_eq!(cards.len(), 2);
    assert_eq!(cards[0].slot, 1);
    assert_eq!(cards[0].bounds, rect(100, 772, 300, 120));
    assert_eq!(cards[0].title, "测试卡片 1");
    assert_eq!(cards[0].body, "slot 1 · Overlay POC");
    assert_eq!(cards[0].source, "calibration.bottomAnchors");
    assert_eq!(cards[1].slot, 2);
    assert_eq!(cards[1].bounds, rect(500, 772, 300, 120));
}

#[test]
fn anchor_cards_clamp_to_top_and_settings() {
    let anchors = vec![SlotRect { slot: 3, rect: rect(10, 50, 0, 10) }];
    let cards = cards_from_calibration_profile(&anchors, Some(4), Some(30), 20);
    assert_eq!(cards[0].bounds, rect(10, 26, 1, 20));
    let high = cards_from_calibration_profile(&anchors, Some(4), Some(100), 1000);
    assert_eq!(high[0].bounds, rect(10, 0, 1, 100));
    assert!(cards_from_calibration_profile(&vec![], None, None, 100).is_empty());
}

#[test]
fn request_cards_are_used_as_given() {
    let mut req = request(None, None);
    req.cards.push(OverlayPocCardRequest {
        slot: 3,
        title: None,
        body: Some("B".to_string()),
        x: 1,
        y: 2,
        width: 3,
        height: 4,
    });
    let mut messages = Vec::new();
    let cards = resolve_overlay_cards(&req, None, 100, 100, &mut messages).unwrap();
    assert_eq!(cards.len(), 1);
    assert_eq!(cards[0].title, "测试卡片 3");
    assert_eq!(cards[0].body, "B");
    assert_eq!(cards[0].bounds, rect(1, 2, 3, 4));
    assert_eq!(cards[0].source, "request.cards");
    assert_eq!(messages, vec!["使用请求传入的 Overlay 测试卡片位置。".to_string()]);
}

#[test]
fn request_card_without_size_is_refused() {
    let mut req = request(None, None);
    req.cards.push(OverlayPocCardRequest {
        slot: 3,
        title: None,
        body: None,
        x: 0,
        y: 0,
        width: 0,
        height: 4,
    });
    let mut messages = Vec::new();
    assert_eq!(
        resolve_overlay_cards(&req, None, 100, 100, &mut messages).unwrap_err(),
        "Overlay POC 卡片 slot3 宽高必须大于 0"
    );
    assert!(messages.is_empty());
}

#[test]
fn profile_cards_then_default_cards() {
    let req = request(None, None);
    let profile_cards = cards_from_calibration_profile(
        &vec![SlotRect { slot: 1, rect: rect(0, 500, 10, 10) }],
        None,
        None,
        600,
    );
    let mut messages = Vec::new();
    let cards = resolve_overlay_cards(&req, Some(profile_cards), 800, 600, &mut messages).unwrap();
    assert_eq!(cards[0].source, "calibration.bottomAnchors");
    assert_eq!(
        messages,
        vec!["已根据 calibration/profile.json 的 bottomAnchors 生成测试卡片位置。".to_string()]
    );
    let mut messages = Vec::new();
    let cards = resolve_overlay_cards(&req, Some(vec![]), 800, 600, &mut messages).unwrap();
    assert_eq!(cards.len(), 3);
    assert_eq!(cards[0].source, "fallback.defaultCards");
    assert_eq!(messages, vec!["未找到可用 bottomAnchors，使用默认三列测试卡片位置。".to_string()]);
}

#[test]
fn target_from_request() {
    let req = request(Some("monitor-1"), Some(OverlayPocTargetRequest { x: 5, y: 6, width: 7, height: 8 }));
    let mut messages = Vec::new();
    let choice = choose_overlay_target(&req, &None, &MonitorListing::NoMainWindow, &mut messages).unwrap();
    assert!(matches!(choice, OverlayTargetChoice::Request(r) if r == rect(5, 6, 7, 8)));
    assert_eq!(messages, vec!["使用请求传入的 Overlay 目标尺寸。".to_string()]);
    let bad = request(None, Some(OverlayPocTargetRequest { x: 5, y: 6, width: 0, height: 8 }));
    let mut messages = Vec::new();
    assert_eq!(
        choose_overlay_target(&bad, &None, &MonitorListing::NoMainWindow, &mut messages).unwrap_err(),
        "Overlay POC target 宽高必须大于 0"
    );
    assert!(messages.is_empty());
}

#[test]
fn target_from_listed_monitor() {
    let names = MonitorListing::Names(vec![Some("A".to_string()), Some("B".to_string())]);
    let mut messages = Vec::new();
    let choice = choose_overlay_target(&request(Some("monitor-1"), None), &None, &names, &mut messages).unwrap();
    assert!(matches!(choice, OverlayTargetChoice::Monitor(1)));
    assert_eq!(messages, vec!["使用 Tauri 显示器 monitor-1 创建 Overlay POC。".to_string()]);
    let mut messages = Vec::new();
    let choice = choose_overlay_target(&request(Some("B"), None), &None, &names, &mut messages).unwrap();
    assert!(matches!(choice, OverlayTargetChoice::Monitor(1)));
    let mut messages = Vec::new();
    let choice = choose_overlay_target(
        &request(Some("  "), None),
        &Some(profile("monitor-0")),
        &names,
        &mut messages,
    )
    .unwrap();
    assert!(matches!(choice, OverlayTargetChoice::Monitor(0)));
}

#[test]
fn target_falls_back() {
    let names = MonitorListing::Names(vec![Some("A".to_string())]);
    let mut messages = Vec::new();
    let choice = choose_overlay_target(&request(Some("Z"), None), &None, &names, &mut messages).unwrap();
    assert!(matches!(choice, OverlayTargetChoice::Fallback(r) if r == rect(0, 0, 1280, 720)));
    assert_eq!(
        messages,
        vec![
            "未在 Tauri 显示器列表中找到 Z，改用校准截图尺寸降级。".to_string(),
            "未找到校准配置，使用 1280x720 作为 Overlay POC 降级尺寸。".to_string(),
        ]
    );
    let mut messages = Vec::new();
    let choice = choose_overlay_target(
        &request(None, None),
        &Some(profile("monitor-3")),
        &MonitorListing::Unavailable("x".to_string()),
        &mut messages,
    )
    .unwrap();
    assert!(matches!(&choice, OverlayTargetChoice::Profile(p) if p.monitor_id == "monitor-3"));
    let record = overlay_target_record(&choice, &None, &None);
    assert_eq!(record.monitor_id, Some("monitor-3".to_string()));
    assert_eq!(record.monitor_name, Some("显示器 1".to_string()));
    assert_eq!(record.source, "calibration.profileScreenshot");
    assert_eq!(record.bounds, rect(0, 0, 2560, 1440));
    assert_eq!(record.logical_bounds, rect(0, 0, 2560, 1440));
    assert_eq!(messages, vec!["读取 Tauri 显示器列表失败，改用校准截图尺寸降级: x".to_string()]);
    let mut messages = Vec::new();
    let choice = choose_overlay_target(&request(None, None), &None, &MonitorListing::NoMainWindow, &mut messages).unwrap();
    assert!(matches!(choice, OverlayTargetChoice::Fallback(_)));
    assert_eq!(messages.len(), 2);
    assert_eq!(messages[0], "未找到 main 窗口，无法读取显示器列表，改用校准截图尺寸降级。");
}

#[test]
fn monitor_selection_by_index_or_name() {
    let names = vec![None, Some("X".to_string())];
    assert_eq!(select_tauri_monitor(&names, None), Some(0));
    assert_eq!(select_tauri_monitor(&names, Some("monitor-1")), Some(1));
    assert_eq!(select_tauri_monitor(&names, Some("X")), Some(1));
    assert_eq!(select_tauri_monitor(&names, Some("monitor-5")), None);
    assert_eq!(select_tauri_monitor(&names, Some("monitor-x")), None);
    assert_eq!(select_tauri_monitor(&vec![], None), None);
}

#[test]
fn requested_monitor_prefers_non_blank_request() {
    assert_eq!(requested_monitor_id(&Some("  ".to_string()), &Some("p".to_string())), Some("p".to_string()));
    assert_eq!(requested_monitor_id(&Some("x".to_string()), &Some("p".to_string())), Some("x".to_string()));
    assert_eq!(requested_monitor_id(&None, &None), None);
    assert_eq!(requested_monitor_id(&Some("".to_string()), &None), None);
}

#[test]
fn json_numbers_that_fit() {
    let v = JsonObject {
        entries: vec![
            ("gap".to_string(), JsonScalar::Unsigned(12)),
            ("maxHeight".to_string(), JsonScalar::Unsigned(5000000000)),
            ("s".to_string(), JsonScalar::Text("5".to_string())),
            ("neg".to_string(), JsonScalar::Other),
        ],
    };
    assert_eq!(json_u32(&v, "gap"), Some(12));
    assert_eq!(json_u32(&v, "maxHeight"), None);
    assert_eq!(json_u32(&v, "s"), None);
    assert_eq!(json_u32(&v, "neg"), None);
    assert_eq!(json_u32(&v, "missing"), None);
    assert_eq!(json_u32(&JsonObject { entries: vec![] }, "gap"), None);
}

#[test]
fn target_records_for_each_choice() {
    let request_id = Some("monitor-9".to_string());
    let r = overlay_target_record(&OverlayTargetChoice::Request(rect(5, 6, 7, 8)), &request_id, &None);
    assert_eq!(r.monitor_id, request_id);
    assert_eq!(r.monitor_name, None);
    assert_eq!(r.source, "request.target");
    assert_eq!((r.bounds, r.logical_bounds), (rect(5, 6, 7, 8), rect(5, 6, 7, 8)));
    let f = overlay_target_record(&OverlayTargetChoice::Fallback(rect(0, 0, 1280, 720)), &None, &None);
    assert_eq!(f.source, "fallback.defaultSize");
    assert_eq!(f.monitor_id, None);
    assert_eq!(f.bounds, rect(0, 0, 1280, 720));
    let facts = MonitorTargetFacts {
        name: Some("LG".to_string()),
        bounds: rect(1920, 0, 3840, 2160),
        logical_bounds: rect(960, 0, 1920, 1080),
    };
    let m = overlay_target_record(&OverlayTargetChoice::Monitor(1), &request_id, &Some(facts));
    assert_eq!(m.monitor_id, Some("monitor-1".to_string()));
    assert_eq!(m.monitor_name, Some("LG".to_string()));
    assert_eq!(m.source, "tauri.availableMonitors");
    assert_eq!(m.bounds, rect(1920, 0, 3840, 2160));
    assert_eq!(m.logical_bounds, rect(960, 0, 1920, 1080));
}

#[test]
fn saturating_conversion_and_default() {
    assert_eq!(u32_to_i32_saturating(5), 5);
    assert_eq!(u32_to_i32_saturating(2147483647), i32::MAX);
    assert_eq!(u32_to_i32_saturating(2147483648), i32::MAX);
    assert_eq!(u32_to_i32_saturating(u32::MAX), i32::MAX);
    assert!(default_true());
}
