use screen_capture_diagnostic::calibration::{
    validate_calibration_profile, validate_region, validate_slotted_regions,
    CalibrationProfileFacts, RatioRegionFacts, SlottedRegionFacts,
};

fn good() -> RatioRegionFacts {
    RatioRegionFacts {
        x_in_unit: true,
        y_in_unit: true,
        width_in_unit: true,
        height_in_unit: true,
        positive_size: true,
        within_screenshot: true,
    }
}

fn slots(order: &[u8]) -> Vec<SlottedRegionFacts> {
    order.iter().map(|&slot| SlottedRegionFacts { slot, region: good() }).collect()
}

fn profile() -> CalibrationProfileFacts {
    CalibrationProfileFacts {
        version: 1,
        profile_name: "default".to_string(),
        monitor_id: "monitor-0".to_string(),
        monitor_name: "显示器 1".to_string(),
        screenshot_width: 2560,
        screenshot_height: 1440,
        dpi_scale_positive: None,
        language: "zh-CN".to_string(),
        name_regions: slots(&[1, 2, 3]),
        bottom_anchors: slots(&[3, 1, 2]),
        toggle_button_region: good(),
    }
}

#[test]
fn region_rules_in_order() {
    assert_eq!(validate_region("r", &good()), Ok(()));
    let mut r = good();
    r.y_in_unit = false;
    r.positive_size = false;
    assert_eq!(validate_region("r", &r), Err("校准配置 r.yRatio 必须在 0..=1 范围内".to_string()));
    let mut r = good();
    r.height_in_unit = false;
    assert_eq!(validate_region("r", &r), Err("校准配置 r.heightRatio 必须在 0..=1 范围内".to_string()));
    let mut r = good();
    r.positive_size = false;
    r.within_screenshot = false;
    assert_eq!(validate_region("r", &r), Err("校准配置 r 宽高比例必须大于 0".to_string()));
    let mut r = good();
    r.within_screenshot = false;
    assert_eq!(validate_region("r", &r), Err("校准配置 r 区域不能超出截图范围".to_string()));
}

#[test]
fn slots_in_any_order_are_accepted() {
    for order in [[1u8, 2, 3], [3, 2, 1], [2, 3, 1]] {
        assert_eq!(validate_slotted_regions("nameRegions", &slots(&order)), Ok(()));
    }
}

#[test]
fn slot_rules() {
    assert_eq!(
        validate_slotted_regions("nameRegions", &slots(&[1, 2])),
        Err("校准配置 nameRegions 必须包含 3 个区域".to_string())
    );
    assert_eq!(
        validate_slotted_regions("nameRegions", &slots(&[1, 2, 3, 1])),
        Err("校准配置 nameRegions 必须包含 3 个区域".to_string())
    );
    assert_eq!(
        validate_slotted_regions("nameRegions", &slots(&[1, 4, 2])),
        Err("校准配置 nameRegions slot 必须为 1、2、3".to_string())
    );
    assert_eq!(
        validate_slotted_regions("nameRegions", &slots(&[0, 1, 2])),
        Err("校准配置 nameRegions slot 必须为 1、2、3".to_string())
    );
    assert_eq!(
        validate_slotted_regions("bottomAnchors", &slots(&[2, 2, 3])),
        Err("校准配置 bottomAnchors slot 2 重复".to_string())
    );
}

#[test]
fn slot_region_checked_under_the_list_label() {
    let mut regions = slots(&[1, 2, 3]);
    regions[1].region.x_in_unit = false;
    regions[2].slot = 2;
    assert_eq!(
        validate_slotted_regions("nameRegions", &regions),
        Err("校准配置 nameRegions.xRatio 必须在 0..=1 范围内".to_string())
    );
}

#[test]
fn valid_profile() {
    assert_eq!(validate_calibration_profile(&profile()), Ok(()));
    let mut p = profile();
    p.dpi_scale_positive = Some(true);
    assert_eq!(validate_calibration_profile(&p), Ok(()));
}

#[test]
fn profile_rules_in_order() {
    let mut p = profile();
    p.version = 0;
    p.profile_name = " ".to_string();
    assert_eq!(validate_calibration_profile(&p), Err("校准配置 version 必须大于 0".to_string()));
    let mut p = profile();
    p.profile_name = " \t".to_string();
    assert_eq!(validate_calibration_profile(&p), Err("校准配置 profileName 不能为空".to_string()));
    let mut p = profile();
    p.monitor_id = String::new();
    assert_eq!(validate_calibration_profile(&p), Err("校准配置 monitorId 不能为空".to_string()));
    let mut p = profile();
    p.monitor_name = "\n".to_string();
    assert_eq!(validate_calibration_profile(&p), Err("校准配置 monitorName 不能为空".to_string()));
    let mut p = profile();
    p.screenshot_height = 0;
    assert_eq!(validate_calibration_profile(&p), Err("校准配置截图宽高必须大于 0".to_string()));
    let mut p = profile();
    p.dpi_scale_positive = Some(false);
    assert_eq!(validate_calibration_profile(&p), Err("校准配置 dpiScale 必须大于 0".to_string()));
    let mut p = profile();
    p.language = "  ".to_string();
    assert_eq!(validate_calibration_profile(&p), Err("校准配置 language 不能为空".to_string()));
    let mut p = profile();
    p.bottom_anchors = slots(&[1, 1, 2]);
    assert_eq!(validate_calibration_profile(&p), Err("校准配置 bottomAnchors slot 1 重复".to_string()));
    let mut p = profile();
    p.toggle_button_region.within_screenshot = false;
    assert_eq!(
        validate_calibration_profile(&p),
        Err("校准配置 toggleButtonRegion 区域不能超出截图范围".to_string())
    );
}
