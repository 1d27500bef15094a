use screen_capture_diagnostic::apexlol::{
    apex_lol_absolute_url, apex_lol_cache_key, apex_lol_lines_after_marker, apex_lol_result,
    extract_apex_lol_description, find_line_index, is_apex_lol_tip_line, looks_like_apex_lol_date,
    normalize_apex_lol_name, parse_apex_lol_champion_page, parse_apex_lol_entry,
    parse_apex_lol_hextech_page, parse_apex_lol_rating, resolve_apex_lol_link,
};

fn strings(v: &[&str]) -> Vec<String> {
    v.iter().map(|s| s.to_string()).collect()
}

#[test]
fn normalize_keeps_letters_digits_and_cjk_uppercased() {
    assert_eq!(normalize_apex_lol_name("Ahri - 阿狸!"), "AHRI阿狸");
    assert_eq!(normalize_apex_lol_name("tank engine 2"), "TANKENGINE2");
    assert_eq!(normalize_apex_lol_name("straße"), "STRASSE");
    assert_eq!(normalize_apex_lol_name(" -!? "), "");
}

#[test]
fn cache_key_joins_normalised_names() {
    assert_eq!(apex_lol_cache_key("Ahri", "Tank Engine"), "AHRI::TANKENGINE");
    assert_eq!(apex_lol_cache_key(" ahri ", "tank-engine"), "AHRI::TANKENGINE");
    assert_eq!(apex_lol_cache_key("", ""), "::");
}

#[test]
fn absolute_url_forms() {
    assert_eq!(apex_lol_absolute_url("https://x.y/z"), "https://x.y/z");
    assert_eq!(apex_lol_absolute_url("http://a"), "http://a");
    assert_eq!(apex_lol_absolute_url("/zh/a"), "https://apexlol.info/zh/a");
    assert_eq!(apex_lol_absolute_url("zh/a"), "https://apexlol.info/zh/a");
    assert_eq!(apex_lol_absolute_url(""), "https://apexlol.info/");
}

#[test]
fn absolute_url_is_idempotent() {
    for href in ["zh/a", "/b", "https://c", "http://d/e", ""] {
        let once = apex_lol_absolute_url(href);
        assert!(once.starts_with("http://") || once.starts_with("https://"));
        assert_eq!(apex_lol_absolute_url(&once), once);
    }
}

#[test]
fn rating_alone_and_with_suffix() {
    assert_eq!(parse_apex_lol_rating("SS"), Some(("SS".to_string(), String::new())));
    assert_eq!(parse_apex_lol_rating("S级"), Some(("S".to_string(), String::new())));
    assert_eq!(
        parse_apex_lol_rating("A tier great"),
        Some(("A".to_string(), "tier great".to_string()))
    );
    assert_eq!(
        parse_apex_lol_rating("S级 强力 Strong"),
        Some(("S".to_string(), "强力 trong".to_string()))
    );
    assert_eq!(parse_apex_lol_rating("sss"), Some(("SSS".to_string(), String::new())));
}

#[test]
fn rating_absent() {
    assert_eq!(parse_apex_lol_rating("Banana"), None);
    assert_eq!(parse_apex_lol_rating(""), None);
    assert_eq!(parse_apex_lol_rating("E"), None);
}

#[test]
fn ratings_are_from_the_known_set() {
    for line in ["SSS", "ss", "S级", "A Tier", "btier", "C", "d级 weak", "Dragon"] {
        if let Some((rating, _)) = parse_apex_lol_rating(line) {
            assert!(["SSS", "SS", "S", "A", "B", "C", "D"].contains(&rating.as_str()));
        }
    }
}

#[test]
fn dates() {
    assert!(looks_like_apex_lol_date("2024/01/02"));
    assert!(looks_like_apex_lol_date("Today"));
    assert!(looks_like_apex_lol_date("Yesterday"));
    assert!(looks_like_apex_lol_date("昨天"));
    assert!(!looks_like_apex_lol_date("a/b"));
    assert!(!looks_like_apex_lol_date("Tomorrow"));
}

#[test]
fn tip_lines() {
    assert!(is_apex_lol_tip_line("This augment is great"));
    assert!(is_apex_lol_tip_line("  abcd  "));
    assert!(!is_apex_lol_tip_line("abc"));
    assert!(!is_apex_lol_tip_line("Silver tier"));
    assert!(!is_apex_lol_tip_line("12345"));
    assert!(!is_apex_lol_tip_line("S级"));
    assert!(!is_apex_lol_tip_line("2024/1/2 note"));
    assert!(!is_apex_lol_tip_line("!!!!"));
    assert!(!is_apex_lol_tip_line("作者: someone"));
}

#[test]
fn tip_line_length_is_counted_in_bytes() {
    assert!(is_apex_lol_tip_line(&"汉".repeat(80)));
    assert!(!is_apex_lol_tip_line(&"汉".repeat(81)));
    assert!(is_apex_lol_tip_line("汉汉"));
}

#[test]
fn find_line_by_normalised_name() {
    let lines = strings(&["x", "Tank Engine 坦克引擎", "y"]);
    assert_eq!(find_line_index(&lines, "tank engine"), Some(1));
    assert_eq!(find_line_index(&lines, "y"), Some(2));
    assert_eq!(find_line_index(&lines, ""), None);
    assert_eq!(find_line_index(&lines, "!!!"), None);
    assert_eq!(find_line_index(&lines, "zzz"), None);
}

#[test]
fn lines_after_first_marker() {
    let html = "<p>intro</p><p>Hextech Synergy Analysis</p><p>a</p><p>b</p>";
    assert_eq!(
        apex_lol_lines_after_marker(html, &["海克斯联动分析", "Hextech Synergy Analysis"]),
        Some(strings(&["a", "b"]))
    );
    assert_eq!(apex_lol_lines_after_marker(html, &["missing"]), None);
    assert_eq!(apex_lol_lines_after_marker("<p>a</p><p>end marker</p>", &["marker"]), Some(vec![]));
}

#[test]
fn entry_reads_rating_then_tip() {
    let lines = strings(&["Tank Engine", "S级", "Great with shields", "Other tip here"]);
    assert_eq!(
        parse_apex_lol_entry(&lines, 1),
        ("S".to_string(), String::new(), "Great with shields".to_string())
    );
    assert_eq!(parse_apex_lol_entry(&lines, 4), (String::new(), String::new(), String::new()));
}

#[test]
fn entry_looks_at_most_eighteen_lines() {
    let mut lines = vec!["Name".to_string()];
    for _ in 0..18 {
        lines.push("12".to_string());
    }
    lines.push("A级 late".to_string());
    assert_eq!(parse_apex_lol_entry(&lines, 1), (String::new(), String::new(), String::new()));
    assert_eq!(
        parse_apex_lol_entry(&lines, 2),
        ("A".to_string(), "late".to_string(), String::new())
    );
}

#[test]
fn entry_keeps_first_rating_only() {
    let lines = strings(&["B", "good tip one", "A", "second tip"]);
    assert_eq!(
        parse_apex_lol_entry(&lines, 0),
        ("B".to_string(), String::new(), "good tip one".to_string())
    );
}

#[test]
fn resolve_link_by_href_or_text() {
    let html = "<a href=\"/zh/champions/\">All</a><a href=\"/zh/champions/ahri\">阿狸</a>";
    assert_eq!(
        resolve_apex_lol_link(html, "Ahri", "/zh/champions/"),
        Some("https://apexlol.info/zh/champions/ahri".to_string())
    );
    assert_eq!(
        resolve_apex_lol_link(html, "阿狸", "/zh/champions/"),
        Some("https://apexlol.info/zh/champions/ahri".to_string())
    );
    assert_eq!(resolve_apex_lol_link(html, "Ahri", "/en/champions/"), None);
    assert_eq!(resolve_apex_lol_link(html, "", "/zh/champions/"), None);
    assert_eq!(resolve_apex_lol_link(html, "Zed", "/zh/champions/"), None);
}

#[test]
fn description_is_first_tip_after_marker() {
    let html = "<p>效果描述</p><p>12</p><p>Gain a shield when casting.</p><p>Later line here</p>";
    assert_eq!(
        extract_apex_lol_description(html),
        Some("Gain a shield when casting.".to_string())
    );
    assert_eq!(extract_apex_lol_description("<p>Gain a shield.</p>"), None);
}

#[test]
fn champion_page_with_entry() {
    let html = "<h2>海克斯联动分析</h2><div>Tank Engine</div><div>S级</div><div>Great with shields and stacks</div>";
    let r = parse_apex_lol_champion_page(html, "Ahri", "Tank Engine", "https://u", "2024-01-01T00:00:00Z")
        .unwrap();
    assert_eq!(r.champion_name, "Ahri");
    assert_eq!(r.augment_name, "Tank Engine");
    assert_eq!(r.rating, "S");
    assert_eq!(r.summary, "");
    assert_eq!(r.tip, "Great with shields and stacks");
    assert_eq!(r.source, "ApexLOL");
    assert_eq!(r.source_url, "https://u");
    assert_eq!(r.fetched_at, "2024-01-01T00:00:00Z");
    assert!(!r.cache_hit);
    assert_eq!(r.status, "ok");
    assert_eq!(r.error, None);
}

#[test]
fn champion_page_without_rating_or_tip() {
    let html = "<h2>海克斯联动分析</h2><div>Tank Engine</div><div>12</div>";
    let r = parse_apex_lol_champion_page(html, "Ahri", "Tank Engine", "u", "t").unwrap();
    assert_eq!(r.status, "no_data");
    assert_eq!(r.rating, "暂无数据");
    assert_eq!(r.error, Some("已找到海克斯名称，但未能稳定解析评分或说明。".to_string()));
}

#[test]
fn champion_page_without_augment() {
    let html = "<h2>海克斯联动分析</h2><div>Other</div>";
    assert!(parse_apex_lol_champion_page(html, "Ahri", "Tank Engine", "u", "t").is_none());
}

#[test]
fn hextech_page_uses_description_as_summary() {
    let html = "<p>效果描述</p><p>Gain a shield when casting.</p><p>关联英雄及联动分析</p><p>Ahri</p><p>A tier</p><p>Works well with charm</p>";
    let r = parse_apex_lol_hextech_page(html, "Ahri", "Shield", "https://h", "t").unwrap();
    assert_eq!(r.rating, "A");
    assert_eq!(r.summary, "Gain a shield when casting.");
    assert_eq!(r.tip, "Works well with charm");
    assert_eq!(r.status, "ok");
    assert_eq!(r.source_url, "https://h");
    assert_eq!(r.error, None);
}

#[test]
fn hextech_page_without_description_uses_entry_summary() {
    let html = "<p>Related Champions &amp; Interactions</p><p>Ahri</p><p>A tier</p>";
    let r = parse_apex_lol_hextech_page(html, "Ahri", "Shield", "h", "t").unwrap();
    assert_eq!(r.rating, "A");
    assert_eq!(r.summary, "tier");
    assert_eq!(r.tip, "");
    assert_eq!(r.status, "ok");
}

#[test]
fn result_builder_fills_every_field() {
    let r = apex_lol_result(
        "c".to_string(),
        "a".to_string(),
        "u".to_string(),
        "t".to_string(),
        true,
        "ok",
        "S",
        "sum",
        "tip",
        Some("e".to_string()),
    );
    assert_eq!(
        (r.champion_name.as_str(), r.augment_name.as_str(), r.source_url.as_str(), r.fetched_at.as_str()),
        ("c", "a", "u", "t")
    );
    assert!(r.cache_hit);
    assert_eq!((r.status.as_str(), r.rating.as_str(), r.summary.as_str(), r.tip.as_str()), ("ok", "S", "sum", "tip"));
    assert_eq!(r.source, "ApexLOL");
    assert_eq!(r.error, Some("e".to_string()));
}
