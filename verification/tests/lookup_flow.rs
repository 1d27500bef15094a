use screen_capture_diagnostic::apexlol::{apex_lol_result, ApexLolAugmentResult};
use screen_capture_diagnostic::cache::empty_apex_lol_cache;
use screen_capture_diagnostic::lookup::{
    finish_apex_lol_lookup, start_apex_lol_lookup, ApexLolLookupStart,
    apex_lol_client_failure, apex_lol_empty_name_result, apex_lol_locale, apex_lol_locale_no_match,
    apex_lol_search_url, note_cache_write_failure, plan_apex_lol_lookup,
    should_cache_apex_lol_result, ApexLolAugmentRequest, ApexLolLocaleFetch, ApexLolLocaleOutcome,
    ApexLolLocaleSearch, ApexLolLocaleStep, ApexLolPage,
};

fn result(status: &str) -> ApexLolAugmentResult {
    apex_lol_result(
        "Ahri".to_string(),
        "Tank".to_string(),
        "u".to_string(),
        "t".to_string(),
        false,
        status,
        "S",
        "",
        "",
        None,
    )
}

#[test]
fn search_url_encodes_the_query() {
    assert_eq!(apex_lol_search_url("Ahri", "Tank"), "https://apexlol.info/zh/?q=Ahri+Tank");
    assert_eq!(
        apex_lol_search_url("阿狸", "坦克引擎"),
        "https://apexlol.info/zh/?q=%E9%98%BF%E7%8B%B8+%E5%9D%A6%E5%85%8B%E5%BC%95%E6%93%8E"
    );
    assert_eq!(apex_lol_search_url("Ahri", "Tank & Co"), "https://apexlol.info/zh/?q=Ahri+Tank+%26+Co");
    assert_eq!(apex_lol_search_url("", ""), "https://apexlol.info/zh/?q=+");
}

#[test]
fn plan_trims_names_and_keys_them() {
    let plan = plan_apex_lol_lookup(&ApexLolAugmentRequest {
        champion_name: "  Ahri ".to_string(),
        augment_name: "Tank Engine".to_string(),
        force_refresh: None,
    });
    assert_eq!(plan.champion_name, "Ahri");
    assert_eq!(plan.augment_name, "Tank Engine");
    assert!(!plan.force_refresh);
    assert_eq!(plan.cache_key, "AHRI::TANKENGINE");
    let forced = plan_apex_lol_lookup(&ApexLolAugmentRequest {
        champion_name: "a".to_string(),
        augment_name: "b".to_string(),
        force_refresh: Some(true),
    });
    assert!(forced.force_refresh);
}

#[test]
fn empty_name_is_answered_without_lookup() {
    let plan = plan_apex_lol_lookup(&ApexLolAugmentRequest {
        champion_name: "   ".to_string(),
        augment_name: "Tank".to_string(),
        force_refresh: Some(false),
    });
    let r = apex_lol_empty_name_result(&plan, "t").unwrap();
    assert_eq!(r.status, "failed");
    assert_eq!(r.rating, "暂无数据");
    assert_eq!(r.source_url, "https://apexlol.info/zh/?q=+");
    assert_eq!(r.champion_name, "");
    assert_eq!(r.error, Some("championName 和 augmentName 不能为空。".to_string()));
    let full = plan_apex_lol_lookup(&ApexLolAugmentRequest {
        champion_name: "Ahri".to_string(),
        augment_name: "Tank".to_string(),
        force_refresh: None,
    });
    assert!(apex_lol_empty_name_result(&full, "t").is_none());
}

#[test]
fn locales_in_order() {
    assert_eq!(apex_lol_locale(0), Some("zh"));
    assert_eq!(apex_lol_locale(1), Some("en"));
    assert_eq!(apex_lol_locale(2), None);
}

#[test]
fn ok_result_ends_the_search() {
    let mut search = ApexLolLocaleSearch::new();
    assert!(search.observe(ApexLolLocaleOutcome::Failed("boom".to_string())).is_none());
    let ok = search.observe(ApexLolLocaleOutcome::Parsed(result("ok"))).unwrap();
    assert_eq!(ok.status, "ok");
}

#[test]
fn failure_without_data_gives_failed_answer() {
    let mut search = ApexLolLocaleSearch::new();
    assert!(search.observe(ApexLolLocaleOutcome::Failed("boom".to_string())).is_none());
    assert!(search.observe(ApexLolLocaleOutcome::Unresolved).is_none());
    let r = search.finish("Ahri", "Tank", "t");
    assert_eq!(r.status, "failed");
    assert_eq!(r.error, Some("boom".to_string()));
    assert_eq!(r.source_url, "https://apexlol.info/zh/?q=Ahri+Tank");
}

#[test]
fn no_data_result_is_preferred_over_failure() {
    let mut search = ApexLolLocaleSearch::new();
    assert!(search.observe(ApexLolLocaleOutcome::Parsed(result("no_data"))).is_none());
    assert!(search.observe(ApexLolLocaleOutcome::Failed("later".to_string())).is_none());
    let r = search.finish("Ahri", "Tank", "t");
    assert_eq!(r.status, "no_data");
    assert_eq!(r.source_url, "u");
}

#[test]
fn nothing_found_gives_no_data_answer() {
    let search = ApexLolLocaleSearch::new();
    let r = search.finish("Ahri", "Tank", "t");
    assert_eq!(r.status, "no_data");
    assert_eq!(
        r.error,
        Some("未能在 ApexLOL 的英雄页或海克斯页中找到该英雄与海克斯的联动记录。".to_string())
    );
}

#[test]
fn client_failure_message() {
    let r = apex_lol_client_failure("Ahri", "Tank", "t", "tls");
    assert_eq!(r.status, "failed");
    assert_eq!(r.error, Some("创建 ApexLOL HTTP 客户端失败: tls".to_string()));
    assert_eq!(r.source_url, "https://apexlol.info/zh/?q=Ahri+Tank");
}

#[test]
fn no_match_prefers_champion_then_hextech_then_search() {
    let html = "<meta name=\"description\" content=\"Index page\">";
    let a = apex_lol_locale_no_match(Some("c".to_string()), Some("h".to_string()), html, "Ahri", "Tank", "t");
    assert_eq!(a.source_url, "c");
    assert_eq!(a.summary, "Index page");
    assert_eq!(a.status, "no_data");
    assert_eq!(a.error, Some("ApexLOL 页面可访问，但未定位到该英雄与海克斯的联动记录。".to_string()));
    let b = apex_lol_locale_no_match(None, Some("h".to_string()), "", "Ahri", "Tank", "t");
    assert_eq!(b.source_url, "h");
    assert_eq!(b.summary, "ApexLOL 暂无可解析的联动摘要。");
    let c = apex_lol_locale_no_match(None, None, "", "Ahri", "Tank", "t");
    assert_eq!(c.source_url, "https://apexlol.info/zh/?q=Ahri+Tank");
}

#[test]
fn cache_only_what_did_not_fail() {
    assert!(should_cache_apex_lol_result(&result("ok")));
    assert!(should_cache_apex_lol_result(&result("no_data")));
    assert!(!should_cache_apex_lol_result(&result("failed")));
}

#[test]
fn cache_write_failure_is_appended_to_error() {
    let mut r = result("ok");
    note_cache_write_failure(&mut r, "disk full");
    assert_eq!(r.error, Some("写入 ApexLOL 缓存失败: disk full".to_string()));
    note_cache_write_failure(&mut r, "again");
    assert_eq!(
        r.error,
        Some("写入 ApexLOL 缓存失败: disk full；写入 ApexLOL 缓存失败: again".to_string())
    );
    assert_eq!(r.status, "ok");
}

fn fetch_url(step: &ApexLolLocaleStep) -> String {
    match step {
        ApexLolLocaleStep::Fetch(u) => u.clone(),
        ApexLolLocaleStep::Done(_) => panic!("expected a page to fetch"),
    }
}

#[test]
fn locale_lookup_through_champion_page() {
    let (mut fetch, url) = ApexLolLocaleFetch::start("zh", "Ahri", "Tank Engine", "t");
    assert_eq!(url, "https://apexlol.info/zh/champions/");
    assert_eq!(fetch.page, ApexLolPage::ChampionIndex);
    let step = fetch.on_html("<a href=\"/zh/champions/ahri\">阿狸</a>");
    assert_eq!(fetch_url(&step), "https://apexlol.info/zh/champions/ahri");
    assert_eq!(fetch.page, ApexLolPage::ChampionPage);
    let step = fetch.on_html("<p>海克斯联动分析</p><p>Tank Engine</p><p>SS</p><p>Stacks fast with shields</p>");
    match step {
        ApexLolLocaleStep::Done(r) => {
            assert_eq!(r.status, "ok");
            assert_eq!(r.rating, "SS");
            assert_eq!(r.tip, "Stacks fast with shields");
            assert_eq!(r.source_url, "https://apexlol.info/zh/champions/ahri");
        },
        ApexLolLocaleStep::Fetch(_) => panic!("expected an answer"),
    }
}

#[test]
fn locale_lookup_falls_back_to_hextech_pages() {
    let (mut fetch, _) = ApexLolLocaleFetch::start("en", "Ahri", "Tank Engine", "t");
    let step = fetch.on_html("<a href=\"/en/champions/zed\">Zed</a>");
    assert_eq!(fetch_url(&step), "https://apexlol.info/en/hextech/");
    assert_eq!(fetch.page, ApexLolPage::HextechIndex);
    let step = fetch.on_html("<a href=\"/en/hextech/tank-engine\">Tank Engine</a>");
    assert_eq!(fetch_url(&step), "https://apexlol.info/en/hextech/tank-engine");
    assert_eq!(fetch.page, ApexLolPage::HextechPage);
    let step = fetch.on_html("<p>Nothing about the champion</p>");
    match step {
        ApexLolLocaleStep::Done(r) => {
            assert_eq!(r.status, "no_data");
            assert_eq!(r.source_url, "https://apexlol.info/en/hextech/tank-engine");
        },
        ApexLolLocaleStep::Fetch(_) => panic!("expected an answer"),
    }
}

#[test]
fn locale_lookup_without_any_link() {
    let (mut fetch, _) = ApexLolLocaleFetch::start("zh", "Ahri", "Tank", "t");
    let step = fetch.on_html("<meta name=\"description\" content=\"Champions\">");
    assert_eq!(fetch_url(&step), "https://apexlol.info/zh/hextech/");
    match fetch.on_html("<p>no links</p>") {
        ApexLolLocaleStep::Done(r) => {
            assert_eq!(r.source_url, "https://apexlol.info/zh/?q=Ahri+Tank");
            assert_eq!(r.summary, "Champions");
        },
        ApexLolLocaleStep::Fetch(_) => panic!("expected an answer"),
    }
}

fn plan(champion: &str, augment: &str, force: Option<bool>) -> screen_capture_diagnostic::lookup::ApexLolLookup {
    plan_apex_lol_lookup(&ApexLolAugmentRequest {
        champion_name: champion.to_string(),
        augment_name: augment.to_string(),
        force_refresh: force,
    })
}

#[test]
fn lookup_flow_reads_the_cache_after_a_store() {
    let lookup = plan("Ahri", "Tank", None);
    let mut cache = empty_apex_lol_cache();
    assert!(matches!(start_apex_lol_lookup(&lookup, &Some(empty_apex_lol_cache()), "t"), ApexLolLookupStart::Fetch));
    assert!(finish_apex_lol_lookup(&lookup, &result("ok"), &mut cache));
    match start_apex_lol_lookup(&lookup, &Some(cache), "t") {
        ApexLolLookupStart::Answer(r) => {
            assert!(r.cache_hit);
            assert_eq!(r.status, "ok");
        },
        ApexLolLookupStart::Fetch => panic!("expected the cached answer"),
    }
}

#[test]
fn lookup_flow_keeps_failures_out_and_refreshes() {
    let lookup = plan("Ahri", "Tank", None);
    let mut cache = empty_apex_lol_cache();
    assert!(!finish_apex_lol_lookup(&lookup, &result("failed"), &mut cache));
    assert_eq!(cache.len(), 0);
    assert!(matches!(start_apex_lol_lookup(&lookup, &None, "t"), ApexLolLookupStart::Fetch));
    let forced = plan("Ahri", "Tank", Some(true));
    let mut full = empty_apex_lol_cache();
    assert!(finish_apex_lol_lookup(&forced, &result("no_data"), &mut full));
    assert!(matches!(start_apex_lol_lookup(&forced, &Some(full), "t"), ApexLolLookupStart::Fetch));
    match start_apex_lol_lookup(&plan(" ", "Tank", None), &None, "t") {
        ApexLolLookupStart::Answer(r) => assert_eq!(r.status, "failed"),
        ApexLolLookupStart::Fetch => panic!("expected the empty-name answer"),
    }
}
