//! The decisions of an ApexLOL lookup: request checking, the search URL, the
//! result cache, and the choice among what the two locales of the site gave.
use vstd::prelude::*;
use crate::text::{append_chars, str_eq, str_to_string, string_from_chars, to_chars, trim, trim_chars};
use crate::html::meta_content;
use crate::cache::{
    cache_lookup, cache_store, cached_apex_lol_result, lemma_cache_read_after_write, store_apex_lol_result,
    with_cache_hit, ApexLolCacheFile,
};
use crate::apexlol::{
    apex_lol_result, augment_page_markers, base_url, cache_key, champion_page_markers, description,
    find_line, normalize_chars, opt_view, page_result, parse_apex_lol_champion_page,
    parse_apex_lol_hextech_page, resolve_apex_lol_link, resolve_link, result_is, section_lines,
    ApexLolAugmentResult,
};

verus! {

// ---------------------------------------------------------------------------
// Search URL
// ---------------------------------------------------------------------------
/// The text of the URL that `url_with_query` builds from its arguments.
pub uninterp spec fn url_with_query_text(
    base: Seq<char>,
    path: Seq<char>,
    key: Seq<char>,
    value: Seq<char>,
) -> Option<Seq<char>>;

/// Parses `base` with `reqwest::Url::parse` (the `url` crate's `Url`); when it
/// parses, sets the path with `Url::set_path`, appends the pair `key=value` with
/// `Url::query_pairs_mut().append_pair` (form-urlencoded) and serialises the URL
/// with `to_string`.  `None` when `base` does not parse.  The contract names the
/// result `url_with_query_text` of the four arguments; it states nothing more
/// about the text.  `set_path` and `query_pairs_mut` panic once the serialised
/// URL before the query passes `u32::MAX` bytes, and a fragment of `base` is
/// put back after the value, so `base` and `path` are kept short and `base`
/// without a `#`; the value is then free.
#[verifier::external_body]
fn url_with_query(base: &str, path: &str, key: &str, value: &str) -> (r: Option<String>)
    requires
        base@.len() <= 4096,
        path@.len() <= 4096,
        !base@.contains('#'),
    ensures
        opt_view(r) == url_with_query_text(base@, path@, key@, value@),
{
    match reqwest::Url::parse(base) {
        Ok(mut url) => {
            url.set_path(path);
            url.query_pairs_mut().append_pair(key, value);
            Some(url.to_string())
        },
        Err(_) => None,
    }
}

/// The ApexLOL search page for a pair: `/zh/` with `q=<champion> <augment>`, or
/// the site's origin should the origin not parse as a URL.
pub open spec fn search_url(champion_name: Seq<char>, augment_name: Seq<char>) -> Seq<char> {
    match url_with_query_text(base_url(), "/zh/"@, "q"@, champion_name + " "@ + augment_name) {
        Some(u) => u,
        None => base_url(),
    }
}

pub fn apex_lol_search_url(champion_name: &str, augment_name: &str) -> (r: String)
    ensures
        r@ == search_url(champion_name@, augment_name@),
{
    let mut q = to_chars(champion_name);
    q.push(' ');
    append_chars(&mut q, &to_chars(augment_name));
    proof {
        reveal_strlit(" ");
        assert(q@ =~= champion_name@ + " "@ + augment_name@);
    }
    let query = string_from_chars(q.as_slice());
    proof {
        reveal_strlit("https://apexlol.info");
        reveal_strlit("/zh/");
        assert(!"https://apexlol.info"@.contains('#'));
    }
    match url_with_query("https://apexlol.info", "/zh/", "q", query.as_str()) {
        Some(u) => u,
        None => str_to_string("https://apexlol.info"),
    }
}

// ---------------------------------------------------------------------------
// Requests
// ---------------------------------------------------------------------------
/// A request to look up what ApexLOL says about a champion with an augment.
#[derive(Debug, Clone)]
pub struct ApexLolAugmentRequest {
    pub champion_name: String,
    pub augment_name: String,
    pub force_refresh: Option<bool>,
}

/// A request made ready: names trimmed, the refresh flag decided, the cache key
/// computed.
#[derive(Debug, Clone)]
pub struct ApexLolLookup {
    pub champion_name: String,
    pub augment_name: String,
    pub force_refresh: bool,
    pub cache_key: String,
}

pub fn plan_apex_lol_lookup(request: &ApexLolAugmentRequest) -> (r: ApexLolLookup)
    ensures
        r.champion_name@ == trim(request.champion_name@),
        r.augment_name@ == trim(request.augment_name@),
        r.force_refresh == (request.force_refresh == Some(true)),
        r.cache_key@ == cache_key(r.champion_name@, r.augment_name@),
{
    let c = trim_chars(&to_chars(request.champion_name.as_str()));
    let a = trim_chars(&to_chars(request.augment_name.as_str()));
    let mut key = normalize_chars(&c);
    append_chars(&mut key, &to_chars("::"));
    append_chars(&mut key, &normalize_chars(&a));
    ApexLolLookup {
        champion_name: string_from_chars(c.as_slice()),
        augment_name: string_from_chars(a.as_slice()),
        force_refresh: match request.force_refresh {
            Some(b) => b,
            None => false,
        },
        cache_key: string_from_chars(key.as_slice()),
    }
}

/// The answer to a request with an empty name: a failed result that points at
/// the bare search page.  `None` when both names are given.
pub fn apex_lol_empty_name_result(lookup: &ApexLolLookup, fetched_at: &str) -> (r: Option<
    ApexLolAugmentResult,
>)
    ensures
        r is Some <==> (lookup.champion_name@.len() == 0 || lookup.augment_name@.len() == 0),
        r matches Some(res) ==> result_is(res, lookup.champion_name@, lookup.augment_name@,
            search_url(""@, ""@), fetched_at@, false, "failed"@, "暂无数据"@, ""@, ""@,
            Some("championName 和 augmentName 不能为空。"@)),
{
    if lookup.champion_name.as_str().is_empty() || lookup.augment_name.as_str().is_empty() {
        Some(apex_lol_result(
            lookup.champion_name.clone(),
            lookup.augment_name.clone(),
            apex_lol_search_url("", ""),
            str_to_string(fetched_at),
            false,
            "failed",
            "暂无数据",
            "",
            "",
            Some(str_to_string("championName 和 augmentName 不能为空。")),
        ))
    } else {
        None
    }
}

// ---------------------------------------------------------------------------
// The lookup around the site: the cache first, then the site, then the cache
// ---------------------------------------------------------------------------
/// What the cache answers for a lookup: nothing when a refresh is asked for or
/// there is no readable cache; otherwise the stored result, marked as a hit.
pub open spec fn cached_answer(
    lookup: ApexLolLookup,
    results: Option<Map<Seq<char>, ApexLolAugmentResult>>,
) -> Option<ApexLolAugmentResult> {
    if lookup.force_refresh {
        None
    } else {
        match results {
            Some(m) => cache_lookup(m, lookup.cache_key@),
            None => None,
        }
    }
}

/// The cache after a fetched result: the result stored under the lookup's key
/// unless it failed.
pub open spec fn stored_results(
    m: Map<Seq<char>, ApexLolAugmentResult>,
    lookup: ApexLolLookup,
    result: ApexLolAugmentResult,
) -> Map<Seq<char>, ApexLolAugmentResult> {
    if result.status@ != "failed"@ {
        cache_store(m, lookup.cache_key@, result)
    } else {
        m
    }
}

/// What to do with a lookup before the site is read.
#[derive(Debug, Clone)]
pub enum ApexLolLookupStart {
    /// The answer, with no request to the site.
    Answer(ApexLolAugmentResult),
    /// The site has to be read.
    Fetch,
}

pub open spec fn cache_results(cache: Option<ApexLolCacheFile>) -> Option<Map<Seq<char>, ApexLolAugmentResult>> {
    match cache {
        Some(c) => Some(c.results()),
        None => None,
    }
}

/// Starts a lookup: a request with an empty name is answered as failed; else
/// the cache answers unless a refresh is asked for; else the site is read.
/// `cache` is `None` when the cache file could not be read.
pub fn start_apex_lol_lookup(lookup: &ApexLolLookup, cache: &Option<ApexLolCacheFile>, fetched_at: &str) -> (r:
    ApexLolLookupStart)
    requires
        cache is Some ==> cache->0.well_formed(),
    ensures
        lookup.champion_name@.len() == 0 || lookup.augment_name@.len() == 0 ==> (r matches ApexLolLookupStart::Answer(res)
            && result_is(res, lookup.champion_name@, lookup.augment_name@, search_url(""@, ""@), fetched_at@,
            false, "failed"@, "暂无数据"@, ""@, ""@, Some("championName 和 augmentName 不能为空。"@))),
        lookup.champion_name@.len() > 0 && lookup.augment_name@.len() > 0 ==> match cached_answer(
            *lookup,
            cache_results(*cache),
        ) {
            Some(hit) => r == ApexLolLookupStart::Answer(hit),
            None => r is Fetch,
        },
{
    if let Some(res) = apex_lol_empty_name_result(lookup, fetched_at) {
        return ApexLolLookupStart::Answer(res);
    }
    if lookup.force_refresh {
        return ApexLolLookupStart::Fetch;
    }
    match cache {
        Some(c) => match cached_apex_lol_result(c, lookup.cache_key.as_str()) {
            Some(hit) => ApexLolLookupStart::Answer(hit),
            None => ApexLolLookupStart::Fetch,
        },
        None => ApexLolLookupStart::Fetch,
    }
}

/// Ends a lookup that read the site: the result is stored in the cache unless
/// it failed.  Says whether it was stored, that is whether the cache file has
/// to be written.
pub fn finish_apex_lol_lookup(lookup: &ApexLolLookup, result: &ApexLolAugmentResult, cache: &mut ApexLolCacheFile) -> (stored:
    bool)
    requires
        old(cache).well_formed(),
    ensures
        final(cache).well_formed(),
        stored == (result.status@ != "failed"@),
        final(cache).results() == stored_results(old(cache).results(), *lookup, *result),
        final(cache).spec_version() == old(cache).spec_version(),
{
    if should_cache_apex_lol_result(result) {
        store_apex_lol_result(cache, lookup.cache_key.clone(), result);
        true
    } else {
        false
    }
}

/// After a lookup reads the site, a later lookup of the same pair (without a
/// refresh) is answered from the cache with that result, marked as a hit, when
/// it did not fail; a failed result leaves the cache's answer as it was.
pub proof fn lemma_lookup_flow(
    m: Map<Seq<char>, ApexLolAugmentResult>,
    lookup: ApexLolLookup,
    result: ApexLolAugmentResult,
)
    requires
        !lookup.force_refresh,
    ensures
        cached_answer(lookup, Some(stored_results(m, lookup, result))) == if result.status@ != "failed"@ {
            Some(with_cache_hit(result, true))
        } else {
            cached_answer(lookup, Some(m))
        },
{
    if result.status@ != "failed"@ {
        lemma_cache_read_after_write(m, lookup.cache_key@, result);
        assert(with_cache_hit(with_cache_hit(result, false), true) == with_cache_hit(result, true));
    }
}

// ---------------------------------------------------------------------------
// Choosing among the locales
// ---------------------------------------------------------------------------
/// What looking at one locale of the site gave.
#[derive(Debug, Clone)]
pub enum ApexLolLocaleOutcome {
    /// A page was read into a result.
    Parsed(ApexLolAugmentResult),
    /// Nothing was found.
    Unresolved,
    /// The site could not be read; the message says why.
    Failed(String),
}

/// What the locales looked at so far gave: the last failure and the last
/// result without data.
#[derive(Debug, Clone)]
pub struct ApexLolLocaleSearch {
    pub last_error: Option<String>,
    pub no_data_result: Option<ApexLolAugmentResult>,
}

impl ApexLolLocaleSearch {
    pub fn new() -> (r: Self)
        ensures
            r.last_error is None,
            r.no_data_result is None,
    {
        ApexLolLocaleSearch { last_error: None, no_data_result: None }
    }

    /// Takes in one locale's outcome.  A result with status `ok` is the answer and
    /// is handed back; any other result is kept as the latest one without data; a
    /// failure is kept as the latest error.
    pub fn observe(&mut self, outcome: ApexLolLocaleOutcome) -> (r: Option<ApexLolAugmentResult>)
        ensures
            match outcome {
                ApexLolLocaleOutcome::Parsed(res) => if res.status@ == "ok"@ {
                    r == Some(res) && *final(self) == *old(self)
                } else {
                    r is None && final(self).no_data_result == Some(res) && final(self).last_error
                        == old(self).last_error
                },
                ApexLolLocaleOutcome::Unresolved => r is None && *final(self) == *old(self),
                ApexLolLocaleOutcome::Failed(e) => r is None && final(self).last_error == Some(e)
                    && final(self).no_data_result == old(self).no_data_result,
            },
    {
        match outcome {
            ApexLolLocaleOutcome::Parsed(res) => {
                if str_eq(res.status.as_str(), "ok") {
                    Some(res)
                } else {
                    self.no_data_result = Some(res);
                    None
                }
            },
            ApexLolLocaleOutcome::Unresolved => None,
            ApexLolLocaleOutcome::Failed(e) => {
                self.last_error = Some(e);
                None
            },
        }
    }

    /// The answer when no locale gave an `ok` result: the last result without
    /// data, or else a result pointing at the search page, `failed` when a locale
    /// could not be read and `no_data` otherwise.
    pub fn finish(self, champion_name: &str, augment_name: &str, fetched_at: &str) -> (r:
        ApexLolAugmentResult)
        ensures
            match self.no_data_result {
                Some(res) => r == res,
                None => result_is(r, champion_name@, augment_name@,
                    search_url(champion_name@, augment_name@), fetched_at@, false,
                    if self.last_error is Some { "failed"@ } else { "no_data"@ }, "暂无数据"@, ""@, ""@,
                    Some(match self.last_error {
                        Some(e) => e@,
                        None => "未能在 ApexLOL 的英雄页或海克斯页中找到该英雄与海克斯的联动记录。"@,
                    })),
            },
    {
        match self.no_data_result {
            Some(res) => res,
            None => {
                let status = if self.last_error.is_some() { "failed" } else { "no_data" };
                let error = match self.last_error {
                    Some(e) => e,
                    None => str_to_string("未能在 ApexLOL 的英雄页或海克斯页中找到该英雄与海克斯的联动记录。"),
                };
                apex_lol_result(
                    str_to_string(champion_name),
                    str_to_string(augment_name),
                    apex_lol_search_url(champion_name, augment_name),
                    str_to_string(fetched_at),
                    false,
                    status,
                    "暂无数据",
                    "",
                    "",
                    Some(error),
                )
            },
        }
    }
}

/// The answer when the site's HTTP client could not be made.
pub fn apex_lol_client_failure(
    champion_name: &str,
    augment_name: &str,
    fetched_at: &str,
    cause: &str,
) -> (r: ApexLolAugmentResult)
    ensures
        result_is(r, champion_name@, augment_name@, search_url(champion_name@, augment_name@),
            fetched_at@, false, "failed"@, "暂无数据"@, ""@, ""@,
            Some("创建 ApexLOL HTTP 客户端失败: "@ + cause@)),
{
    let mut msg = to_chars("创建 ApexLOL HTTP 客户端失败: ");
    append_chars(&mut msg, &to_chars(cause));
    apex_lol_result(
        str_to_string(champion_name),
        str_to_string(augment_name),
        apex_lol_search_url(champion_name, augment_name),
        str_to_string(fetched_at),
        false,
        "failed",
        "暂无数据",
        "",
        "",
        Some(string_from_chars(msg.as_slice())),
    )
}

/// The answer of a locale whose pages could be read but named neither the
/// champion's augment nor the augment's champion.
pub open spec fn no_match_result(
    r: ApexLolAugmentResult,
    champion_url: Option<Seq<char>>,
    hextech_url: Option<Seq<char>>,
    champion_index_html: Seq<char>,
    champion_name: Seq<char>,
    augment_name: Seq<char>,
    fetched_at: Seq<char>,
) -> bool {
    result_is(r, champion_name, augment_name, match champion_url {
        Some(u) => u,
        None => match hextech_url {
            Some(u) => u,
            None => search_url(champion_name, augment_name),
        },
    }, fetched_at, false, "no_data"@, "暂无数据"@,
        match meta_content(champion_index_html, "description"@) {
            Some(d) => d,
            None => "ApexLOL 暂无可解析的联动摘要。"@,
        }, ""@, Some("ApexLOL 页面可访问，但未定位到该英雄与海克斯的联动记录。"@))
}

/// The answer of a locale whose pages could be read but named neither the
/// champion's augment nor the augment's champion: the source is the champion
/// page, else the augment page, else the search page; the summary is the
/// description of the champion index page when it has one.
pub fn apex_lol_locale_no_match(
    champion_url: Option<String>,
    hextech_url: Option<String>,
    champion_index_html: &str,
    champion_name: &str,
    augment_name: &str,
    fetched_at: &str,
) -> (r: ApexLolAugmentResult)
    ensures
        no_match_result(r, opt_view(champion_url), opt_view(hextech_url), champion_index_html@,
            champion_name@, augment_name@, fetched_at@),
{
    let source_url = match champion_url {
        Some(u) => u,
        None => match hextech_url {
            Some(u) => u,
            None => apex_lol_search_url(champion_name, augment_name),
        },
    };
    let summary = match crate::html::extract_meta_description(champion_index_html) {
        Some(d) => d,
        None => str_to_string("ApexLOL 暂无可解析的联动摘要。"),
    };
    apex_lol_result(
        str_to_string(champion_name),
        str_to_string(augment_name),
        source_url,
        str_to_string(fetched_at),
        false,
        "no_data",
        "暂无数据",
        summary.as_str(),
        "",
        Some(str_to_string("ApexLOL 页面可访问，但未定位到该英雄与海克斯的联动记录。")),
    )
}

/// Whether a result is worth keeping in the cache: everything but failures.
pub fn should_cache_apex_lol_result(result: &ApexLolAugmentResult) -> (r: bool)
    ensures
        r == (result.status@ != "failed"@),
{
    !str_eq(result.status.as_str(), "failed")
}

/// Adds to a result's error that the cache could not be written.
pub fn note_cache_write_failure(result: &mut ApexLolAugmentResult, cause: &str)
    ensures
        final(result).error == Some(final(result).error->0),
        opt_view(final(result).error) == Some(match old(result).error {
            Some(e) => e@ + "；写入 ApexLOL 缓存失败: "@ + cause@,
            None => "写入 ApexLOL 缓存失败: "@ + cause@,
        }),
        final(result).champion_name == old(result).champion_name,
        final(result).augment_name == old(result).augment_name,
        final(result).rating == old(result).rating,
        final(result).summary == old(result).summary,
        final(result).tip == old(result).tip,
        final(result).source == old(result).source,
        final(result).source_url == old(result).source_url,
        final(result).fetched_at == old(result).fetched_at,
        final(result).cache_hit == old(result).cache_hit,
        final(result).status == old(result).status,
{
    let msg = match &result.error {
        Some(e) => {
            let mut m = to_chars(e.as_str());
            append_chars(&mut m, &to_chars("；写入 ApexLOL 缓存失败: "));
            append_chars(&mut m, &to_chars(cause));
            m
        },
        None => {
            let mut m = to_chars("写入 ApexLOL 缓存失败: ");
            append_chars(&mut m, &to_chars(cause));
            m
        },
    };
    result.error = Some(string_from_chars(msg.as_slice()));
}

// ---------------------------------------------------------------------------
// Reading one locale of the site
// ---------------------------------------------------------------------------
/// The two locales of the site, in the order they are read.
pub fn apex_lol_locale(index: usize) -> (r: Option<&'static str>)
    ensures
        index == 0 ==> (r matches Some(l) && l@ == "zh"@),
        index == 1 ==> (r matches Some(l) && l@ == "en"@),
        index > 1 ==> r is None,
{
    if index == 0 {
        Some("zh")
    } else if index == 1 {
        Some("en")
    } else {
        None
    }
}

/// `/<locale>/<section>/`, the path of a section of the site in a locale.
pub open spec fn locale_path(locale: Seq<char>, section: Seq<char>) -> Seq<char> {
    "/"@ + locale + "/"@ + section + "/"@
}

/// The page a locale lookup waits for.
#[derive(Debug, Clone, Copy, PartialEq, Eq, Structural)]
pub enum ApexLolPage {
    /// The list of champions.
    ChampionIndex,
    /// The champion's own page.
    ChampionPage,
    /// The list of augments.
    HextechIndex,
    /// The augment's own page.
    HextechPage,
}

/// A lookup of one pair in one locale of the site, between two pages.
#[derive(Debug, Clone)]
pub struct ApexLolLocaleFetch {
    pub locale: String,
    pub champion_name: String,
    pub augment_name: String,
    pub fetched_at: String,
    /// The page whose HTML is awaited.
    pub page: ApexLolPage,
    /// The list of champions, once read.
    pub champion_index_html: String,
    /// The champion's page, once found in the list.
    pub champion_url: Option<String>,
    /// The augment's page, once found in the list.
    pub hextech_url: Option<String>,
}

/// What to do next: read the page at the URL, or stop with the locale's answer.
#[derive(Debug, Clone)]
pub enum ApexLolLocaleStep {
    Fetch(String),
    Done(ApexLolAugmentResult),
}

/// The position of a page in the order the pages are read.
pub open spec fn page_rank(page: ApexLolPage) -> int {
    match page {
        ApexLolPage::ChampionIndex => 0,
        ApexLolPage::ChampionPage => 1,
        ApexLolPage::HextechIndex => 2,
        ApexLolPage::HextechPage => 3,
    }
}

pub open spec fn fetches(step: ApexLolLocaleStep, url: Seq<char>) -> bool {
    step matches ApexLolLocaleStep::Fetch(u) && u@ == url
}

impl ApexLolLocaleFetch {
    /// A page is awaited only once the URL it is read from is known.
    pub open spec fn well_formed(&self) -> bool {
        &&& self.page == ApexLolPage::ChampionPage ==> self.champion_url is Some
        &&& self.page == ApexLolPage::HextechPage ==> self.hextech_url is Some
    }

    /// The same lookup (locale, names, time) as `other`.
    pub open spec fn same_lookup(&self, other: &Self) -> bool {
        &&& self.locale == other.locale
        &&& self.champion_name == other.champion_name
        &&& self.augment_name == other.augment_name
        &&& self.fetched_at == other.fetched_at
    }

    /// Starts a lookup: the list of champions of the locale is read first.
    pub fn start(locale: &str, champion_name: &str, augment_name: &str, fetched_at: &str) -> (r: (
        Self,
        String,
    ))
        ensures
            r.0.well_formed(),
            r.0.locale@ == locale@,
            r.0.champion_name@ == champion_name@,
            r.0.augment_name@ == augment_name@,
            r.0.fetched_at@ == fetched_at@,
            r.0.page == ApexLolPage::ChampionIndex,
            r.0.champion_url is None,
            r.0.hextech_url is None,
            r.1@ == base_url() + locale_path(locale@, "champions"@),
    {
        let url = section_url(locale, "champions");
        (
            ApexLolLocaleFetch {
                locale: str_to_string(locale),
                champion_name: str_to_string(champion_name),
                augment_name: str_to_string(augment_name),
                fetched_at: str_to_string(fetched_at),
                page: ApexLolPage::ChampionIndex,
                champion_index_html: String::new(),
                champion_url: None,
                hextech_url: None,
            },
            url,
        )
    }

    /// Takes in the HTML of the awaited page and says what to do next.
    ///
    /// - The list of champions: the champion's page is read next when the list
    ///   links to it, the list of augments otherwise.
    /// - The champion's page: when it names the augment, its entry is the
    ///   answer; otherwise the list of augments is read next.
    /// - The list of augments: the augment's page is read next when the list
    ///   links to it; otherwise the locale has no match.
    /// - The augment's page: when it names the champion, its entry is the
    ///   answer; otherwise the locale has no match.
    pub fn on_html(&mut self, html: &str) -> (r: ApexLolLocaleStep)
        requires
            old(self).well_formed(),
        ensures
            final(self).well_formed(),
            final(self).same_lookup(old(self)),
            r is Fetch ==> page_rank(final(self).page) > page_rank(old(self).page),
            ({
                let s = *old(self);
                let f = *final(self);
                match s.page {
                    ApexLolPage::ChampionIndex => {
                        let link = resolve_link(html@, s.champion_name@, locale_path(s.locale@, "champions"@));
                        &&& f.champion_index_html@ == html@
                        &&& opt_view(f.champion_url) == link
                        &&& f.hextech_url == s.hextech_url
                        &&& match link {
                            Some(u) => f.page == ApexLolPage::ChampionPage && fetches(r, u),
                            None => f.page == ApexLolPage::HextechIndex && fetches(r, base_url()
                                + locale_path(s.locale@, "hextech"@)),
                        }
                    },
                    ApexLolPage::ChampionPage => {
                        let lines = section_lines(html@, champion_page_markers());
                        if find_line(lines, s.augment_name@) is Some {
                            r matches ApexLolLocaleStep::Done(res) && page_result(Some(res), lines,
                                s.augment_name@, s.champion_name@, s.augment_name@,
                                s.champion_url->0@, s.fetched_at@, None,
                                "已找到海克斯名称，但未能稳定解析评分或说明。"@)
                        } else {
                            &&& f.page == ApexLolPage::HextechIndex
                            &&& f.champion_index_html == s.champion_index_html
                            &&& f.champion_url == s.champion_url
                            &&& f.hextech_url == s.hextech_url
                            &&& fetches(r, base_url() + locale_path(s.locale@, "hextech"@))
                        }
                    },
                    ApexLolPage::HextechIndex => {
                        let link = resolve_link(html@, s.augment_name@, locale_path(s.locale@, "hextech"@));
                        match link {
                            Some(u) => {
                                &&& f.page == ApexLolPage::HextechPage
                                &&& opt_view(f.hextech_url) == link
                                &&& f.champion_index_html == s.champion_index_html
                                &&& f.champion_url == s.champion_url
                                &&& fetches(r, u)
                            },
                            None => r matches ApexLolLocaleStep::Done(res) && no_match_result(res,
                                opt_view(s.champion_url), None, s.champion_index_html@,
                                s.champion_name@, s.augment_name@, s.fetched_at@),
                        }
                    },
                    ApexLolPage::HextechPage => {
                        let lines = section_lines(html@, augment_page_markers());
                        if find_line(lines, s.champion_name@) is Some {
                            r matches ApexLolLocaleStep::Done(res) && page_result(Some(res), lines,
                                s.champion_name@, s.champion_name@, s.augment_name@,
                                s.hextech_url->0@, s.fetched_at@, description(html@),
                                "已找到英雄名称，但未能稳定解析评分或说明。"@)
                        } else {
                            r matches ApexLolLocaleStep::Done(res) && no_match_result(res,
                                opt_view(s.champion_url), opt_view(s.hextech_url),
                                s.champion_index_html@, s.champion_name@, s.augment_name@,
                                s.fetched_at@)
                        }
                    },
                }
            }),
    {
        match self.page {
            ApexLolPage::ChampionIndex => {
                let prefix = section_path(self.locale.as_str(), "champions");
                let link = resolve_apex_lol_link(html, self.champion_name.as_str(), prefix.as_str());
                self.champion_index_html = str_to_string(html);
                match link {
                    Some(u) => {
                        self.champion_url = Some(u.clone());
                        self.page = ApexLolPage::ChampionPage;
                        ApexLolLocaleStep::Fetch(u)
                    },
                    None => {
                        self.champion_url = None;
                        self.page = ApexLolPage::HextechIndex;
                        ApexLolLocaleStep::Fetch(section_url(self.locale.as_str(), "hextech"))
                    },
                }
            },
            ApexLolPage::ChampionPage => {
                let url = match &self.champion_url {
                    Some(u) => u.clone(),
                    None => String::new(),
                };
                match parse_apex_lol_champion_page(
                    html,
                    self.champion_name.as_str(),
                    self.augment_name.as_str(),
                    url.as_str(),
                    self.fetched_at.as_str(),
                ) {
                    Some(res) => ApexLolLocaleStep::Done(res),
                    None => {
                        self.page = ApexLolPage::HextechIndex;
                        ApexLolLocaleStep::Fetch(section_url(self.locale.as_str(), "hextech"))
                    },
                }
            },
            ApexLolPage::HextechIndex => {
                let prefix = section_path(self.locale.as_str(), "hextech");
                match resolve_apex_lol_link(html, self.augment_name.as_str(), prefix.as_str()) {
                    Some(u) => {
                        self.hextech_url = Some(u.clone());
                        self.page = ApexLolPage::HextechPage;
                        ApexLolLocaleStep::Fetch(u)
                    },
                    None => ApexLolLocaleStep::Done(apex_lol_locale_no_match(
                        self.champion_url.clone(),
                        None,
                        self.champion_index_html.as_str(),
                        self.champion_name.as_str(),
                        self.augment_name.as_str(),
                        self.fetched_at.as_str(),
                    )),
                }
            },
            ApexLolPage::HextechPage => {
                let url = match &self.hextech_url {
                    Some(u) => u.clone(),
                    None => String::new(),
                };
                match parse_apex_lol_hextech_page(
                    html,
                    self.champion_name.as_str(),
                    self.augment_name.as_str(),
                    url.as_str(),
                    self.fetched_at.as_str(),
                ) {
                    Some(res) => ApexLolLocaleStep::Done(res),
                    None => ApexLolLocaleStep::Done(apex_lol_locale_no_match(
                        self.champion_url.clone(),
                        self.hextech_url.clone(),
                        self.champion_index_html.as_str(),
                        self.champion_name.as_str(),
                        self.augment_name.as_str(),
                        self.fetched_at.as_str(),
                    )),
                }
            },
        }
    }
}

fn section_path(locale: &str, section: &str) -> (r: String)
    ensures
        r@ == locale_path(locale@, section@),
{
    let mut v: Vec<char> = Vec::new();
    v.push('/');
    append_chars(&mut v, &to_chars(locale));
    v.push('/');
    append_chars(&mut v, &to_chars(section));
    v.push('/');
    proof {
        reveal_strlit("/");
        assert(v@ =~= locale_path(locale@, section@));
    }
    string_from_chars(v.as_slice())
}

fn section_url(locale: &str, section: &str) -> (r: String)
    ensures
        r@ == base_url() + locale_path(locale@, section@),
{
    let mut v = to_chars("https://apexlol.info");
    let p = section_path(locale, section);
    append_chars(&mut v, &to_chars(p.as_str()));
    string_from_chars(v.as_slice())
}

} // verus!
