//! Capture diagnostics: targets, monitor choice, sample names, image hashes,
//! summaries and the overlay window's status answers.
use vstd::prelude::*;
use sha2::Digest;
use crate::text::{
    append_chars, decimal, decimal_chars, has_prefix, parse_usize, parse_usize_chars,
    starts_with_chars, str_eq, str_to_string, string_from_chars, subrange_chars, to_chars, trim,
    trim_chars,
};
use crate::overlay::{seq_views, RectInfo};

verus! {

/// A request to run the capture diagnostic.
#[derive(Debug, Clone)]
pub struct CaptureRequest {
    pub save_samples: bool,
    pub delay_seconds: u64,
}

/// A request to take a calibration screenshot.
#[derive(Debug, Clone)]
pub struct CalibrationSnapshotRequest {
    pub monitor_id: Option<String>,
    pub delay_seconds: u64,
    pub save_sample: bool,
}

/// Something that can be captured.
#[derive(Debug, Clone)]
pub struct CaptureTarget {
    pub kind: String,
    pub id: String,
    pub label: String,
    pub bounds: Option<RectInfo>,
}

/// The machine the diagnostic runs on.
#[derive(Debug, Clone)]
pub struct EnvironmentSnapshot {
    pub os: String,
    pub arch: String,
    pub family: String,
    pub app_data_dir: String,
    pub rust_target_os: String,
    pub rust_target_arch: String,
}

/// The monitor a calibration screenshot was taken from.
#[derive(Debug, Clone)]
pub struct CalibrationMonitorInfo {
    pub id: String,
    pub name: String,
    pub is_primary: bool,
    pub bounds: RectInfo,
}

/// The answer to closing the overlay window.
#[derive(Debug, Clone)]
pub struct OverlayPocCloseResult {
    pub label: String,
    pub closed: bool,
    pub message: String,
}

/// The answer to switching the overlay's click-through.
#[derive(Debug, Clone)]
pub struct OverlayPocClickThroughResult {
    pub label: String,
    pub requested: bool,
    pub applied: bool,
    pub supported: bool,
    pub message: String,
}

/// The overlay window's label.
pub open spec fn overlay_label() -> Seq<char> {
    "overlay-poc"@
}

// ---------------------------------------------------------------------------
// Delays
// ---------------------------------------------------------------------------
/// The delay before a capture, at most 30 seconds.
pub fn capture_delay_seconds(requested: u64) -> (r: u64)
    ensures
        r == (if requested < 30 { requested } else { 30 }),
{
    if requested < 30 {
        requested
    } else {
        30
    }
}

// ---------------------------------------------------------------------------
// Targets and monitors
// ---------------------------------------------------------------------------
pub open spec fn monitor_id_text(index: nat) -> Seq<char> {
    "monitor-"@ + decimal(index)
}

/// The name shown for monitor `index` when it has none: numbered from 1.
pub open spec fn monitor_fallback_name(index: nat) -> Seq<char> {
    "显示器 "@ + decimal(index + 1)
}

fn monitor_id_string(index: usize) -> (r: String)
    ensures
        r@ == monitor_id_text(index as nat),
{
    let mut m = to_chars("monitor-");
    append_chars(&mut m, &decimal_chars(index as u64));
    string_from_chars(m.as_slice())
}

fn monitor_fallback_string(index: usize) -> (r: String)
    requires
        index < usize::MAX,
    ensures
        r@ == monitor_fallback_name(index as nat),
{
    let mut m = to_chars("显示器 ");
    append_chars(&mut m, &decimal_chars((index + 1) as u64));
    string_from_chars(m.as_slice())
}

/// What the diagnostic could read of one monitor.
#[derive(Debug, Clone)]
pub struct MonitorFacts {
    pub friendly_name: Option<String>,
    pub is_primary: bool,
    pub bounds: Option<RectInfo>,
}

/// The capture targets where real capture is unavailable: one placeholder.
pub fn list_capture_targets() -> (r: Vec<CaptureTarget>)
    ensures
        r@.len() == 1,
        r@[0].kind@ == "platform"@,
        r@[0].id@ == "unsupported"@,
        r@[0].label@ == "当前不是 Windows，真实截图诊断需在 Windows 桌面环境运行"@,
        r@[0].bounds is None,
{
    let mut v: Vec<CaptureTarget> = Vec::new();
    v.push(CaptureTarget {
        kind: str_to_string("platform"),
        id: str_to_string("unsupported"),
        label: str_to_string("当前不是 Windows，真实截图诊断需在 Windows 桌面环境运行"),
        bounds: None,
    });
    v
}

/// One capture target per monitor, in order: `monitor-<index>`, labelled by the
/// monitor's name or its number.
pub fn capture_targets_from_monitors(monitors: &Vec<MonitorFacts>) -> (r: Vec<CaptureTarget>)
    requires
        monitors@.len() < usize::MAX,
    ensures
        r@.len() == monitors@.len(),
        forall|i: int|
            0 <= i < r@.len() ==> {
                let t = #[trigger] r@[i];
                let m = monitors@[i];
                &&& t.kind@ == "monitor"@
                &&& t.id@ == monitor_id_text(i as nat)
                &&& t.label@ == match m.friendly_name {
                    Some(n) => n@,
                    None => monitor_fallback_name(i as nat),
                }
                &&& t.bounds == m.bounds
            },
{
    let mut out: Vec<CaptureTarget> = Vec::new();
    let mut i: usize = 0;
    while i < monitors.len()
        invariant
            i <= monitors@.len() < usize::MAX,
            out@.len() == i,
            forall|k: int|
                0 <= k < i ==> {
                    let t = #[trigger] out@[k];
                    let m = monitors@[k];
                    &&& t.kind@ == "monitor"@
                    &&& t.id@ == monitor_id_text(k as nat)
                    &&& t.label@ == match m.friendly_name {
                        Some(n) => n@,
                        None => monitor_fallback_name(k as nat),
                    }
                    &&& t.bounds == m.bounds
                },
        decreases monitors.len() - i,
    {
        let m = &monitors[i];
        let label = match &m.friendly_name {
            Some(n) => n.clone(),
            None => monitor_fallback_string(i),
        };
        out.push(CaptureTarget {
            kind: str_to_string("monitor"),
            id: monitor_id_string(i),
            label,
            bounds: m.bounds,
        });
        i = i + 1;
    }
    out
}

/// The monitor for a calibration screenshot: the one an id `monitor-<n>` names
/// (other ids are refused), else the primary one, else the first.
pub open spec fn calibration_monitor(primary: Seq<bool>, monitor_id: Option<Seq<char>>) -> Result<int, Seq<char>> {
    if primary.len() == 0 {
        Err("未找到可捕获的显示器"@)
    } else {
        match monitor_id {
            Some(id) => if trim(id).len() > 0 {
                if !has_prefix(id, "monitor-"@) {
                    Err("不支持的显示器编号: "@ + id)
                } else {
                    match parse_usize(id.skip(8)) {
                        None => Err("不支持的显示器编号: "@ + id),
                        Some(k) => if k < primary.len() {
                            Ok(k as int)
                        } else {
                            Err("未找到显示器: "@ + id)
                        },
                    }
                }
            } else {
                Ok(first_primary(primary))
            },
            None => Ok(first_primary(primary)),
        }
    }
}

/// The first primary monitor, or the first monitor.
pub open spec fn first_primary(primary: Seq<bool>) -> int {
    if exists|i: int| 0 <= i < primary.len() && primary[i] {
        choose|i: int| 0 <= i < primary.len() && primary[i] && forall|j: int| 0 <= j < i ==> !primary[j]
    } else {
        0
    }
}

fn error_with_id(prefix: &str, id: &str) -> (r: String)
    ensures
        r@ == prefix@ + id@,
{
    let mut m = to_chars(prefix);
    append_chars(&mut m, &to_chars(id));
    string_from_chars(m.as_slice())
}

/// Picks the monitor for a calibration screenshot (see [`calibration_monitor`]);
/// `primary[i]` says whether monitor `i` is the primary one.
pub fn select_monitor_index(primary: &Vec<bool>, monitor_id: Option<&str>) -> (r: Result<usize, String>)
    ensures
        match calibration_monitor(primary@, match monitor_id {
            Some(id) => Some(id@),
            None => None,
        }) {
            Ok(k) => r matches Ok(i) && i == k && i < primary@.len(),
            Err(e) => r matches Err(m) && m@ == e,
        },
{
    let n = primary.len();
    if n == 0 {
        return Err(str_to_string("未找到可捕获的显示器"));
    }
    match monitor_id {
        Some(id) => {
            let idc = to_chars(id);
            if trim_chars(&idc).len() > 0 {
                let prefix = to_chars("monitor-");
                proof {
                    reveal_strlit("monitor-");
                }
                if !starts_with_chars(&idc, &prefix) {
                    return Err(error_with_id("不支持的显示器编号: ", id));
                }
                let rest = subrange_chars(&idc, 8, idc.len());
                assert(rest@ =~= idc@.skip(8));
                return match parse_usize_chars(&rest) {
                    None => Err(error_with_id("不支持的显示器编号: ", id)),
                    Some(k) => if k < n {
                        Ok(k)
                    } else {
                        Err(error_with_id("未找到显示器: ", id))
                    },
                };
            }
        },
        None => {},
    }
    let ghost requested = match monitor_id {
        Some(id) => Some(id@),
        None => None::<Seq<char>>,
    };
    assert(calibration_monitor(primary@, requested) == Ok::<int, Seq<char>>(first_primary(primary@)));
    let mut i: usize = 0;
    while i < n
        invariant
            calibration_monitor(primary@, requested) == Ok::<int, Seq<char>>(first_primary(primary@)),
            requested == (match monitor_id {
                Some(id) => Some(id@),
                None => None::<Seq<char>>,
            }),
            n == primary@.len(),
            i <= n,
            forall|j: int| 0 <= j < i ==> !primary@[j],
        decreases n - i,
    {
        if primary[i] {
            proof {
                let k = choose|k: int| 0 <= k < primary@.len() && primary@[k] && forall|j: int| 0 <= j < k ==> !primary@[j];
                if k < i {
                } else if k > i {
                    assert(!primary@[i as int]);
                }
            }
            return Ok(i);
        }
        i = i + 1;
    }
    Ok(0)
}

/// The description of monitor `index` for a calibration screenshot, or the error
/// met while reading its bounds.
pub fn monitor_info(
    index: usize,
    friendly_name: Option<String>,
    is_primary: bool,
    bounds: Result<RectInfo, String>,
) -> (r: Result<CalibrationMonitorInfo, String>)
    requires
        index < usize::MAX,
    ensures
        match bounds {
            Err(e) => r == Err::<CalibrationMonitorInfo, String>(e),
            Ok(b) => r matches Ok(info) && info.id@ == monitor_id_text(index as nat) && info.name@ == match friendly_name {
                Some(n) => n@,
                None => monitor_fallback_name(index as nat),
            } && info.is_primary == is_primary && info.bounds == b,
        },
{
    let b = match bounds {
        Ok(b) => b,
        Err(e) => {
            return Err(e);
        },
    };
    let name = match friendly_name {
        Some(n) => n,
        None => monitor_fallback_string(index),
    };
    Ok(CalibrationMonitorInfo { id: monitor_id_string(index), name, is_primary, bounds: b })
}

/// A region at the centre of a monitor: at most 640 by 360 pixels.
pub open spec fn centre_region(width: u32, height: u32) -> (u32, u32, u32, u32) {
    let w: u32 = if width < 640 { width } else { 640 };
    let h: u32 = if height < 360 { height } else { 360 };
    (((width - w) / 2) as u32, ((height - h) / 2) as u32, w, h)
}

/// The region `(x, y, width, height)` that the centre-region capture takes.
pub fn center_region(width: u32, height: u32) -> (r: (u32, u32, u32, u32))
    ensures
        r == centre_region(width, height),
        r.0 + r.2 <= width,
        r.1 + r.3 <= height,
        r.0 == width - (r.0 + r.2) || r.0 + 1 == width - (r.0 + r.2),
        r.1 == height - (r.1 + r.3) || r.1 + 1 == height - (r.1 + r.3),
{
    let w: u32 = if width < 640 { width } else { 640 };
    let h: u32 = if height < 360 { height } else { 360 };
    ((width - w) / 2, (height - h) / 2, w, h)
}

// ---------------------------------------------------------------------------
// Samples and hashes
// ---------------------------------------------------------------------------
/// A strategy's name made safe as a file name: spaces, colons and slashes
/// become underscores.
pub open spec fn safe_file_char(c: char) -> char {
    if c == ' ' || c == ':' || c == '\\' || c == '/' {
        '_'
    } else {
        c
    }
}

pub open spec fn sample_file_name(strategy: Seq<char>) -> Seq<char> {
    let name = strategy + ".png"@;
    Seq::new(name.len(), |i: int| safe_file_char(name[i]))
}

/// Where a strategy's sample image goes, relative to the report directory:
/// `<strategy>.png` with unsafe characters replaced; none when samples are not
/// saved.
pub fn sample_path(strategy: &str, request: &CaptureRequest) -> (r: Option<String>)
    ensures
        match r {
            Some(p) => request.save_samples && p@ == sample_file_name(strategy@),
            None => !request.save_samples,
        },
{
    if !request.save_samples {
        return None;
    }
    let mut name = to_chars(strategy);
    let png = to_chars(".png");
    append_chars(&mut name, &png);
    let mut i: usize = 0;
    let ghost base = name@;
    while i < name.len()
        invariant
            i <= name@.len(),
            base.len() == name@.len(),
            base == strategy@ + ".png"@,
            forall|k: int| 0 <= k < i ==> name@[k] == safe_file_char(base[k]),
            forall|k: int| i <= k < name@.len() ==> name@[k] == base[k],
        decreases name.len() - i,
    {
        let c = name[i];
        if c == ' ' || c == ':' || c == '\\' || c == '/' {
            name.set(i, '_');
        }
        i = i + 1;
    }
    assert(name@ =~= sample_file_name(strategy@));
    Some(string_from_chars(name.as_slice()))
}

/// The SHA-256 digest of some bytes.
pub uninterp spec fn sha256(data: Seq<u8>) -> Seq<u8>;

/// Calls `sha2::Sha256::digest`; the result is named `sha256(data)`.  The
/// digest of SHA-256 is 32 bytes long (`U32` output size in the crate's source).
#[verifier::external_body]
fn sha256_digest(data: &[u8]) -> (r: Vec<u8>)
    ensures
        r@ == sha256(data@),
        r@.len() == 32,
{
    sha2::Sha256::digest(data).to_vec()
}

pub open spec fn hex_digit(d: u8) -> char {
    if d < 10 {
        (48 + d) as char
    } else {
        (97 + d - 10) as char
    }
}

/// Bytes in lower-case hexadecimal, two digits per byte.
pub open spec fn hex_lower(data: Seq<u8>) -> Seq<char>
    decreases data.len(),
{
    if data.len() == 0 {
        seq![]
    } else {
        hex_lower(data.drop_last()) + seq![hex_digit(data.last() / 16), hex_digit(data.last() % 16)]
    }
}

fn hex_digit_exec(d: u8) -> (r: char)
    requires
        d < 16,
    ensures
        r == hex_digit(d),
{
    if d < 10 {
        (48u8 + d) as char
    } else {
        (97u8 + d - 10) as char
    }
}

pub fn hex_lower_chars(data: &Vec<u8>) -> (r: Vec<char>)
    ensures
        r@ == hex_lower(data@),
{
    let mut out: Vec<char> = Vec::new();
    let mut i: usize = 0;
    while i < data.len()
        invariant
            i <= data@.len(),
            out@ == hex_lower(data@.take(i as int)),
        decreases data.len() - i,
    {
        proof {
            assert(data@.take(i + 1).drop_last() =~= data@.take(i as int));
            assert(data@.take(i + 1).last() == data@[i as int]);
        }
        let b = data[i];
        out.push(hex_digit_exec(b / 16));
        out.push(hex_digit_exec(b % 16));
        proof {
            assert(out@ =~= hex_lower(data@.take(i + 1)));
        }
        i = i + 1;
    }
    assert(data@.take(data@.len() as int) =~= data@);
    out
}

/// The SHA-256 digest of some bytes in lower-case hexadecimal.
pub fn hash_bytes(bytes: &[u8]) -> (r: String)
    ensures
        r@ == hex_lower(sha256(bytes@)),
        r@.len() == 64,
{
    let digest = sha256_digest(bytes);
    let hex = hex_lower_chars(&digest);
    proof {
        lemma_hex_lower_len(digest@);
    }
    string_from_chars(hex.as_slice())
}

proof fn lemma_hex_lower_len(data: Seq<u8>)
    ensures
        hex_lower(data).len() == 2 * data.len(),
    decreases data.len(),
{
    if data.len() > 0 {
        lemma_hex_lower_len(data.drop_last());
    }
}

// ---------------------------------------------------------------------------
// Summaries
// ---------------------------------------------------------------------------
/// What the summary reads of a capture attempt.
#[derive(Debug, Clone)]
pub struct AttemptOutcome {
    pub status: String,
    pub black_screen_suspected: Option<bool>,
}

pub open spec fn black_count(attempts: Seq<AttemptOutcome>) -> nat {
    attempts.filter(|a: AttemptOutcome| a.black_screen_suspected == Some(true)).len()
}

/// The diagnostic's conclusion: whether some strategy succeeded and, if so, how
/// many results look black.
pub open spec fn attempts_summary(attempts: Seq<AttemptOutcome>) -> Seq<char> {
    if exists|i: int| 0 <= i < attempts.len() && attempts[i].status@ == "success"@ {
        if black_count(attempts) > 0 {
            "有截图策略成功，但 "@ + decimal(black_count(attempts)) + " 个结果疑似黑屏，请优先查看样本图。"@
        } else {
            "至少一个截图策略成功，未发现明显黑屏。"@
        }
    } else {
        "所有截图策略均失败或在当前平台不可用。"@
    }
}

pub fn summarize_attempts(attempts: &Vec<AttemptOutcome>) -> (r: String)
    ensures
        r@ == attempts_summary(attempts@),
{
    let mut any_success = false;
    let mut blacks: usize = 0;
    let mut i: usize = 0;
    while i < attempts.len()
        invariant
            i <= attempts@.len(),
            any_success == exists|k: int| 0 <= k < i && attempts@[k].status@ == "success"@,
            blacks == black_count(attempts@.take(i as int)),
            blacks <= i,
        decreases attempts.len() - i,
    {
        proof {
            assert(attempts@.take(i + 1).drop_last() =~= attempts@.take(i as int));
            assert(attempts@.take(i + 1).last() == attempts@[i as int]);
            reveal(Seq::filter);
        }
        let a = &attempts[i];
        if str_eq(a.status.as_str(), "success") {
            any_success = true;
        }
        match a.black_screen_suspected {
            Some(true) => {
                blacks = blacks + 1;
            },
            _ => {},
        }
        i = i + 1;
    }
    assert(attempts@.take(attempts@.len() as int) =~= attempts@);
    if any_success {
        if blacks > 0 {
            let mut m = to_chars("有截图策略成功，但 ");
            append_chars(&mut m, &decimal_chars(blacks as u64));
            append_chars(&mut m, &to_chars(" 个结果疑似黑屏，请优先查看样本图。"));
            string_from_chars(m.as_slice())
        } else {
            str_to_string("至少一个截图策略成功，未发现明显黑屏。")
        }
    } else {
        str_to_string("所有截图策略均失败或在当前平台不可用。")
    }
}

/// Removing one attempt from a list lowers the count of any kind of attempt by
/// one exactly when the removed attempt is of that kind.
proof fn lemma_filter_len_remove(s: Seq<AttemptOutcome>, j: int, p: spec_fn(AttemptOutcome) -> bool)
    requires
        0 <= j < s.len(),
    ensures
        s.filter(p).len() == s.remove(j).filter(p).len() + (if p(s[j]) { 1int } else { 0int }),
{
    let front = s.take(j);
    let back = s.skip(j + 1);
    assert(s =~= front.push(s[j]) + back);
    assert(s.remove(j) =~= front + back);
    Seq::filter_distributes_over_add(front.push(s[j]), back, p);
    Seq::filter_distributes_over_add(front, back, p);
    front.lemma_filter_len_push(p, s[j]);
}

/// Two lists of attempts that hold the same attempts, in any order, hold as many
/// attempts of each kind.
proof fn lemma_filter_len_permutation(
    a: Seq<AttemptOutcome>,
    b: Seq<AttemptOutcome>,
    p: spec_fn(AttemptOutcome) -> bool,
)
    requires
        a.to_multiset() == b.to_multiset(),
    ensures
        a.filter(p).len() == b.filter(p).len(),
    decreases a.len(),
{
    broadcast use vstd::seq_lib::group_to_multiset_ensures;
    broadcast use vstd::multiset::group_multiset_axioms;
    if a.len() == 0 {
        assert(b.len() == b.to_multiset().len());
        assert(a.len() == a.to_multiset().len());
        assert(b.len() == 0);
        assert(a =~= b);
    } else {
        let x = a.last();
        let rest = a.drop_last();
        assert(a =~= rest.push(x));
        assert(a.to_multiset().count(x) > 0);
        assert(b.contains(x));
        let j = b.index_of(x);
        assert(b.remove(j).to_multiset() =~= rest.to_multiset());
        lemma_filter_len_permutation(rest, b.remove(j), p);
        lemma_filter_len_remove(b, j, p);
        rest.lemma_filter_len_push(p, x);
    }
}

/// No result is counted as black exactly when no attempt is flagged black.
proof fn lemma_black_count_zero(a: Seq<AttemptOutcome>)
    ensures
        black_count(a) == 0 <==> (forall|i: int|
            0 <= i < a.len() ==> a[i].black_screen_suspected != Some(true)),
{
    let p = |x: AttemptOutcome| x.black_screen_suspected == Some(true);
    if forall|i: int| 0 <= i < a.len() ==> a[i].black_screen_suspected != Some(true) {
        assert(a.all(|x: AttemptOutcome| !p(x)));
        a.lemma_all_neg_filter_empty(p);
    } else {
        let i = choose|i: int| 0 <= i < a.len() && a[i].black_screen_suspected == Some(true);
        a.lemma_filter_contains(p, i);
    }
}

/// The conclusion of a diagnostic run is the all-failed message exactly when no
/// attempt reports `success`, and the no-black-screen message exactly when one
/// does and no attempt is flagged black; it does not depend on the order in
/// which the attempts were made.
pub proof fn lemma_attempts_summary_laws(a: Seq<AttemptOutcome>, b: Seq<AttemptOutcome>)
    requires
        a.to_multiset() == b.to_multiset(),
    ensures
        attempts_summary(a) == "所有截图策略均失败或在当前平台不可用。"@ <==> (forall|i: int|
            0 <= i < a.len() ==> a[i].status@ != "success"@),
        attempts_summary(a) == "至少一个截图策略成功，未发现明显黑屏。"@ <==> ((exists|i: int|
            0 <= i < a.len() && a[i].status@ == "success"@) && forall|i: int|
            0 <= i < a.len() ==> a[i].black_screen_suspected != Some(true)),
        attempts_summary(a) == attempts_summary(b),
{
    lemma_black_count_zero(a);
    broadcast use vstd::seq_lib::group_to_multiset_ensures;
    reveal_strlit("所有截图策略均失败或在当前平台不可用。");
    reveal_strlit("至少一个截图策略成功，未发现明显黑屏。");
    reveal_strlit("有截图策略成功，但 ");
    let failed = "所有截图策略均失败或在当前平台不可用。"@;
    let succeeded = exists|i: int| 0 <= i < a.len() && a[i].status@ == "success"@;
    if succeeded {
        let n = black_count(a);
        let head = "有截图策略成功，但 "@;
        let tail = " 个结果疑似黑屏，请优先查看样本图。"@;
        assert((head + decimal(n) + tail)[0] == head[0]);
        assert(attempts_summary(a)[0] != failed[0]);
        let quiet = "至少一个截图策略成功，未发现明显黑屏。"@;
        if n > 0 {
            assert(attempts_summary(a)[0] != quiet[0]);
        }
    } else {
        assert(failed[0] != "至少一个截图策略成功，未发现明显黑屏。"@[0]);
    }
    // The same attempts are there in both orders.
    assert forall|i: int| 0 <= i < a.len() implies b.contains(#[trigger] a[i]) by {
        assert(a.to_multiset().count(a[i]) > 0);
    }
    assert forall|i: int| 0 <= i < b.len() implies a.contains(#[trigger] b[i]) by {
        assert(b.to_multiset().count(b[i]) > 0);
    }
    let sa = exists|i: int| 0 <= i < a.len() && a[i].status@ == "success"@;
    let sb = exists|i: int| 0 <= i < b.len() && b[i].status@ == "success"@;
    if sa {
        let i = choose|i: int| 0 <= i < a.len() && a[i].status@ == "success"@;
        assert(b.contains(a[i]));
        let k = b.index_of(a[i]);
        assert(b[k].status@ == "success"@);
    }
    if sb {
        let i = choose|i: int| 0 <= i < b.len() && b[i].status@ == "success"@;
        assert(a.contains(b[i]));
        let k = a.index_of(b[i]);
        assert(a[k].status@ == "success"@);
    }
    lemma_filter_len_permutation(
        a,
        b,
        |x: AttemptOutcome| x.black_screen_suspected == Some(true),
    );
}

/// A capture attempt that was not made, with the reason.
#[derive(Debug, Clone)]
pub struct SkippedAttempt {
    pub strategy: String,
    pub target_label: String,
    /// Always `failed`.
    pub status: String,
    /// Always 0: nothing was attempted.
    pub duration_ms: u128,
    pub error: String,
}

/// The attempts where real capture is unavailable: the three strategies, each
/// skipped with its reason.
pub fn unsupported_capture_attempts() -> (r: Vec<SkippedAttempt>)
    ensures
        r@.len() == 3,
        r@[0].strategy@ == "xcap_requested_target"@,
        r@[1].strategy@ == "xcap_primary_monitor"@,
        r@[2].strategy@ == "xcap_center_region"@,
        forall|i: int|
            0 <= i < 3 ==> (#[trigger] r@[i]).target_label@ == "primary_monitor"@ && r@[i].status@ == "failed"@
                && r@[i].duration_ms == 0,
        r@[0].error@ == "当前平台不是 Windows，跳过真实截图"@,
        r@[1].error@ == "当前平台不是 Windows，跳过主显示器截图"@,
        r@[2].error@ == "当前平台不是 Windows，跳过中心区域截图"@,
{
    let mut v: Vec<SkippedAttempt> = Vec::new();
    v.push(SkippedAttempt {
        strategy: str_to_string("xcap_requested_target"),
        target_label: str_to_string("primary_monitor"),
        status: str_to_string("failed"),
        duration_ms: 0,
        error: str_to_string("当前平台不是 Windows，跳过真实截图"),
    });
    v.push(SkippedAttempt {
        strategy: str_to_string("xcap_primary_monitor"),
        target_label: str_to_string("primary_monitor"),
        status: str_to_string("failed"),
        duration_ms: 0,
        error: str_to_string("当前平台不是 Windows，跳过主显示器截图"),
    });
    v.push(SkippedAttempt {
        strategy: str_to_string("xcap_center_region"),
        target_label: str_to_string("primary_monitor"),
        status: str_to_string("failed"),
        duration_ms: 0,
        error: str_to_string("当前平台不是 Windows，跳过中心区域截图"),
    });
    v
}

/// The answer to a calibration screenshot where real capture is unavailable.
pub fn calibration_snapshot_unsupported() -> (r: String)
    ensures
        r@ == "当前平台不是 Windows，校准截图需要在 Windows 桌面环境运行"@,
{
    str_to_string("当前平台不是 Windows，校准截图需要在 Windows 桌面环境运行")
}

// ---------------------------------------------------------------------------
// Overlay window answers
// ---------------------------------------------------------------------------
/// The answer to closing the overlay, by whether a window was closed.
pub fn close_overlay_result(closed: bool) -> (r: OverlayPocCloseResult)
    ensures
        r.label@ == overlay_label(),
        r.closed == closed,
        r.message@ == (if closed { "Overlay POC 窗口已关闭。"@ } else { "Overlay POC 窗口不存在，无需关闭。"@ }),
{
    OverlayPocCloseResult {
        label: str_to_string("overlay-poc"),
        closed,
        message: if closed {
            str_to_string("Overlay POC 窗口已关闭。")
        } else {
            str_to_string("Overlay POC 窗口不存在，无需关闭。")
        },
    }
}

/// The answer to switching click-through where the window supports it: applied
/// as asked when the window accepted it, refused with the window's error otherwise.
pub fn click_through_result(enabled: bool, outcome: Result<(), String>) -> (r: OverlayPocClickThroughResult)
    ensures
        r.label@ == overlay_label(),
        r.requested == enabled,
        match outcome {
            Ok(()) => r.applied == enabled && r.supported && r.message@ == (if enabled {
                "Windows 点击穿透已启用。"@
            } else {
                "Windows 点击穿透已关闭。"@
            }),
            Err(e) => !r.applied && !r.supported && r.message@ == "Windows 点击穿透请求失败: "@ + e@,
        },
{
    match outcome {
        Ok(()) => OverlayPocClickThroughResult {
            label: str_to_string("overlay-poc"),
            requested: enabled,
            applied: enabled,
            supported: true,
            message: if enabled {
                str_to_string("Windows 点击穿透已启用。")
            } else {
                str_to_string("Windows 点击穿透已关闭。")
            },
        },
        Err(e) => OverlayPocClickThroughResult {
            label: str_to_string("overlay-poc"),
            requested: enabled,
            applied: false,
            supported: false,
            message: error_with_id("Windows 点击穿透请求失败: ", e.as_str()),
        },
    }
}

/// The answer to switching click-through where the platform lacks it.
pub fn click_through_unsupported(enabled: bool) -> (r: OverlayPocClickThroughResult)
    ensures
        r.label@ == overlay_label(),
        r.requested == enabled,
        !r.applied,
        !r.supported,
        r.message@ == "当前非 Windows 构建，Overlay POC 点击穿透未启用；需要在 Windows 桌面环境实测。"@,
{
    OverlayPocClickThroughResult {
        label: str_to_string("overlay-poc"),
        requested: enabled,
        applied: false,
        supported: false,
        message: str_to_string("当前非 Windows 构建，Overlay POC 点击穿透未启用；需要在 Windows 桌面环境实测。"),
    }
}

} // verus!
