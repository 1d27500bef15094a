//! Where the overlay window and its test cards go.
use vstd::prelude::*;
use crate::text::{
    append_chars, chars_equal, decimal, decimal_chars, has_prefix, parse_usize, parse_usize_chars,
    str_to_string, string_from_chars, subrange_chars, starts_with_chars, to_chars, trim, trim_chars,
};

use crate::json::{json_field_at, json_unsigned, JsonObject, JsonScalar};

verus! {

/// A rectangle in pixels.
#[derive(Debug, Clone, Copy, PartialEq, Eq, Structural)]
pub struct RectInfo {
    pub x: i32,
    pub y: i32,
    pub width: u32,
    pub height: u32,
}

/// The overlay's target area as a request gives it.
#[derive(Debug, Clone)]
pub struct OverlayPocTargetRequest {
    pub x: i32,
    pub y: i32,
    pub width: u32,
    pub height: u32,
}

/// A test card as a request gives it.
#[derive(Debug, Clone)]
pub struct OverlayPocCardRequest {
    pub slot: u8,
    pub title: Option<String>,
    pub body: Option<String>,
    pub x: i32,
    pub y: i32,
    pub width: u32,
    pub height: u32,
}

/// A request to open the overlay.
#[derive(Debug, Clone)]
pub struct OverlayPocRequest {
    pub monitor_id: Option<String>,
    pub target: Option<OverlayPocTargetRequest>,
    pub cards: Vec<OverlayPocCardRequest>,
    pub click_through: bool,
}

/// A test card placed on the overlay.
#[derive(Debug, Clone)]
pub struct OverlayPocCardInfo {
    pub slot: u8,
    pub title: String,
    pub body: String,
    pub bounds: RectInfo,
    pub source: String,
}

/// The default of a request's `clickThrough` flag.
pub fn default_true() -> (r: bool)
    ensures
        r,
{
    true
}

// ---------------------------------------------------------------------------
// Overlay settings of a calibration profile
// ---------------------------------------------------------------------------
/// `u32::try_from` of an optional number: `None` when it is absent or too large.
pub open spec fn narrow_u32(n: Option<u64>) -> Option<u32> {
    match n {
        Some(v) => if v <= u32::MAX {
            Some(v as u32)
        } else {
            None
        },
        None => None,
    }
}

/// The number under `key` of a JSON object, when it is an unsigned integer that
/// fits in a `u32`.
pub fn json_u32(value: &JsonObject, key: &str) -> (r: Option<u32>)
    ensures
        r == narrow_u32(json_unsigned(*value, key@)),
{
    match json_field_at(value, key) {
        Some(JsonScalar::Unsigned(n)) => {
            if *n <= 4294967295 {
                Some(*n as u32)
            } else {
                None
            }
        },
        _ => None,
    }
}

// ---------------------------------------------------------------------------
// Saturating arithmetic
// ---------------------------------------------------------------------------
pub open spec fn sat_i32(v: int) -> i32 {
    if v > i32::MAX {
        i32::MAX
    } else if v < i32::MIN {
        i32::MIN
    } else {
        v as i32
    }
}

pub open spec fn sat_sub_u32(a: u32, b: u32) -> u32 {
    if a >= b {
        (a - b) as u32
    } else {
        0
    }
}

/// `i32::try_from(value).unwrap_or(i32::MAX)`.
pub fn u32_to_i32_saturating(value: u32) -> (r: i32)
    ensures
        r == sat_i32(value as int),
{
    if value <= 2147483647 {
        value as i32
    } else {
        i32::MAX
    }
}

fn i32_saturating_sub(a: i32, b: i32) -> (r: i32)
    ensures
        r == sat_i32(a - b),
{
    let d: i64 = a as i64 - b as i64;
    if d > 2147483647 {
        i32::MAX
    } else if d < -2147483648 {
        i32::MIN
    } else {
        d as i32
    }
}

/// `u32::saturating_mul`.
fn u32_saturating_mul(a: u32, b: u32) -> (r: u32)
    ensures
        r == (if a * b > u32::MAX { u32::MAX as int } else { a * b }),
{
    assert((a as u64) * (b as u64) <= 18446744065119617025u64) by (nonlinear_arith)
        requires
            a <= 4294967295u32,
            b <= 4294967295u32,
    ;
    let p: u64 = a as u64 * b as u64;
    if p > 4294967295 {
        u32::MAX
    } else {
        p as u32
    }
}

/// `u32::saturating_add`.
fn u32_saturating_add(a: u32, b: u32) -> (r: u32)
    ensures
        r == (if a + b > u32::MAX { u32::MAX as int } else { a + b }),
{
    if a > u32::MAX - b {
        u32::MAX
    } else {
        a + b
    }
}

/// `u32::saturating_sub`.
fn u32_saturating_sub(a: u32, b: u32) -> (r: u32)
    ensures
        r == sat_sub_u32(a, b),
{
    if a >= b {
        a - b
    } else {
        0
    }
}

// ---------------------------------------------------------------------------
// Card text
// ---------------------------------------------------------------------------
pub open spec fn test_card_title(slot: nat) -> Seq<char> {
    "测试卡片 "@ + decimal(slot)
}

fn test_card_title_string(slot: u64) -> (r: String)
    ensures
        r@ == test_card_title(slot as nat),
{
    let mut t = to_chars("测试卡片 ");
    append_chars(&mut t, &decimal_chars(slot));
    string_from_chars(t.as_slice())
}

pub open spec fn card_is(
    c: OverlayPocCardInfo,
    slot: u8,
    title: Seq<char>,
    body: Seq<char>,
    bounds: RectInfo,
    source: Seq<char>,
) -> bool {
    &&& c.slot == slot
    &&& c.title@ == title
    &&& c.body@ == body
    &&& c.bounds == bounds
    &&& c.source@ == source
}

// ---------------------------------------------------------------------------
// Default cards: three columns near the bottom of the target
// ---------------------------------------------------------------------------
/// A fifth of the width, kept within 180..=320 and within the width.
pub open spec fn default_card_width(width: u32) -> u32 {
    let fifth = width / 5;
    let clamped: u32 = if fifth < 180 { 180 } else if fifth > 320 { 320 } else { fifth };
    let limit: u32 = if width >= 1 { width } else { 1 };
    if clamped < limit { clamped } else { limit }
}

pub open spec fn default_card_height(height: u32) -> u32 {
    let limit: u32 = if height >= 1 { height } else { 1 };
    if 120 < limit { 120 } else { limit }
}

/// The gap between the default cards.
pub open spec fn default_card_gap() -> int {
    24
}

pub open spec fn default_cards_width(width: u32) -> int {
    default_card_width(width) * 3 + default_card_gap() * 2
}

/// The left edge of the first card: the row of three is centred when it fits.
pub open spec fn default_cards_start(width: u32) -> int {
    if width > default_cards_width(width) {
        (width - default_cards_width(width)) / 2
    } else {
        0
    }
}

/// The top of the cards: 80 pixels above the bottom edge when there is room.
pub open spec fn default_cards_top(height: u32) -> u32 {
    sat_sub_u32(sat_sub_u32(height, default_card_height(height)), 80)
}

pub open spec fn default_card_bounds(i: int, width: u32, height: u32) -> RectInfo {
    RectInfo {
        x: sat_i32(default_cards_start(width) + i * default_card_width(width) + i * default_card_gap()),
        y: sat_i32(default_cards_top(height) as int),
        width: default_card_width(width),
        height: default_card_height(height),
    }
}

/// The three default test cards for a target `width` by `height`.
pub fn default_overlay_cards(width: u32, height: u32) -> (r: Vec<OverlayPocCardInfo>)
    ensures
        r@.len() == 3,
        forall|i: int|
            0 <= i < 3 ==> card_is(#[trigger] r@[i], (i + 1) as u8, test_card_title((i + 1) as nat),
                "Overlay POC"@, default_card_bounds(i, width, height), "fallback.defaultCards"@),
{
    let fifth = width / 5;
    let clamped: u32 = if fifth < 180 { 180 } else if fifth > 320 { 320 } else { fifth };
    let limit: u32 = if width >= 1 { width } else { 1 };
    let card_width: u32 = if clamped < limit { clamped } else { limit };
    let hlimit: u32 = if height >= 1 { height } else { 1 };
    let card_height: u32 = if 120 < hlimit { 120 } else { hlimit };
    let gap: u32 = 24;
    let total_width = u32_saturating_add(u32_saturating_mul(card_width, 3), u32_saturating_mul(gap, 2));
    let start_x = if width > total_width { (width - total_width) / 2 } else { 0 };
    let y1 = u32_saturating_sub(u32_saturating_sub(height, card_height), 80);
    let y2 = u32_saturating_sub(height, card_height);
    let y = if y1 < y2 { y1 } else { y2 };
    assert(total_width == default_cards_width(width));
    let mut cards: Vec<OverlayPocCardInfo> = Vec::new();
    let mut index: u32 = 0;
    while index < 3
        invariant
            index <= 3,
            card_width == default_card_width(width),
            card_height == default_card_height(height),
            start_x == default_cards_start(width),
            y == default_cards_top(height),
            gap == 24,
            start_x <= 2147483647,
            card_width <= 320,
            cards@.len() == index,
            forall|i: int|
                0 <= i < index ==> card_is(#[trigger] cards@[i], (i + 1) as u8, test_card_title(
                    (i + 1) as nat,
                ), "Overlay POC"@, default_card_bounds(i, width, height), "fallback.defaultCards"@),
        decreases 3 - index,
    {
        let slot = index + 1;
        assert(index * card_width <= 640) by (nonlinear_arith)
            requires
                index < 3,
                card_width <= 320,
        ;
        let x = u32_to_i32_saturating(start_x + index * card_width + u32_saturating_mul(index, gap));
        let yy = u32_to_i32_saturating(y);
        let card = OverlayPocCardInfo {
            slot: slot as u8,
            title: test_card_title_string(slot as u64),
            body: str_to_string("Overlay POC"),
            bounds: RectInfo { x, y: yy, width: card_width, height: card_height },
            source: str_to_string("fallback.defaultCards"),
        };
        cards.push(card);
        index = index + 1;
    }
    cards
}

/// The default cards sit side by side from left to right, 24 pixels apart,
/// inside the target's height; when the row fits in the width they are centred
/// and end inside it.  (Stated for targets whose card positions fit in `i32`.)
pub proof fn lemma_default_cards_layout(width: u32, height: u32)
    requires
        default_cards_start(width) + 2 * default_card_width(width) + 2 * default_card_gap() <= i32::MAX,
    ensures
        forall|i: int|
            0 <= i < 2 ==> #[trigger] default_card_bounds(i, width, height).x + default_card_width(width)
                + default_card_gap() == default_card_bounds(i + 1, width, height).x,
        default_card_bounds(0, width, height).x >= 0,
        default_cards_top(height) + default_card_height(height) <= height || height == 0,
        1 <= default_card_height(height) <= 120,
        width >= 1 ==> 1 <= default_card_width(width) <= width,
        width > default_cards_width(width) ==> default_card_bounds(2, width, height).x
            + default_card_width(width) <= width,
        width > default_cards_width(width) ==> default_card_bounds(0, width, height).x
            == width - (default_card_bounds(2, width, height).x + default_card_width(width))
            || default_card_bounds(0, width, height).x + 1 == width - (default_card_bounds(
            2,
            width,
            height,
        ).x + default_card_width(width)),
{
    let cw = default_card_width(width);
    let st = default_cards_start(width);
    assert(default_card_bounds(0, width, height).x == st);
    assert(default_card_bounds(1, width, height).x == st + cw + 24);
    assert(default_card_bounds(2, width, height).x == st + 2 * cw + 48);
    assert forall|i: int| 0 <= i < 2 implies #[trigger] default_card_bounds(i, width, height).x
        + default_card_width(width) + default_card_gap() == default_card_bounds(i + 1, width, height).x by {
    }
}

// ---------------------------------------------------------------------------
// Cards under the calibrated bottom anchors
// ---------------------------------------------------------------------------
/// A calibrated anchor: a slot and its rectangle on the target.
#[derive(Debug, Clone, Copy)]
pub struct SlotRect {
    pub slot: u8,
    pub rect: RectInfo,
}

/// The anchors with slot `s`, in their order.
pub open spec fn anchors_with_slot(a: Seq<SlotRect>, s: int) -> Seq<SlotRect> {
    a.filter(|x: SlotRect| x.slot == s)
}

/// The anchors with slots below `n`, ordered by slot; anchors with the same
/// slot keep their order (a stable sort by slot).
pub open spec fn anchors_sorted_below(a: Seq<SlotRect>, n: int) -> Seq<SlotRect>
    decreases n,
{
    if n <= 0 {
        seq![]
    } else {
        anchors_sorted_below(a, n - 1) + anchors_with_slot(a, n - 1)
    }
}

pub open spec fn anchors_sorted(a: Seq<SlotRect>) -> Seq<SlotRect> {
    anchors_sorted_below(a, 256)
}

/// The anchors with slots below `n`, in their order.
pub open spec fn anchors_below(a: Seq<SlotRect>, n: int) -> Seq<SlotRect> {
    a.filter(|x: SlotRect| (x.slot as int) < n)
}

proof fn lemma_below_split(a: Seq<SlotRect>, n: int)
    ensures
        anchors_below(a, n + 1).to_multiset() =~= anchors_below(a, n).to_multiset().add(
            anchors_with_slot(a, n).to_multiset(),
        ),
    decreases a.len(),
{
    broadcast use vstd::seq_lib::group_seq_properties, vstd::multiset::group_multiset_axioms;

    if a.len() == 0 {
        assert(anchors_below(a, n + 1) =~= Seq::<SlotRect>::empty());
        assert(anchors_below(a, n) =~= Seq::<SlotRect>::empty());
        assert(anchors_with_slot(a, n) =~= Seq::<SlotRect>::empty());
    } else {
        let b = a.drop_last();
        let x = a.last();
        assert(b.push(x) =~= a);
        lemma_below_split(b, n);
        b.lemma_filter_push(x, |y: SlotRect| (y.slot as int) < n + 1);
        b.lemma_filter_push(x, |y: SlotRect| (y.slot as int) < n);
        b.lemma_filter_push(x, |y: SlotRect| y.slot == n);
    }
}

proof fn lemma_sorted_below(a: Seq<SlotRect>, n: int)
    requires
        0 <= n,
    ensures
        anchors_sorted_below(a, n).to_multiset() =~= anchors_below(a, n).to_multiset(),
        forall|i: int| 0 <= i < anchors_sorted_below(a, n).len() ==> (#[trigger] anchors_sorted_below(a, n)[i].slot as int) < n,
        forall|i: int, j: int|
            0 <= i < j < anchors_sorted_below(a, n).len() ==> #[trigger] anchors_sorted_below(a, n)[i].slot
                <= #[trigger] anchors_sorted_below(a, n)[j].slot,
    decreases n,
{
    broadcast use vstd::seq_lib::group_seq_properties, vstd::multiset::group_multiset_axioms, vstd::seq_lib::group_filter_ensures;

    if n == 0 {
        let f = anchors_below(a, 0);
        if f.len() > 0 {
            a.lemma_filter_pred(|x: SlotRect| (x.slot as int) < 0, 0);
            assert((f[0].slot as int) < 0);
        }
        assert(f =~= Seq::<SlotRect>::empty());
    } else {
        lemma_sorted_below(a, n - 1);
        lemma_below_split(a, n - 1);
        let p = anchors_sorted_below(a, n - 1);
        let q = anchors_with_slot(a, n - 1);
        let r = anchors_sorted_below(a, n);
        assert(r == p + q);
        vstd::seq_lib::lemma_multiset_commutative(p, q);
        assert forall|k: int| 0 <= k < q.len() implies (#[trigger] q[k]).slot == n - 1 by {
            a.lemma_filter_pred(|y: SlotRect| y.slot == n - 1, k);
        }
        assert forall|i: int| 0 <= i < r.len() implies (#[trigger] r[i].slot as int) < n by {
            if i < p.len() {
                assert(r[i] == p[i]);
            } else {
                assert(r[i] == q[i - p.len()]);
            }
        }
        assert forall|i: int, j: int| 0 <= i < j < r.len() implies #[trigger] r[i].slot <= #[trigger] r[j].slot by {
            if j < p.len() {
                assert(r[i] == p[i] && r[j] == p[j]);
            } else if i < p.len() {
                assert(r[i] == p[i] && r[j] == q[j - p.len()]);
            } else {
                assert(r[i] == q[i - p.len()] && r[j] == q[j - p.len()]);
            }
        }
    }
}

/// Sorting the anchors by slot keeps every anchor, as often as it occurs, and
/// puts them in order of slot.
pub proof fn lemma_anchors_sorted(a: Seq<SlotRect>)
    ensures
        anchors_sorted(a).to_multiset() =~= a.to_multiset(),
        forall|i: int, j: int|
            0 <= i < j < anchors_sorted(a).len() ==> #[trigger] anchors_sorted(a)[i].slot
                <= #[trigger] anchors_sorted(a)[j].slot,
{
    lemma_sorted_below(a, 256);
    lemma_below_every_slot(a);
}

proof fn lemma_below_every_slot(a: Seq<SlotRect>)
    ensures
        anchors_below(a, 256) == a,
    decreases a.len(),
{
    if a.len() == 0 {
        assert(anchors_below(a, 256) =~= a) by {
            reveal(Seq::filter);
        }
    } else {
        let b = a.drop_last();
        assert(b.push(a.last()) =~= a);
        lemma_below_every_slot(b);
        b.lemma_filter_push(a.last(), |y: SlotRect| (y.slot as int) < 256);
    }
}

/// The card shown above an anchor: `gap` pixels above it, at most `max_height`
/// tall and no taller than the target, kept below the top edge.
pub open spec fn anchor_card_bounds(anchor: RectInfo, gap: u32, max_height: u32, target_height: u32) -> RectInfo {
    let limit: u32 = if target_height >= 1 { target_height } else { 1 };
    let card_height: u32 = if max_height < limit { max_height } else { limit };
    let y = sat_i32(sat_i32(anchor.y - sat_i32(gap as int)) - sat_i32(card_height as int));
    RectInfo {
        x: anchor.x,
        y: if y > 0 { y } else { 0 },
        width: if anchor.width >= 1 { anchor.width } else { 1 },
        height: if card_height >= 1 { card_height } else { 1 },
    }
}

pub open spec fn anchor_card_body(slot: nat) -> Seq<char> {
    "slot "@ + decimal(slot) + " · Overlay POC"@
}

fn anchor_card(a: SlotRect, gap: u32, max_height: u32, target_height: u32) -> (r: OverlayPocCardInfo)
    ensures
        card_is(r, a.slot, test_card_title(a.slot as nat), anchor_card_body(a.slot as nat),
            anchor_card_bounds(a.rect, gap, max_height, target_height), "calibration.bottomAnchors"@),
{
    let limit: u32 = if target_height >= 1 { target_height } else { 1 };
    let card_height: u32 = if max_height < limit { max_height } else { limit };
    let y0 = i32_saturating_sub(i32_saturating_sub(a.rect.y, u32_to_i32_saturating(gap)), u32_to_i32_saturating(card_height));
    let y = if y0 > 0 { y0 } else { 0 };
    let mut body = to_chars("slot ");
    append_chars(&mut body, &decimal_chars(a.slot as u64));
    append_chars(&mut body, &to_chars(" · Overlay POC"));
    OverlayPocCardInfo {
        slot: a.slot,
        title: test_card_title_string(a.slot as u64),
        body: string_from_chars(body.as_slice()),
        bounds: RectInfo {
            x: a.rect.x,
            y,
            width: if a.rect.width >= 1 { a.rect.width } else { 1 },
            height: if card_height >= 1 { card_height } else { 1 },
        },
        source: str_to_string("calibration.bottomAnchors"),
    }
}

/// The cards above the calibrated bottom anchors, ordered by slot.  `gap`
/// defaults to 8 pixels and `max_height` to 120.
pub fn cards_from_calibration_profile(
    anchors: &Vec<SlotRect>,
    gap: Option<u32>,
    max_height: Option<u32>,
    target_height: u32,
) -> (r: Vec<OverlayPocCardInfo>)
    ensures
        r@.len() == anchors_sorted(anchors@).len(),
        forall|i: int|
            0 <= i < r@.len() ==> {
                let a = #[trigger] anchors_sorted(anchors@)[i];
                card_is(r@[i], a.slot, test_card_title(a.slot as nat), anchor_card_body(a.slot as nat),
                    anchor_card_bounds(a.rect, match gap {
                        Some(g) => g,
                        None => 8,
                    }, match max_height {
                        Some(m) => m,
                        None => 120,
                    }, target_height), "calibration.bottomAnchors"@)
            },
{
    let g: u32 = match gap {
        Some(v) => v,
        None => 8,
    };
    let m: u32 = match max_height {
        Some(v) => v,
        None => 120,
    };
    let mut out: Vec<OverlayPocCardInfo> = Vec::new();
    let ghost mut order: Seq<SlotRect> = seq![];
    let mut s: u32 = 0;
    while s < 256
        invariant
            s <= 256,
            order == anchors_sorted_below(anchors@, s as int),
            out@.len() == order.len(),
            forall|i: int|
                0 <= i < out@.len() ==> card_is(#[trigger] out@[i], order[i].slot, test_card_title(order[i].slot as nat),
                    anchor_card_body(order[i].slot as nat), anchor_card_bounds(order[i].rect, g, m, target_height),
                    "calibration.bottomAnchors"@),
        decreases 256 - s,
    {
        let ghost before = order;
        let mut j: usize = 0;
        while j < anchors.len()
            invariant
                s < 256,
                j <= anchors@.len(),
                order == before + anchors@.take(j as int).filter(|x: SlotRect| x.slot == s),
                out@.len() == order.len(),
                forall|i: int|
                    0 <= i < out@.len() ==> card_is(#[trigger] out@[i], order[i].slot, test_card_title(order[i].slot as nat),
                        anchor_card_body(order[i].slot as nat), anchor_card_bounds(order[i].rect, g, m, target_height),
                        "calibration.bottomAnchors"@),
            decreases anchors.len() - j,
        {
            proof {
                assert(anchors@.take(j + 1).drop_last() =~= anchors@.take(j as int));
                assert(anchors@.take(j + 1).last() == anchors@[j as int]);
                reveal(Seq::filter);
            }
            let a = anchors[j];
            if a.slot as u32 == s {
                out.push(anchor_card(a, g, m, target_height));
                proof {
                    order = order.push(a);
                    assert(order =~= before + anchors@.take(j + 1).filter(|x: SlotRect| x.slot == s));
                }
            } else {
                proof {
                    assert(order =~= before + anchors@.take(j + 1).filter(|x: SlotRect| x.slot == s));
                }
            }
            j = j + 1;
        }
        proof {
            assert(anchors@.take(anchors@.len() as int) =~= anchors@);
            assert(anchors_sorted_below(anchors@, s + 1) == before + anchors_with_slot(anchors@, s as int));
        }
        s = s + 1;
    }
    out
}

// ---------------------------------------------------------------------------
// Choosing the cards
// ---------------------------------------------------------------------------
pub open spec fn request_card_title(c: OverlayPocCardRequest) -> Seq<char> {
    match c.title {
        Some(t) => t@,
        None => test_card_title(c.slot as nat),
    }
}

pub open spec fn request_card_body(c: OverlayPocCardRequest) -> Seq<char> {
    match c.body {
        Some(b) => b@,
        None => "Overlay POC"@,
    }
}

pub open spec fn request_card_bounds(c: OverlayPocCardRequest) -> RectInfo {
    RectInfo { x: c.x, y: c.y, width: c.width, height: c.height }
}

pub open spec fn zero_sized_card(cards: Seq<OverlayPocCardRequest>) -> Option<int> {
    if exists|i: int| 0 <= i < cards.len() && (cards[i].width == 0 || cards[i].height == 0) {
        Some(choose|i: int| 0 <= i < cards.len() && (cards[i].width == 0 || cards[i].height == 0)
            && forall|j: int| 0 <= j < i ==> !(cards[j].width == 0 || cards[j].height == 0))
    } else {
        None
    }
}

pub open spec fn card_size_error(slot: u8) -> Seq<char> {
    "Overlay POC 卡片 slot"@ + decimal(slot as nat) + " 宽高必须大于 0"@
}

pub open spec fn has_cards(cards: Option<Vec<OverlayPocCardInfo>>) -> bool {
    match cards {
        Some(v) => v@.len() > 0,
        None => false,
    }
}

pub open spec fn seq_views(v: Seq<String>) -> Seq<Seq<char>> {
    Seq::new(v.len(), |i: int| v[i]@)
}

/// Chooses the overlay's test cards: those of the request when it gives any
/// (each must have a size), else those above the calibrated anchors when there
/// are any, else the three default cards.  Says in `messages` which it chose.
pub fn resolve_overlay_cards(
    request: &OverlayPocRequest,
    profile_cards: Option<Vec<OverlayPocCardInfo>>,
    target_width: u32,
    target_height: u32,
    messages: &mut Vec<String>,
) -> (r: Result<Vec<OverlayPocCardInfo>, String>)
    ensures
        request.cards@.len() > 0 ==> match zero_sized_card(request.cards@) {
            Some(i) => r matches Err(e) && e@ == card_size_error(request.cards@[i].slot)
                && final(messages)@ == old(messages)@,
            None => r matches Ok(cards) && cards@.len() == request.cards@.len() && (forall|i: int|
                0 <= i < cards@.len() ==> {
                    let c = #[trigger] request.cards@[i];
                    card_is(cards@[i], c.slot, request_card_title(c), request_card_body(c),
                        request_card_bounds(c), "request.cards"@)
                }) && seq_views(final(messages)@) == seq_views(old(messages)@).push(
                "使用请求传入的 Overlay 测试卡片位置。"@),
        },
        request.cards@.len() == 0 && has_cards(profile_cards) ==> r == Ok::<
            Vec<OverlayPocCardInfo>,
            String,
        >(profile_cards->0) && seq_views(final(messages)@) == seq_views(old(messages)@).push(
            "已根据 calibration/profile.json 的 bottomAnchors 生成测试卡片位置。"@),
        request.cards@.len() == 0 && !has_cards(profile_cards) ==> (r matches Ok(cards)
            && cards@.len() == 3 && (forall|i: int|
            0 <= i < 3 ==> card_is(#[trigger] cards@[i], (i + 1) as u8, test_card_title((i + 1) as nat),
                "Overlay POC"@, default_card_bounds(i, target_width, target_height),
                "fallback.defaultCards"@)) && seq_views(final(messages)@) == seq_views(old(messages)@).push(
            "未找到可用 bottomAnchors，使用默认三列测试卡片位置。"@)),
{
    if request.cards.len() > 0 {
        let mut cards: Vec<OverlayPocCardInfo> = Vec::new();
        let mut i: usize = 0;
        while i < request.cards.len()
            invariant
                i <= request.cards@.len(),
                cards@.len() == i,
                forall|j: int| 0 <= j < i ==> !(request.cards@[j].width == 0 || request.cards@[j].height == 0),
                forall|j: int|
                    0 <= j < i ==> {
                        let c = #[trigger] request.cards@[j];
                        card_is(cards@[j], c.slot, request_card_title(c), request_card_body(c),
                            request_card_bounds(c), "request.cards"@)
                    },
            decreases request.cards.len() - i,
        {
            let card = &request.cards[i];
            if card.width == 0 || card.height == 0 {
                let mut msg = to_chars("Overlay POC 卡片 slot");
                append_chars(&mut msg, &decimal_chars(card.slot as u64));
                append_chars(&mut msg, &to_chars(" 宽高必须大于 0"));
                proof {
                    let cs = request.cards@;
                    assert(exists|k: int| 0 <= k < cs.len() && (cs[k].width == 0 || cs[k].height == 0));
                    let k = choose|k: int| 0 <= k < cs.len() && (cs[k].width == 0 || cs[k].height == 0)
                        && forall|j: int| 0 <= j < k ==> !(cs[j].width == 0 || cs[j].height == 0);
                    assert(0 <= i < cs.len() && (cs[i as int].width == 0 || cs[i as int].height == 0)
                        && forall|j: int| 0 <= j < i ==> !(cs[j].width == 0 || cs[j].height == 0));
                    if k < i {
                    } else if k > i {
                        assert(!(cs[i as int].width == 0 || cs[i as int].height == 0));
                    }
                    assert(k == i);
                }
                return Err(string_from_chars(msg.as_slice()));
            }
            let title = match &card.title {
                Some(t) => t.clone(),
                None => test_card_title_string(card.slot as u64),
            };
            let body = match &card.body {
                Some(b) => b.clone(),
                None => str_to_string("Overlay POC"),
            };
            cards.push(OverlayPocCardInfo {
                slot: card.slot,
                title,
                body,
                bounds: RectInfo { x: card.x, y: card.y, width: card.width, height: card.height },
                source: str_to_string("request.cards"),
            });
            i = i + 1;
        }
        messages.push(str_to_string("使用请求传入的 Overlay 测试卡片位置。"));
        proof {
            assert(seq_views(messages@) =~= seq_views(old(messages)@).push(
                "使用请求传入的 Overlay 测试卡片位置。"@));
        }
        return Ok(cards);
    }
    match profile_cards {
        Some(pc) => {
            if pc.len() > 0 {
                messages.push(str_to_string("已根据 calibration/profile.json 的 bottomAnchors 生成测试卡片位置。"));
                proof {
                    assert(seq_views(messages@) =~= seq_views(old(messages)@).push(
                        "已根据 calibration/profile.json 的 bottomAnchors 生成测试卡片位置。"@));
                }
                return Ok(pc);
            }
        },
        None => {},
    }
    messages.push(str_to_string("未找到可用 bottomAnchors，使用默认三列测试卡片位置。"));
    proof {
        assert(seq_views(messages@) =~= seq_views(old(messages)@).push(
            "未找到可用 bottomAnchors，使用默认三列测试卡片位置。"@));
    }
    Ok(default_overlay_cards(target_width, target_height))
}

// ---------------------------------------------------------------------------
// Choosing the overlay's target
// ---------------------------------------------------------------------------
/// The overlay's bounds as the request gives them: `None` when it gives none,
/// an error when they have no size; the choice is noted in `messages`.
pub fn overlay_target_from_request(request: &OverlayPocRequest, messages: &mut Vec<String>) -> (r: Option<
    Result<RectInfo, String>,
>)
    ensures
        match request.target {
            None => r is None && final(messages)@ == old(messages)@,
            Some(t) => if t.width == 0 || t.height == 0 {
                r matches Some(Err(e)) && e@ == "Overlay POC target 宽高必须大于 0"@ && final(messages)@
                    == old(messages)@
            } else {
                r == Some(Ok::<RectInfo, String>(RectInfo { x: t.x, y: t.y, width: t.width, height: t.height }))
                    && seq_views(final(messages)@) == seq_views(old(messages)@).push(
                    "使用请求传入的 Overlay 目标尺寸。"@)
            },
        },
{
    match &request.target {
        None => None,
        Some(t) => {
            if t.width == 0 || t.height == 0 {
                Some(Err(str_to_string("Overlay POC target 宽高必须大于 0")))
            } else {
                messages.push(str_to_string("使用请求传入的 Overlay 目标尺寸。"));
                proof {
                    assert(seq_views(messages@) =~= seq_views(old(messages)@).push(
                        "使用请求传入的 Overlay 目标尺寸。"@));
                }
                Some(Ok(RectInfo { x: t.x, y: t.y, width: t.width, height: t.height }))
            }
        },
    }
}

/// The monitor that the overlay should use: the request's, unless blank, else
/// the calibrated one.
pub open spec fn requested_monitor(request_monitor_id: Option<String>, profile_monitor_id: Option<String>) -> Option<
    Seq<char>,
> {
    match request_monitor_id {
        Some(id) => if trim(id@).len() > 0 {
            Some(id@)
        } else {
            match profile_monitor_id {
                Some(p) => Some(p@),
                None => None,
            }
        },
        None => match profile_monitor_id {
            Some(p) => Some(p@),
            None => None,
        },
    }
}

pub fn requested_monitor_id(request_monitor_id: &Option<String>, profile_monitor_id: &Option<String>) -> (r: Option<
    String,
>)
    ensures
        match r {
            Some(s) => requested_monitor(*request_monitor_id, *profile_monitor_id) == Some(s@),
            None => requested_monitor(*request_monitor_id, *profile_monitor_id) is None,
        },
{
    match request_monitor_id {
        Some(id) => {
            if trim_chars(&to_chars(id.as_str())).len() > 0 {
                return Some(id.clone());
            }
        },
        None => {},
    }
    match profile_monitor_id {
        Some(p) => Some(p.clone()),
        None => None,
    }
}

pub open spec fn monitor_id_text(index: nat) -> Seq<char> {
    "monitor-"@ + decimal(index)
}

/// The index that an id of the form `monitor-<n>` names.
pub open spec fn monitor_index_in_id(id: Seq<char>) -> Option<nat> {
    if has_prefix(id, "monitor-"@) {
        parse_usize(id.skip(8))
    } else {
        None
    }
}

pub open spec fn first_named_from(names: Seq<Option<Seq<char>>>, id: Seq<char>, i: int) -> Option<int>
    decreases names.len() - i,
{
    if i < 0 || i >= names.len() {
        None
    } else if names[i] == Some(id) {
        Some(i)
    } else {
        first_named_from(names, id, i + 1)
    }
}

pub open spec fn name_views(names: Seq<Option<String>>) -> Seq<Option<Seq<char>>> {
    Seq::new(names.len(), |i: int| match names[i] {
        Some(n) => Some(n@),
        None => None,
    })
}

/// The monitor to use among monitors with the given names: none when there are
/// none; the first when none is asked for; else the one that `monitor-<n>`
/// names, else the first with the asked-for name.
pub open spec fn select_monitor(names: Seq<Option<Seq<char>>>, requested: Option<Seq<char>>) -> Option<int> {
    if names.len() == 0 {
        None
    } else {
        match requested {
            None => Some(0),
            Some(id) => match monitor_index_in_id(id) {
                Some(k) => if k < names.len() {
                    Some(k as int)
                } else {
                    first_named_from(names, id, 0)
                },
                None => first_named_from(names, id, 0),
            },
        }
    }
}

/// Picks the monitor for the overlay (see [`select_monitor`]).
pub fn select_tauri_monitor(monitor_names: &Vec<Option<String>>, requested_monitor_id: Option<&str>) -> (r: Option<usize>)
    ensures
        match select_monitor(name_views(monitor_names@), match requested_monitor_id {
            Some(id) => Some(id@),
            None => None,
        }) {
            Some(k) => r matches Some(i) && i == k && i < monitor_names@.len(),
            None => r is None,
        },
{
    let n = monitor_names.len();
    if n == 0 {
        return None;
    }
    let id = match requested_monitor_id {
        None => {
            return Some(0);
        },
        Some(id) => id,
    };
    let idc = to_chars(id);
    let prefix = to_chars("monitor-");
    proof {
        reveal_strlit("monitor-");
    }
    if starts_with_chars(&idc, &prefix) {
        let rest = subrange_chars(&idc, 8, idc.len());
        assert(rest@ =~= idc@.skip(8));
        match parse_usize_chars(&rest) {
            Some(index) => {
                if index < n {
                    return Some(index);
                }
            },
            None => {},
        }
    }
    let ghost views = name_views(monitor_names@);
    assert(select_monitor(views, Some(id@)) == first_named_from(views, id@, 0));
    let mut i: usize = 0;
    while i < n
        invariant
            select_monitor(views, Some(id@)) == first_named_from(views, id@, 0),
            requested_monitor_id == Some(id),
            n == monitor_names@.len(),
            i <= n,
            views == name_views(monitor_names@),
            idc@ == id@,
            first_named_from(views, id@, 0) == first_named_from(views, id@, i as int),
        decreases n - i,
    {
        match &monitor_names[i] {
            Some(name) => {
                if chars_equal(&to_chars(name.as_str()), &idc) {
                    assert(views[i as int] == Some(id@));
                    return Some(i);
                }
            },
            None => {},
        }
        i = i + 1;
    }
    None
}

/// How the monitors of the main window could be listed.
#[derive(Debug, Clone)]
pub enum MonitorListing {
    /// There is no main window to ask.
    NoMainWindow,
    /// Listing failed; the message says why.
    Unavailable(String),
    /// The monitors' names, in order.
    Names(Vec<Option<String>>),
}

/// Chooses the monitor for the overlay among those listed, noting the outcome
/// in `messages`: the monitor chosen, or why the calibrated size is used instead.
pub fn choose_overlay_monitor(listing: &MonitorListing, requested: &Option<String>, messages: &mut Vec<String>) -> (r:
    Option<usize>)
    ensures
        match listing {
            MonitorListing::NoMainWindow => r is None && seq_views(final(messages)@) == seq_views(old(messages)@).push(
                "未找到 main 窗口，无法读取显示器列表，改用校准截图尺寸降级。"@),
            MonitorListing::Unavailable(e) => r is None && seq_views(final(messages)@) == seq_views(
                old(messages)@,
            ).push("读取 Tauri 显示器列表失败，改用校准截图尺寸降级: "@ + e@),
            MonitorListing::Names(ns) => match select_monitor(name_views(ns@), match requested {
                Some(id) => Some(id@),
                None => None,
            }) {
                Some(k) => r matches Some(i) && i == k && seq_views(final(messages)@) == seq_views(old(messages)@).push(
                    "使用 Tauri 显示器 "@ + monitor_id_text(k as nat) + " 创建 Overlay POC。"@),
                None => r is None && match requested {
                    Some(id) => seq_views(final(messages)@) == seq_views(old(messages)@).push(
                        "未在 Tauri 显示器列表中找到 "@ + id@ + "，改用校准截图尺寸降级。"@),
                    None => final(messages)@ == old(messages)@,
                },
            },
        },
{
    match listing {
        MonitorListing::NoMainWindow => {
            messages.push(str_to_string("未找到 main 窗口，无法读取显示器列表，改用校准截图尺寸降级。"));
            proof {
                assert(seq_views(messages@) =~= seq_views(old(messages)@).push(
                    "未找到 main 窗口，无法读取显示器列表，改用校准截图尺寸降级。"@));
            }
            None
        },
        MonitorListing::Unavailable(e) => {
            let mut m = to_chars("读取 Tauri 显示器列表失败，改用校准截图尺寸降级: ");
            append_chars(&mut m, &to_chars(e.as_str()));
            messages.push(string_from_chars(m.as_slice()));
            proof {
                assert(seq_views(messages@) =~= seq_views(old(messages)@).push(
                    "读取 Tauri 显示器列表失败，改用校准截图尺寸降级: "@ + e@));
            }
            None
        },
        MonitorListing::Names(ns) => {
            let req: Option<&str> = match requested {
                Some(id) => Some(id.as_str()),
                None => None,
            };
            match select_tauri_monitor(ns, req) {
                Some(i) => {
                    let mut m = to_chars("使用 Tauri 显示器 monitor-");
                    append_chars(&mut m, &decimal_chars(i as u64));
                    append_chars(&mut m, &to_chars(" 创建 Overlay POC。"));
                    proof {
                        reveal_strlit("使用 Tauri 显示器 monitor-");
                        reveal_strlit("使用 Tauri 显示器 ");
                        reveal_strlit("monitor-");
                        assert(m@ =~= "使用 Tauri 显示器 "@ + monitor_id_text(i as nat) + " 创建 Overlay POC。"@);
                    }
                    messages.push(string_from_chars(m.as_slice()));
                    proof {
                        assert(seq_views(messages@) =~= seq_views(old(messages)@).push(
                            "使用 Tauri 显示器 "@ + monitor_id_text(i as nat) + " 创建 Overlay POC。"@));
                    }
                    Some(i)
                },
                None => {
                    match requested {
                        Some(id) => {
                            let mut m = to_chars("未在 Tauri 显示器列表中找到 ");
                            append_chars(&mut m, &to_chars(id.as_str()));
                            append_chars(&mut m, &to_chars("，改用校准截图尺寸降级。"));
                            messages.push(string_from_chars(m.as_slice()));
                            proof {
                                assert(seq_views(messages@) =~= seq_views(old(messages)@).push(
                                    "未在 Tauri 显示器列表中找到 "@ + id@ + "，改用校准截图尺寸降级。"@));
                            }
                        },
                        None => {},
                    }
                    None
                },
            }
        },
    }
}

/// The size the overlay falls back to without a calibration profile.
pub fn fallback_overlay_bounds(messages: &mut Vec<String>) -> (r: RectInfo)
    ensures
        r == (RectInfo { x: 0, y: 0, width: 1280, height: 720 }),
        seq_views(final(messages)@) == seq_views(old(messages)@).push(
            "未找到校准配置，使用 1280x720 作为 Overlay POC 降级尺寸。"@),
{
    messages.push(str_to_string("未找到校准配置，使用 1280x720 作为 Overlay POC 降级尺寸。"));
    proof {
        assert(seq_views(messages@) =~= seq_views(old(messages)@).push(
            "未找到校准配置，使用 1280x720 作为 Overlay POC 降级尺寸。"@));
    }
    RectInfo { x: 0, y: 0, width: 1280, height: 720 }
}

/// The monitor that a listing offers for the requested id.
pub open spec fn listing_choice(listing: MonitorListing, requested: Option<Seq<char>>) -> Option<int> {
    match listing {
        MonitorListing::Names(ns) => select_monitor(name_views(ns@), requested),
        _ => None,
    }
}

/// The note that choosing among a listing adds to the messages, if any.
pub open spec fn listing_note(listing: MonitorListing, requested: Option<Seq<char>>) -> Option<Seq<char>> {
    match listing {
        MonitorListing::NoMainWindow => Some("未找到 main 窗口，无法读取显示器列表，改用校准截图尺寸降级。"@),
        MonitorListing::Unavailable(e) => Some("读取 Tauri 显示器列表失败，改用校准截图尺寸降级: "@ + e@),
        MonitorListing::Names(ns) => match select_monitor(name_views(ns@), requested) {
            Some(k) => Some("使用 Tauri 显示器 "@ + monitor_id_text(k as nat) + " 创建 Overlay POC。"@),
            None => match requested {
                Some(id) => Some("未在 Tauri 显示器列表中找到 "@ + id + "，改用校准截图尺寸降级。"@),
                None => None,
            },
        },
    }
}

/// What the overlay's target reads of a calibration profile.
#[derive(Debug, Clone)]
pub struct ProfileTargetFacts {
    pub monitor_id: String,
    pub monitor_name: String,
    pub screenshot_width: u32,
    pub screenshot_height: u32,
}

fn copy_profile(p: &ProfileTargetFacts) -> (r: ProfileTargetFacts)
    ensures
        r == *p,
{
    ProfileTargetFacts {
        monitor_id: p.monitor_id.clone(),
        monitor_name: p.monitor_name.clone(),
        screenshot_width: p.screenshot_width,
        screenshot_height: p.screenshot_height,
    }
}

pub open spec fn profile_monitor(profile: Option<ProfileTargetFacts>) -> Option<String> {
    match profile {
        Some(p) => Some(p.monitor_id),
        None => None,
    }
}

/// Where the overlay goes.
#[derive(Debug, Clone)]
pub enum OverlayTargetChoice {
    /// The bounds that the request gives.
    Request(RectInfo),
    /// The listed monitor at this index.
    Monitor(usize),
    /// The calibrated screenshot of this profile.
    Profile(ProfileTargetFacts),
    /// The default size.
    Fallback(RectInfo),
}

/// Chooses where the overlay goes: the request's bounds when it gives any (they
/// must have a size); else the monitor that the request (or, when it names none,
/// the calibration profile) asks for among those listed, or the first listed
/// when none is asked for; else the calibrated screenshot's size when there is a
/// profile; else 1280x720.  `profile` is `None` when there is no calibration
/// profile.  Each choice is noted in `messages`.
pub fn choose_overlay_target(
    request: &OverlayPocRequest,
    profile: &Option<ProfileTargetFacts>,
    listing: &MonitorListing,
    messages: &mut Vec<String>,
) -> (r: Result<OverlayTargetChoice, String>)
    ensures
        match request.target {
            Some(t) => if t.width == 0 || t.height == 0 {
                r matches Err(e) && e@ == "Overlay POC target 宽高必须大于 0"@ && final(messages)@ == old(messages)@
            } else {
                r == Ok::<OverlayTargetChoice, String>(OverlayTargetChoice::Request(
                    RectInfo { x: t.x, y: t.y, width: t.width, height: t.height },
                )) && seq_views(final(messages)@) == seq_views(old(messages)@).push(
                    "使用请求传入的 Overlay 目标尺寸。"@)
            },
            None => {
                let requested = requested_monitor(request.monitor_id, profile_monitor(*profile));
                let noted = match listing_note(*listing, requested) {
                    Some(m) => seq_views(old(messages)@).push(m),
                    None => seq_views(old(messages)@),
                };
                match listing_choice(*listing, requested) {
                    Some(k) => r == Ok::<OverlayTargetChoice, String>(OverlayTargetChoice::Monitor(k as usize))
                        && seq_views(final(messages)@) == noted,
                    None => if profile is Some {
                        r == Ok::<OverlayTargetChoice, String>(OverlayTargetChoice::Profile(profile->0))
                            && seq_views(final(messages)@) == noted
                    } else {
                        r == Ok::<OverlayTargetChoice, String>(OverlayTargetChoice::Fallback(
                            RectInfo { x: 0, y: 0, width: 1280, height: 720 },
                        )) && seq_views(final(messages)@) == noted.push(
                            "未找到校准配置，使用 1280x720 作为 Overlay POC 降级尺寸。"@)
                    },
                }
            },
        },
{
    match overlay_target_from_request(request, messages) {
        Some(Ok(rect)) => {
            return Ok(OverlayTargetChoice::Request(rect));
        },
        Some(Err(e)) => {
            return Err(e);
        },
        None => {},
    }
    let profile_monitor_id = match profile {
        Some(p) => Some(p.monitor_id.clone()),
        None => None,
    };
    let requested = requested_monitor_id(&request.monitor_id, &profile_monitor_id);
    match choose_overlay_monitor(listing, &requested, messages) {
        Some(i) => Ok(OverlayTargetChoice::Monitor(i)),
        None => match profile {
            Some(p) => Ok(OverlayTargetChoice::Profile(copy_profile(p))),
            None => Ok(OverlayTargetChoice::Fallback(fallback_overlay_bounds(messages))),
        },
    }
}

/// The name of where the overlay's bounds came from.
pub fn overlay_target_source(choice: &OverlayTargetChoice) -> (r: &'static str)
    ensures
        r@ == match choice {
            OverlayTargetChoice::Request(_) => "request.target"@,
            OverlayTargetChoice::Monitor(_) => "tauri.availableMonitors"@,
            OverlayTargetChoice::Profile(_) => "calibration.profileScreenshot"@,
            OverlayTargetChoice::Fallback(_) => "fallback.defaultSize"@,
        },
{
    match choice {
        OverlayTargetChoice::Request(_) => "request.target",
        OverlayTargetChoice::Monitor(_) => "tauri.availableMonitors",
        OverlayTargetChoice::Profile(_) => "calibration.profileScreenshot",
        OverlayTargetChoice::Fallback(_) => "fallback.defaultSize",
    }
}

/// The id `monitor-<index>` of a listed monitor.
pub fn overlay_monitor_id(index: usize) -> (r: String)
    ensures
        r@ == monitor_id_text(index as nat),
{
    let mut m = to_chars("monitor-");
    append_chars(&mut m, &decimal_chars(index as u64));
    string_from_chars(m.as_slice())
}

/// What is read of the chosen monitor: its name, its bounds in pixels and its
/// bounds in logical units (scaled by the monitor's scale factor).
#[derive(Debug, Clone)]
pub struct MonitorTargetFacts {
    pub name: Option<String>,
    pub bounds: RectInfo,
    pub logical_bounds: RectInfo,
}

/// The overlay's target: the monitor it is on, where its bounds came from, and
/// its bounds in pixels and in logical units.
#[derive(Debug, Clone)]
pub struct OverlayTargetRecord {
    pub monitor_id: Option<String>,
    pub monitor_name: Option<String>,
    pub source: String,
    pub bounds: RectInfo,
    pub logical_bounds: RectInfo,
}

pub open spec fn target_record_is(
    r: OverlayTargetRecord,
    monitor_id: Option<Seq<char>>,
    monitor_name: Option<Seq<char>>,
    source: Seq<char>,
    bounds: RectInfo,
    logical_bounds: RectInfo,
) -> bool {
    &&& opt_seq(r.monitor_id) == monitor_id
    &&& opt_seq(r.monitor_name) == monitor_name
    &&& r.source@ == source
    &&& r.bounds == bounds
    &&& r.logical_bounds == logical_bounds
}

pub open spec fn opt_seq(o: Option<String>) -> Option<Seq<char>> {
    match o {
        Some(s) => Some(s@),
        None => None,
    }
}

/// The target record for a choice: the request's bounds with the request's
/// monitor id; the chosen monitor's id, name and bounds; the profile's monitor
/// and its screenshot's size at the origin; or the default size with the
/// request's monitor id.  `monitor` is what was read of the chosen monitor.
pub fn overlay_target_record(
    choice: &OverlayTargetChoice,
    request_monitor_id: &Option<String>,
    monitor: &Option<MonitorTargetFacts>,
) -> (r: OverlayTargetRecord)
    requires
        choice is Monitor ==> monitor is Some,
    ensures
        match choice {
            OverlayTargetChoice::Request(b) => target_record_is(r, opt_seq(*request_monitor_id), None,
                "request.target"@, *b, *b),
            OverlayTargetChoice::Fallback(b) => target_record_is(r, opt_seq(*request_monitor_id), None,
                "fallback.defaultSize"@, *b, *b),
            OverlayTargetChoice::Monitor(i) => target_record_is(r, Some(monitor_id_text(*i as nat)),
                opt_seq(monitor->0.name), "tauri.availableMonitors"@, monitor->0.bounds,
                monitor->0.logical_bounds),
            OverlayTargetChoice::Profile(p) => {
                let b = RectInfo { x: 0, y: 0, width: p.screenshot_width, height: p.screenshot_height };
                target_record_is(r, Some(p.monitor_id@), Some(p.monitor_name@),
                    "calibration.profileScreenshot"@, b, b)
            },
        },
{
    let source = str_to_string(overlay_target_source(choice));
    match choice {
        OverlayTargetChoice::Request(b) | OverlayTargetChoice::Fallback(b) => OverlayTargetRecord {
            monitor_id: request_monitor_id.clone(),
            monitor_name: None,
            source,
            bounds: *b,
            logical_bounds: *b,
        },
        OverlayTargetChoice::Monitor(i) => {
            let m = monitor.as_ref().unwrap();
            OverlayTargetRecord {
                monitor_id: Some(overlay_monitor_id(*i)),
                monitor_name: m.name.clone(),
                source,
                bounds: m.bounds,
                logical_bounds: m.logical_bounds,
            }
        },
        OverlayTargetChoice::Profile(p) => {
            let b = RectInfo { x: 0, y: 0, width: p.screenshot_width, height: p.screenshot_height };
            OverlayTargetRecord {
                monitor_id: Some(p.monitor_id.clone()),
                monitor_name: Some(p.monitor_name.clone()),
                source,
                bounds: b,
                logical_bounds: b,
            }
        },
    }
}

} // verus!
