//! Checking a calibration profile before it is saved.
//!
//! The comparisons of the ratios themselves are made on floating-point numbers
//! by the caller; the profile reaches the library as the yes/no answers to those
//! comparisons, and the library decides, in the profile's order, which rule is
//! broken first and what the user is told.
use vstd::prelude::*;
use crate::text::{append_chars, decimal, decimal_chars, str_to_string, string_from_chars, to_chars, trim, trim_chars};

verus! {

/// The answers about one ratio region (`x`, `y`, `width`, `height` given as
/// fractions of the screenshot).
#[derive(Debug, Clone, Copy)]
pub struct RatioRegionFacts {
    /// `x` is a finite number in `0..=1`.
    pub x_in_unit: bool,
    /// `y` is a finite number in `0..=1`.
    pub y_in_unit: bool,
    /// `width` is a finite number in `0..=1`.
    pub width_in_unit: bool,
    /// `height` is a finite number in `0..=1`.
    pub height_in_unit: bool,
    /// `width > 0` and `height > 0`.
    pub positive_size: bool,
    /// `x + width <= 1` and `y + height <= 1`.
    pub within_screenshot: bool,
}

/// A region of one of the three card slots.
#[derive(Debug, Clone, Copy)]
pub struct SlottedRegionFacts {
    pub slot: u8,
    pub region: RatioRegionFacts,
}

/// What validating a calibration profile reads of it.
#[derive(Debug, Clone)]
pub struct CalibrationProfileFacts {
    pub version: u32,
    pub profile_name: String,
    pub monitor_id: String,
    pub monitor_name: String,
    pub screenshot_width: u32,
    pub screenshot_height: u32,
    /// `None` when the profile gives no DPI scale; otherwise whether the scale
    /// given is a finite number above zero.
    pub dpi_scale_positive: Option<bool>,
    pub language: String,
    pub name_regions: Vec<SlottedRegionFacts>,
    pub bottom_anchors: Vec<SlottedRegionFacts>,
    pub toggle_button_region: RatioRegionFacts,
}

// ---------------------------------------------------------------------------
// Messages
// ---------------------------------------------------------------------------
pub open spec fn labelled(label: Seq<char>, rest: Seq<char>) -> Seq<char> {
    "校准配置 "@ + label + rest
}

pub open spec fn range_message(label: Seq<char>, field: Seq<char>) -> Seq<char> {
    "校准配置 "@ + label + "."@ + field + " 必须在 0..=1 范围内"@
}

pub open spec fn duplicate_message(label: Seq<char>, slot: u8) -> Seq<char> {
    "校准配置 "@ + label + " slot "@ + decimal(slot as nat) + " 重复"@
}

// ---------------------------------------------------------------------------
// One region
// ---------------------------------------------------------------------------
/// The first rule that a region breaks: a ratio outside `0..=1` (x, y, width,
/// height in that order), then a size that is not positive, then a region that
/// leaves the screenshot.  `None` when it breaks none.
pub open spec fn region_error(label: Seq<char>, r: RatioRegionFacts) -> Option<Seq<char>> {
    if !r.x_in_unit {
        Some(range_message(label, "xRatio"@))
    } else if !r.y_in_unit {
        Some(range_message(label, "yRatio"@))
    } else if !r.width_in_unit {
        Some(range_message(label, "widthRatio"@))
    } else if !r.height_in_unit {
        Some(range_message(label, "heightRatio"@))
    } else if !r.positive_size {
        Some(labelled(label, " 宽高比例必须大于 0"@))
    } else if !r.within_screenshot {
        Some(labelled(label, " 区域不能超出截图范围"@))
    } else {
        None
    }
}

/// `Ok` exactly when `error` is `None`, and the message of `error` otherwise.
pub open spec fn outcome_is(r: Result<(), String>, error: Option<Seq<char>>) -> bool {
    match r {
        Ok(_) => error is None,
        Err(e) => error == Some(e@),
    }
}

fn labelled_message(label: &str, rest: &str) -> (r: String)
    ensures
        r@ == labelled(label@, rest@),
{
    let mut out = to_chars("校准配置 ");
    append_chars(&mut out, &to_chars(label));
    append_chars(&mut out, &to_chars(rest));
    string_from_chars(out.as_slice())
}

fn range_error(label: &str, field: &str) -> (r: String)
    ensures
        r@ == range_message(label@, field@),
{
    let mut out = to_chars("校准配置 ");
    append_chars(&mut out, &to_chars(label));
    append_chars(&mut out, &to_chars("."));
    append_chars(&mut out, &to_chars(field));
    append_chars(&mut out, &to_chars(" 必须在 0..=1 范围内"));
    string_from_chars(out.as_slice())
}

/// Checks one region under `label`.
pub fn validate_region(label: &str, region: &RatioRegionFacts) -> (r: Result<(), String>)
    ensures
        outcome_is(r, region_error(label@, *region)),
{
    if !region.x_in_unit {
        return Err(range_error(label, "xRatio"));
    }
    if !region.y_in_unit {
        return Err(range_error(label, "yRatio"));
    }
    if !region.width_in_unit {
        return Err(range_error(label, "widthRatio"));
    }
    if !region.height_in_unit {
        return Err(range_error(label, "heightRatio"));
    }
    if !region.positive_size {
        return Err(labelled_message(label, " 宽高比例必须大于 0"));
    }
    if !region.within_screenshot {
        return Err(labelled_message(label, " 区域不能超出截图范围"));
    }
    Ok(())
}

// ---------------------------------------------------------------------------
// The three slotted regions
// ---------------------------------------------------------------------------
/// The first rule broken by the regions from index `i` on, `seen` holding the
/// slots of those before: a slot outside `1..=3`, a slot met before, a region
/// that breaks a rule of its own; at the end, a slot that never came.
pub open spec fn slots_error_from(
    label: Seq<char>,
    rs: Seq<SlottedRegionFacts>,
    i: int,
    seen: Set<u8>,
) -> Option<Seq<char>>
    decreases rs.len() - i,
{
    if i < rs.len() {
        let s = rs[i].slot;
        if !(1 <= s <= 3) {
            Some(labelled(label, " slot 必须为 1、2、3"@))
        } else if seen.contains(s) {
            Some(duplicate_message(label, s))
        } else {
            match region_error(label, rs[i].region) {
                Some(e) => Some(e),
                None => slots_error_from(label, rs, i + 1, seen.insert(s)),
            }
        }
    } else if seen.contains(1u8) && seen.contains(2u8) && seen.contains(3u8) {
        None
    } else {
        Some(labelled(label, " slot 不完整"@))
    }
}

/// The first rule broken by a list of slotted regions: there must be three of
/// them, and then they are read in order.
pub open spec fn slots_error(label: Seq<char>, rs: Seq<SlottedRegionFacts>) -> Option<Seq<char>> {
    if rs.len() != 3 {
        Some(labelled(label, " 必须包含 3 个区域"@))
    } else {
        slots_error_from(label, rs, 0, Set::empty())
    }
}

fn duplicate_error(label: &str, slot: u8) -> (r: String)
    ensures
        r@ == duplicate_message(label@, slot),
{
    let mut out = to_chars("校准配置 ");
    append_chars(&mut out, &to_chars(label));
    append_chars(&mut out, &to_chars(" slot "));
    append_chars(&mut out, &decimal_chars(slot as u64));
    append_chars(&mut out, &to_chars(" 重复"));
    string_from_chars(out.as_slice())
}

/// Checks the three regions of the card slots under `label`: three regions,
/// slots 1, 2 and 3 each once, each region valid.
pub fn validate_slotted_regions(label: &str, regions: &[SlottedRegionFacts]) -> (r: Result<(), String>)
    ensures
        outcome_is(r, slots_error(label@, regions@)),
{
    if regions.len() != 3 {
        return Err(labelled_message(label, " 必须包含 3 个区域"));
    }
    let mut seen1 = false;
    let mut seen2 = false;
    let mut seen3 = false;
    let ghost mut seen: Set<u8> = Set::empty();
    let mut i: usize = 0;
    while i < regions.len()
        invariant
            regions@.len() == 3,
            i <= regions@.len(),
            seen1 == seen.contains(1u8),
            seen2 == seen.contains(2u8),
            seen3 == seen.contains(3u8),
            forall|v: u8| seen.contains(v) ==> 1 <= v <= 3,
            slots_error(label@, regions@) == slots_error_from(label@, regions@, i as int, seen),
        decreases regions.len() - i,
    {
        let region = regions[i];
        let s = region.slot;
        if s < 1 || s > 3 {
            return Err(labelled_message(label, " slot 必须为 1、2、3"));
        }
        let dup = if s == 1 { seen1 } else if s == 2 { seen2 } else { seen3 };
        if dup {
            return Err(duplicate_error(label, s));
        }
        match validate_region(label, &region.region) {
            Err(e) => {
                return Err(e);
            },
            Ok(()) => {},
        }
        if s == 1 {
            seen1 = true;
        } else if s == 2 {
            seen2 = true;
        } else {
            seen3 = true;
        }
        proof {
            seen = seen.insert(s);
        }
        i = i + 1;
    }
    if seen1 && seen2 && seen3 {
        Ok(())
    } else {
        Err(labelled_message(label, " slot 不完整"))
    }
}

// ---------------------------------------------------------------------------
// The whole profile
// ---------------------------------------------------------------------------
/// The first rule a profile breaks, in the order the profile is checked.
pub open spec fn profile_error(p: CalibrationProfileFacts) -> Option<Seq<char>> {
    if p.version == 0 {
        Some("校准配置 version 必须大于 0"@)
    } else if trim(p.profile_name@).len() == 0 {
        Some("校准配置 profileName 不能为空"@)
    } else if trim(p.monitor_id@).len() == 0 {
        Some("校准配置 monitorId 不能为空"@)
    } else if trim(p.monitor_name@).len() == 0 {
        Some("校准配置 monitorName 不能为空"@)
    } else if p.screenshot_width == 0 || p.screenshot_height == 0 {
        Some("校准配置截图宽高必须大于 0"@)
    } else if p.dpi_scale_positive == Some(false) {
        Some("校准配置 dpiScale 必须大于 0"@)
    } else if trim(p.language@).len() == 0 {
        Some("校准配置 language 不能为空"@)
    } else {
        match slots_error("nameRegions"@, p.name_regions@) {
            Some(e) => Some(e),
            None => match slots_error("bottomAnchors"@, p.bottom_anchors@) {
                Some(e) => Some(e),
                None => region_error("toggleButtonRegion"@, p.toggle_button_region),
            },
        }
    }
}

fn is_blank(s: &String) -> (r: bool)
    ensures
        r == (trim(s@).len() == 0),
{
    trim_chars(&to_chars(s.as_str())).len() == 0
}

/// Checks a calibration profile; the error names the first rule it breaks.
pub fn validate_calibration_profile(profile: &CalibrationProfileFacts) -> (r: Result<(), String>)
    ensures
        outcome_is(r, profile_error(*profile)),
{
    if profile.version == 0 {
        return Err(str_to_string("校准配置 version 必须大于 0"));
    }
    if is_blank(&profile.profile_name) {
        return Err(str_to_string("校准配置 profileName 不能为空"));
    }
    if is_blank(&profile.monitor_id) {
        return Err(str_to_string("校准配置 monitorId 不能为空"));
    }
    if is_blank(&profile.monitor_name) {
        return Err(str_to_string("校准配置 monitorName 不能为空"));
    }
    if profile.screenshot_width == 0 || profile.screenshot_height == 0 {
        return Err(str_to_string("校准配置截图宽高必须大于 0"));
    }
    if let Some(false) = profile.dpi_scale_positive {
        return Err(str_to_string("校准配置 dpiScale 必须大于 0"));
    }
    if is_blank(&profile.language) {
        return Err(str_to_string("校准配置 language 不能为空"));
    }
    validate_slotted_regions("nameRegions", profile.name_regions.as_slice())?;
    validate_slotted_regions("bottomAnchors", profile.bottom_anchors.as_slice())?;
    validate_region("toggleButtonRegion", &profile.toggle_button_region)
}

// ---------------------------------------------------------------------------
// Laws
// ---------------------------------------------------------------------------
/// The regions from `i` on are acceptable given the slots `seen` before them.
pub open spec fn slots_good_from(
    label: Seq<char>,
    rs: Seq<SlottedRegionFacts>,
    i: int,
    seen: Set<u8>,
) -> bool {
    &&& forall|j: int| #![trigger rs[j]] i <= j < rs.len() ==> 1 <= rs[j].slot <= 3 && !seen.contains(rs[j].slot)
        && region_error(label, rs[j].region) is None
    &&& forall|j: int, k: int| #![trigger rs[j], rs[k]] i <= j < k < rs.len() ==> rs[j].slot != rs[k].slot
    &&& forall|v: u8| 1 <= v <= 3 ==> seen.contains(v) || exists|j: int| #![trigger rs[j]] i <= j < rs.len() && rs[j].slot == v
}

proof fn lemma_slots_from(label: Seq<char>, rs: Seq<SlottedRegionFacts>, i: int, seen: Set<u8>)
    requires
        0 <= i <= rs.len(),
    ensures
        slots_error_from(label, rs, i, seen) is None <==> slots_good_from(label, rs, i, seen),
    decreases rs.len() - i,
{
    if i < rs.len() {
        let s = rs[i].slot;
        if 1 <= s <= 3 && !seen.contains(s) && region_error(label, rs[i].region) is None {
            let seen2 = seen.insert(s);
            lemma_slots_from(label, rs, i + 1, seen2);
            if slots_good_from(label, rs, i, seen) {
                assert forall|v: u8| 1 <= v <= 3 implies seen2.contains(v) || exists|j: int| #![trigger rs[j]] i + 1 <= j < rs.len() && rs[j].slot == v by {
                    if !seen.contains(v) && v != s {
                        let j = choose|j: int| #![trigger rs[j]] i <= j < rs.len() && rs[j].slot == v;
                        assert(j != i);
                    }
                }
                assert forall|j: int| #![trigger rs[j]] i + 1 <= j < rs.len() implies 1 <= rs[j].slot <= 3 && !seen2.contains(rs[j].slot)
                    && region_error(label, rs[j].region) is None by {
                    assert(rs[i].slot != rs[j].slot);
                }
            }
            if slots_good_from(label, rs, i + 1, seen2) {
                assert forall|v: u8| 1 <= v <= 3 implies seen.contains(v) || exists|j: int| #![trigger rs[j]] i <= j < rs.len() && rs[j].slot == v by {
                    if v == s {
                        assert(rs[i].slot == v);
                    } else if !seen.contains(v) {
                        assert(!seen2.contains(v));
                        let j = choose|j: int| #![trigger rs[j]] i + 1 <= j < rs.len() && rs[j].slot == v;
                        assert(i <= j < rs.len() && rs[j].slot == v);
                    }
                }
                assert forall|j: int, k: int| #![trigger rs[j], rs[k]] i <= j < k < rs.len() implies rs[j].slot != rs[k].slot by {
                    if j == i {
                        assert(!seen2.contains(rs[k].slot));
                    }
                }
            }
        } else {
            assert(!slots_good_from(label, rs, i, seen)) by {
                assert(rs[i].slot == s);
            }
        }
    }
}

/// The three regions of a slot list are accepted exactly when there are three of
/// them, their slots are 1, 2 and 3 in some order, and each region is valid; the
/// list is never refused as incomplete once it has three regions.
pub proof fn lemma_slotted_regions_accepted(label: Seq<char>, rs: Seq<SlottedRegionFacts>)
    ensures
        slots_error(label, rs) is None <==> {
            &&& rs.len() == 3
            &&& forall|j: int| 0 <= j < 3 ==> #[trigger] rs[j].slot >= 1 && rs[j].slot <= 3
                && region_error(label, rs[j].region) is None
            &&& rs[0].slot != rs[1].slot && rs[0].slot != rs[2].slot && rs[1].slot != rs[2].slot
        },
        rs.len() == 3 ==> slots_error(label, rs) != Some(labelled(label, " slot 不完整"@)),
{
    if rs.len() == 3 {
        lemma_slots_from(label, rs, 0, Set::empty());
        if forall|j: int| 0 <= j < 3 ==> #[trigger] rs[j].slot >= 1 && rs[j].slot <= 3
            && region_error(label, rs[j].region) is None {
            if rs[0].slot != rs[1].slot && rs[0].slot != rs[2].slot && rs[1].slot != rs[2].slot {
                assert forall|v: u8| 1 <= v <= 3 implies Set::<u8>::empty().contains(v) || exists|j: int| #![trigger rs[j]] 0 <= j < rs.len() && rs[j].slot == v by {
                    if rs[0].slot == v {
                        assert(rs[0].slot == v);
                    } else if rs[1].slot == v {
                        assert(rs[1].slot == v);
                    } else {
                        assert(rs[2].slot == v);
                    }
                }
                assert(slots_good_from(label, rs, 0, Set::empty()));
            }
        }
        if slots_good_from(label, rs, 0, Set::empty()) {
            assert(rs[0].slot != rs[1].slot);
            assert(rs[0].slot != rs[2].slot);
            assert(rs[1].slot != rs[2].slot);
        }
        lemma_incomplete_unreachable(label, rs, 0, Set::empty());
    }
}

proof fn lemma_incomplete_unreachable(label: Seq<char>, rs: Seq<SlottedRegionFacts>, i: int, seen: Set<u8>)
    requires
        0 <= i <= rs.len(),
        rs.len() == 3,
        seen.finite(),
        seen.len() == i,
        forall|v: u8| seen.contains(v) ==> 1 <= v <= 3,
    ensures
        slots_error_from(label, rs, i, seen) != Some(labelled(label, " slot 不完整"@)),
    decreases rs.len() - i,
{
    if i < rs.len() {
        let s = rs[i].slot;
        if 1 <= s <= 3 && !seen.contains(s) && region_error(label, rs[i].region) is None {
            lemma_incomplete_unreachable(label, rs, i + 1, seen.insert(s));
        } else if !(1 <= s <= 3) {
            reveal_strlit(" slot 必须为 1、2、3");
            reveal_strlit(" slot 不完整");
            lemma_messages_differ(label, " slot 必须为 1、2、3"@, " slot 不完整"@, 6);
        } else if seen.contains(s) {
            lemma_duplicate_differs(label, s);
        } else {
            lemma_region_error_differs(label, rs[i].region);
        }
    } else {
        let full = set![1u8, 2u8, 3u8];
        assert(seen.subset_of(full));
        vstd::set_lib::lemma_len_subset(seen, full);
        assert(full.len() == 3) by {
            assert(full =~= set![1u8].insert(2u8).insert(3u8));
        }
        vstd::set_lib::lemma_subset_equality(seen, full);
        assert(seen.contains(1u8) && seen.contains(2u8) && seen.contains(3u8));
    }
}

proof fn lemma_labelled_at(label: Seq<char>, rest: Seq<char>, k: int)
    requires
        0 <= k < rest.len(),
    ensures
        labelled(label, rest)[5 + label.len() + k] == rest[k],
        labelled(label, rest).len() == 5 + label.len() + rest.len(),
{
    reveal_strlit("校准配置 ");
}

proof fn lemma_messages_differ(label: Seq<char>, a: Seq<char>, b: Seq<char>, k: int)
    requires
        0 <= k < a.len(),
        k < b.len(),
        a[k] != b[k],
    ensures
        labelled(label, a) != labelled(label, b),
{
    lemma_labelled_at(label, a, k);
    lemma_labelled_at(label, b, k);
}

proof fn lemma_duplicate_differs(label: Seq<char>, s: u8)
    requires
        1 <= s <= 3,
    ensures
        duplicate_message(label, s) != labelled(label, " slot 不完整"@),
{
    reveal_strlit(" slot ");
    reveal_strlit(" slot 不完整");
    let rest = " slot "@ + decimal(s as nat) + " 重复"@;
    assert(duplicate_message(label, s) =~= labelled(label, rest));
    assert(decimal(s as nat) == seq![crate::text::digit_char(s as nat)]);
    assert(rest[6] == crate::text::digit_char(s as nat));
    lemma_labelled_at(label, rest, 6);
    lemma_labelled_at(label, " slot 不完整"@, 6);
}

proof fn lemma_region_error_differs(label: Seq<char>, r: RatioRegionFacts)
    requires
        region_error(label, r) is Some,
    ensures
        region_error(label, r) != Some(labelled(label, " slot 不完整"@)),
{
    reveal_strlit(" slot 不完整");
    reveal_strlit(" 宽高比例必须大于 0");
    reveal_strlit(" 区域不能超出截图范围");
    reveal_strlit(".");
    let e = region_error(label, r)->0;
    if !r.x_in_unit || !r.y_in_unit || !r.width_in_unit || !r.height_in_unit {
        let field = if !r.x_in_unit {
            "xRatio"@
        } else if !r.y_in_unit {
            "yRatio"@
        } else if !r.width_in_unit {
            "widthRatio"@
        } else {
            "heightRatio"@
        };
        let rest = "."@ + field + " 必须在 0..=1 范围内"@;
        assert(e =~= labelled(label, rest));
        lemma_labelled_at(label, rest, 0);
        lemma_labelled_at(label, " slot 不完整"@, 0);
    } else if !r.positive_size {
        lemma_messages_differ(label, " 宽高比例必须大于 0"@, " slot 不完整"@, 1);
    } else {
        lemma_messages_differ(label, " 区域不能超出截图范围"@, " slot 不完整"@, 1);
    }
}

/// A profile is accepted exactly when its version is above zero, its names and
/// language are not blank, its screenshot has a size, its DPI scale (if given)
/// is positive, both slot lists are accepted and the toggle button's region is
/// valid.
pub proof fn lemma_profile_accepted(p: CalibrationProfileFacts)
    ensures
        profile_error(p) is None <==> {
            &&& p.version > 0
            &&& trim(p.profile_name@).len() > 0
            &&& trim(p.monitor_id@).len() > 0
            &&& trim(p.monitor_name@).len() > 0
            &&& p.screenshot_width > 0 && p.screenshot_height > 0
            &&& p.dpi_scale_positive != Some(false)
            &&& trim(p.language@).len() > 0
            &&& slots_error("nameRegions"@, p.name_regions@) is None
            &&& slots_error("bottomAnchors"@, p.bottom_anchors@) is None
            &&& region_error("toggleButtonRegion"@, p.toggle_button_region) is None
        },
{
}

} // verus!
