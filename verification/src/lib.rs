//! Verified core of a screen-capture diagnostic and overlay assistant.
use vstd::prelude::*;

pub mod text;
pub mod json;
pub mod html;
pub mod apexlol;
pub mod lookup;
pub mod cache;
pub mod overlay;
pub mod capture;
pub mod calibration;
pub mod live_client;
pub mod ocr;

verus! {

} // verus!
