//! The extended display identification data that a monitor reports over
//! its display data channel
use vstd::prelude::*;

verus! {

/// the eight bytes that every EDID block starts with
pub const HEADER: [u8; 8] = [0x00, 0xff, 0xff, 0xff, 0xff, 0xff, 0xff, 0x00];

/// edid structure
///
/// taken from https://github.com/torvalds/linux/blob/master/include/drm/drm_edid.h#L291
pub struct Edid {
    pub product_id: ProductId,
    pub name: Option<String>,
}

/// the vendor and product identification of a monitor
pub struct ProductId {
    pub manufacturer: [u8; 2],
    pub product_code: u16,
    pub serial: u32,
}

} // verus!
