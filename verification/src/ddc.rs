//! Display Data Channel abstraction, see
//! https://en.wikipedia.org/wiki/Display_Data_Channel and
//! https://milek7.pl/ddcbacklight/mccs.pdf
use vstd::prelude::*;
use crate::shared::{Class, Device, DeviceError};

verus! {

/// what a monitor tells about itself
pub struct Edid {
    name: String,
}

/// A monitor whose brightness is controlled over its display data channel
pub struct Ddc {
    /// cached edid fetched at creation time
    edid: Edid,
    /// cached max fetched at creation time
    max: usize,
}

impl Ddc {
    /// the report on this monitor that `info` and `list` show
    pub fn describe(&self) -> (r: String)
        ensures
            r@ == "ddc"@.push('\n'),
    {
        let mut s = String::from_str("ddc");
        crate::text::push_char(&mut s, '\n');
        s
    }
}

impl Device for Ddc {
    closed spec fn spec_name(&self) -> Seq<char> {
        self.edid.name@
    }

    open spec fn spec_class(&self) -> Class {
        Class::Ddc
    }

    open spec fn spec_rank(&self) -> u8 {
        0
    }

    closed spec fn spec_max(&self) -> Result<usize, DeviceError> {
        Ok(self.max)
    }

    fn name(&self) -> (r: &str) {
        self.edid.name.as_str()
    }

    fn class(&self) -> (r: Class) {
        Class::Ddc
    }

    fn rank(&self) -> (r: u8) {
        0
    }

    fn max(&self) -> (r: Result<usize, DeviceError>) {
        Ok(self.max)
    }
}

/// the monitors reachable over a display data channel: none are enumerated
/// yet
pub fn ddc() -> (r: Result<Vec<Ddc>, DeviceError>)
    ensures
        r matches Ok(v) && v@.len() == 0,
{
    Ok(Vec::new())
}

} // verus!
