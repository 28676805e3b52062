//! Linux led devices, `/sys/class/leds/*`
use std::path::PathBuf;
use vstd::prelude::*;
use crate::shared::{Class, Device, DeviceError, IRRELEVANT};
use crate::text::{after_last_separator, after_last_separator_chars, chars_are, chars_of};
use crate::util::{
    brightness_request, number_from_bytes, push_brightness_lines, spec_brightness_line,
    spec_brightness_lines, spec_number,
};

verus! {

/// the directory that holds the led devices
pub const LED: &'static str = "/sys/class/leds";

/// A led device
#[derive(Debug)]
pub struct Led {
    pub name: String,
    pub path: PathBuf,
    pub max_brightness: usize,
}

/// whether `function` names a keyboard lock indicator that the kernel drives
pub open spec fn is_lock_indicator(function: Seq<char>) -> bool {
    ||| function == "capslock"@
    ||| function == "numlock"@
    ||| function == "scrolllock"@
    ||| function == "kana"@
    ||| function == "compose"@
}

/// the rank of a led called `name`: keyboard backlights first, lock
/// indicators last, all of them irrelevant
pub open spec fn led_rank(name: Seq<char>) -> u8 {
    let function = after_last_separator(name);
    if function == "kbd_backlight"@ {
        IRRELEVANT
    } else if is_lock_indicator(function) {
        (IRRELEVANT + 2) as u8
    } else {
        (IRRELEVANT + 1) as u8
    }
}

impl Led {
    /// Builds a led from what its sysfs directory `path` holds: its file
    /// name and the contents of `max_brightness`
    pub fn try_from_parts(path: PathBuf, file_name: Option<String>, max_brightness_file: &[u8]) -> (r:
        Result<Led, DeviceError>)
        ensures
            file_name is None ==> r == Err::<Led, DeviceError>(DeviceError::InvalidFilename),
            file_name is Some && spec_number(max_brightness_file@) is Err ==> r == Err::<
                Led,
                DeviceError,
            >(spec_number(max_brightness_file@)->Err_0),
            file_name is Some && spec_number(max_brightness_file@) is Ok ==> (r matches Ok(l) && {
                &&& l.name@ == file_name->0@
                &&& l.path == path
                &&& l.max_brightness == spec_number(max_brightness_file@)->Ok_0
            }),
    {
        let name = match file_name {
            None => return Err(DeviceError::InvalidFilename),
            Some(n) => n,
        };
        let max_brightness = match number_from_bytes(max_brightness_file) {
            Err(e) => return Err(e),
            Ok(m) => m,
        };
        Ok(Led { name, path, max_brightness })
    }

    /// the contents to write to the `brightness` file to set the brightness
    /// to `b`; brightness above the maximum is refused
    pub fn brightness_request(&self, b: usize) -> (r: Result<String, DeviceError>)
        ensures
            r is Ok <==> b <= self.max_brightness,
            r matches Ok(s) ==> s@ == spec_brightness_line(b as nat),
            r matches Err(e) ==> e == DeviceError::ExceedsMax,
    {
        brightness_request(b, self.max_brightness)
    }

    /// the brightness that the contents of the `brightness` file hold
    pub fn brightness_from(&self, brightness_file: &[u8]) -> (r: Result<usize, DeviceError>)
        ensures
            r == spec_number(brightness_file@),
    {
        number_from_bytes(brightness_file)
    }

    /// the report on this led, given its current brightness
    pub open spec fn spec_describe(&self, brightness: nat) -> Seq<char> {
        self.name@ + seq!['\n'] + spec_brightness_lines(brightness, self.max_brightness as nat)
    }

    /// the report on this led that `info` and `list` show, given its current
    /// brightness
    pub fn describe(&self, brightness: usize) -> (r: String)
        requires
            self.max_brightness == 0 || brightness * 100 <= usize::MAX,
        ensures
            r@ == self.spec_describe(brightness as nat),
    {
        let mut s = String::new();
        s.append(self.name.as_str());
        crate::text::push_char(&mut s, '\n');
        push_brightness_lines(&mut s, brightness, self.max_brightness);
        assert(s@ =~= self.spec_describe(brightness as nat));
        s
    }
}

impl Device for Led {
    open spec fn spec_name(&self) -> Seq<char> {
        self.name@
    }

    open spec fn spec_class(&self) -> Class {
        Class::Led
    }

    open spec fn spec_rank(&self) -> u8 {
        led_rank(self.name@)
    }

    open spec fn spec_max(&self) -> Result<usize, DeviceError> {
        Ok(self.max_brightness)
    }

    fn name(&self) -> (r: &str) {
        self.name.as_str()
    }

    fn class(&self) -> (r: Class) {
        Class::Led
    }

    /// leds are mostly keyboard indicators and network activity lights and
    /// therefore always irrelevant. Within them keyboard backlights come
    /// first, keyboard lock indicators driven by the kernel itself last
    fn rank(&self) -> (r: u8) {
        let name = chars_of(self.name.as_str());
        let function = after_last_separator_chars(&name);
        if chars_are(&function, "kbd_backlight") {
            IRRELEVANT
        } else if chars_are(&function, "capslock") || chars_are(&function, "numlock") || chars_are(
            &function,
            "scrolllock",
        ) || chars_are(&function, "kana") || chars_are(&function, "compose") {
            IRRELEVANT + 2
        } else {
            IRRELEVANT + 1
        }
    }

    fn max(&self) -> (r: Result<usize, DeviceError>) {
        Ok(self.max_brightness)
    }
}

} // verus!
