//! Linux backlight devices, `/sys/class/backlight/*`
use std::path::PathBuf;
use vstd::prelude::*;
use crate::shared::{Class, Device, DeviceError, IRRELEVANT};
use crate::text::{chars_are, chars_of, trim, trim_chars, string_of};
use crate::util::{
    brightness_request, number_from_bytes, push_brightness_lines, spec_brightness_line,
    spec_brightness_lines, spec_number,
};

verus! {

/// the directory that holds the backlight devices
pub const BACKLIGHT: &'static str = "/sys/class/backlight";

/// A backlight device
#[derive(Debug)]
pub struct Backlight {
    pub name: String,
    pub path: PathBuf,
    pub max_brightness: usize,
    /// backlight control interface, `firmware`, `platform` or `raw`
    pub kind: Option<String>,
    /// whether a display is attached to the panel this backlight controls,
    /// `None` if that could not be determined
    pub connected: Option<bool>,
}

/// preference of a backlight control interface: firmware over platform over
/// raw over anything else
pub open spec fn kind_rank(kind: Option<String>) -> u8 {
    match kind {
        Some(k) => if k@ == "firmware"@ {
            0
        } else if k@ == "platform"@ {
            1
        } else if k@ == "raw"@ {
            2
        } else {
            3
        },
        None => 3,
    }
}

/// whether a display status file's text reports a connected display
pub open spec fn status_connected(status: Seq<char>) -> bool {
    trim(status) == "connected"@
}

/// Whether the device behind a backlight is a connected display, from the
/// status of the device itself where it is a drm connector, else from the
/// statuses of the connectors of the gpu it is (`None` where there is no
/// such gpu), else unknown
pub open spec fn spec_connected(
    device_status: Option<String>,
    connector_statuses: Option<Vec<String>>,
) -> Option<bool> {
    match device_status {
        Some(status) => Some(status_connected(status@)),
        None => match connector_statuses {
            None => None,
            Some(statuses) => if statuses@.len() == 0 {
                None
            } else {
                Some(
                    exists|i: int|
                        0 <= i < statuses@.len() && #[trigger] status_connected(statuses@[i]@),
                )
            },
        },
    }
}

/// Resolve whether the device behind a backlight is a connected display.
///
/// `<backlight>/device` either points at a drm connector directly, whose
/// `status` is `device_status`, or at the gpu (nvidia), whose connectors
/// report `connector_statuses`. A backlight is connected if any connector it
/// can be mapped to reports `connected`. Devices without drm connectors
/// (acpi_video) yield `None`.
pub fn connected(device_status: Option<String>, connector_statuses: Option<Vec<String>>) -> (r:
    Option<bool>)
    ensures
        r == spec_connected(device_status, connector_statuses),
{
    match device_status {
        Some(status) => {
            let c = chars_of(status.as_str());
            let t = trim_chars(&c);
            Some(chars_are(&t, "connected"))
        },
        None => match connector_statuses {
            None => None,
            Some(statuses) => {
                let mut found = false;
                let mut any_connected = false;
                let mut i: usize = 0;
                while i < statuses.len()
                    invariant
                        i <= statuses@.len(),
                        found == (i > 0),
                        any_connected == exists|k: int|
                            0 <= k < i && #[trigger] status_connected(statuses@[k]@),
                    decreases statuses.len() - i,
                {
                    let c = chars_of(statuses[i].as_str());
                    let t = trim_chars(&c);
                    let this = chars_are(&t, "connected");
                    found = true;
                    any_connected = any_connected || this;
                    assert(this == status_connected(statuses@[i as int]@));
                    i = i + 1;
                }
                if found {
                    Some(any_connected)
                } else {
                    None
                }
            },
        },
    }
}

impl Backlight {
    /// Builds a backlight from what its sysfs directory `path` holds: its
    /// file name, the contents of `max_brightness`, the text of `type` (`None`
    /// where it could not be read) and whether its display is connected
    pub fn try_from_parts(
        path: PathBuf,
        file_name: Option<String>,
        max_brightness_file: &[u8],
        type_file: Option<String>,
        connected: Option<bool>,
    ) -> (r: Result<Backlight, DeviceError>)
        ensures
            file_name is None ==> r == Err::<Backlight, DeviceError>(DeviceError::InvalidFilename),
            file_name is Some && spec_number(max_brightness_file@) is Err ==> r == Err::<
                Backlight,
                DeviceError,
            >(spec_number(max_brightness_file@)->Err_0),
            file_name is Some && spec_number(max_brightness_file@) is Ok ==> (r matches Ok(b) && {
                &&& b.name@ == file_name->0@
                &&& b.path == path
                &&& b.max_brightness == spec_number(max_brightness_file@)->Ok_0
                &&& (b.kind is Some <==> type_file is Some)
                &&& (b.kind matches Some(k) ==> k@ == trim(type_file->0@))
                &&& b.connected == connected
            }),
    {
        let name = match file_name {
            None => return Err(DeviceError::InvalidFilename),
            Some(n) => n,
        };
        let max_brightness = match number_from_bytes(max_brightness_file) {
            Err(e) => return Err(e),
            Ok(m) => m,
        };
        let kind = match type_file {
            None => None,
            Some(t) => {
                let c = chars_of(t.as_str());
                Some(string_of(&trim_chars(&c)))
            },
        };
        Ok(Backlight { name, path, max_brightness, kind, connected })
    }

    /// the contents to write to the `brightness` file to set the brightness
    /// to `b`; brightness above the maximum is refused
    pub fn brightness_request(&self, b: usize) -> (r: Result<String, DeviceError>)
        ensures
            r is Ok <==> b <= self.max_brightness,
            r matches Ok(s) ==> s@ == spec_brightness_line(b as nat),
            r matches Err(e) ==> e == DeviceError::ExceedsMax,
    {
        brightness_request(b, self.max_brightness)
    }

    /// the brightness that the contents of the `brightness` file hold
    pub fn brightness_from(&self, brightness_file: &[u8]) -> (r: Result<usize, DeviceError>)
        ensures
            r == spec_number(brightness_file@),
    {
        number_from_bytes(brightness_file)
    }

    /// the report on this backlight, given its current brightness
    pub open spec fn spec_describe(&self, brightness: nat) -> Seq<char> {
        self.name@ + seq!['\n'] + match self.kind {
            Some(k) => "\tType: "@ + k@ + seq!['\n'],
            None => Seq::empty(),
        } + match self.connected {
            Some(true) => "\tDisplay: connected\n"@,
            Some(false) => "\tDisplay: disconnected\n"@,
            None => Seq::empty(),
        } + spec_brightness_lines(brightness, self.max_brightness as nat)
    }

    /// the report on this backlight that `info` and `list` show, given its
    /// current brightness
    pub fn describe(&self, brightness: usize) -> (r: String)
        requires
            self.max_brightness == 0 || brightness * 100 <= usize::MAX,
        ensures
            r@ == self.spec_describe(brightness as nat),
    {
        let mut s = String::new();
        s.append(self.name.as_str());
        crate::text::push_char(&mut s, '\n');
        match &self.kind {
            Some(k) => {
                s.append("\tType: ");
                s.append(k.as_str());
                crate::text::push_char(&mut s, '\n');
            },
            None => {},
        }
        match self.connected {
            Some(true) => s.append("\tDisplay: connected\n"),
            Some(false) => s.append("\tDisplay: disconnected\n"),
            None => {},
        }
        push_brightness_lines(&mut s, brightness, self.max_brightness);
        assert(s@ =~= self.spec_describe(brightness as nat));
        s
    }
}

impl Device for Backlight {
    open spec fn spec_name(&self) -> Seq<char> {
        self.name@
    }

    open spec fn spec_class(&self) -> Class {
        Class::Backlight
    }

    /// backlights whose display is known to be disconnected are irrelevant
    open spec fn spec_rank(&self) -> u8 {
        if self.connected == Some(false) {
            (IRRELEVANT + kind_rank(self.kind)) as u8
        } else {
            kind_rank(self.kind)
        }
    }

    open spec fn spec_max(&self) -> Result<usize, DeviceError> {
        Ok(self.max_brightness)
    }

    fn name(&self) -> (r: &str) {
        self.name.as_str()
    }

    fn class(&self) -> (r: Class) {
        Class::Backlight
    }

    /// prefer firmware over platform over raw interfaces, see
    /// https://www.kernel.org/doc/html/latest/gpu/backlight.html. Backlights
    /// whose display is known to be disconnected are irrelevant
    fn rank(&self) -> (r: u8) {
        let kind: u8 = match &self.kind {
            Some(k) => {
                let c = chars_of(k.as_str());
                if chars_are(&c, "firmware") {
                    0
                } else if chars_are(&c, "platform") {
                    1
                } else if chars_are(&c, "raw") {
                    2
                } else {
                    3
                }
            },
            None => 3,
        };
        if self.connected == Some(false) {
            IRRELEVANT + kind
        } else {
            kind
        }
    }

    fn max(&self) -> (r: Result<usize, DeviceError>) {
        Ok(self.max_brightness)
    }
}

/// A connector that reports `connected` makes the backlight connected,
/// wherever it stands among the connectors of the gpu.
pub proof fn lemma_any_connector_connects(statuses: Vec<String>, i: int)
    requires
        0 <= i < statuses@.len(),
        trim(statuses@[i]@) == "connected"@,
    ensures
        spec_connected(None, Some(statuses)) == Some(true),
{
    assert(status_connected(statuses@[i]@));
}

/// Where no connector of the gpu reports `connected`, the backlight is
/// known to be disconnected; where the gpu has no readable connector, it is
/// unknown.
pub proof fn lemma_no_connector_connects(statuses: Vec<String>)
    requires
        forall|i: int| 0 <= i < statuses@.len() ==> trim(#[trigger] statuses@[i]@) != "connected"@,
    ensures
        statuses@.len() > 0 ==> spec_connected(None, Some(statuses)) == Some(false),
        statuses@.len() == 0 ==> spec_connected(None, Some(statuses)) == None::<bool>,
{
}

/// A device that is a connector itself decides alone: its own status tells,
/// whatever connectors are given besides; without a device status or
/// connectors nothing is known.
pub proof fn lemma_device_status_decides(status: String, statuses: Option<Vec<String>>)
    ensures
        spec_connected(Some(status), statuses) == Some(trim(status@) == "connected"@),
        spec_connected(None, None) == None::<bool>,
{
}

/// The report on a backlight is its name line, a type line exactly when the
/// type is known, a display line exactly when the connection is known
/// (`disconnected` only for a display known to be disconnected), whatever
/// the type, and then the brightness lines.
pub proof fn lemma_report_lines(b: &Backlight, brightness: nat)
    ensures
        ({
            let type_line = match b.kind {
                Some(k) => "\tType: "@ + k@ + seq!['\n'],
                None => Seq::<char>::empty(),
            };
            let tail = spec_brightness_lines(brightness, b.max_brightness as nat);
            &&& b.connected is None ==> b.spec_describe(brightness) == b.name@ + seq!['\n']
                + type_line + tail
            &&& b.connected == Some(false) ==> b.spec_describe(brightness) == b.name@ + seq!['\n']
                + type_line + "\tDisplay: disconnected\n"@ + tail
            &&& b.connected == Some(true) ==> b.spec_describe(brightness) == b.name@ + seq!['\n']
                + type_line + "\tDisplay: connected\n"@ + tail
        }),
{
    assert(b.connected is None ==> b.spec_describe(brightness) =~= b.name@ + seq!['\n'] + match b.kind {
        Some(k) => "\tType: "@ + k@ + seq!['\n'],
        None => Seq::<char>::empty(),
    } + spec_brightness_lines(brightness, b.max_brightness as nat));
}

} // verus!
