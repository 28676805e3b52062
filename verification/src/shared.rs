//! Abstractions shared by all device kinds: the device class, the rank that
//! marks irrelevant devices, and the order in which devices are listed.
use vstd::prelude::*;
use crate::text::{
    chars_le, chars_le_exec, chars_of, lemma_chars_le_antisym, lemma_chars_le_refl,
    lemma_chars_le_total, lemma_chars_le_trans, decimal, push_decimal,
};

verus! {

/// Device category, ordered by how likely a user is to mean it when they
/// talk about "brightness": the internal panel first, external monitors
/// second, leds last
#[derive(Debug, Clone, Copy, PartialEq, Eq, Structural, PartialOrd, Ord, Hash)]
pub enum Class {
    Backlight,
    Ddc,
    Led,
}

/// the position of a class in the order of classes
pub open spec fn class_index(c: Class) -> int {
    match c {
        Class::Backlight => 0,
        Class::Ddc => 1,
        Class::Led => 2,
    }
}

/// the name under which a class is shown
pub open spec fn class_name(c: Class) -> Seq<char> {
    match c {
        Class::Backlight => "backlight"@,
        Class::Ddc => "ddc"@,
        Class::Led => "led"@,
    }
}

impl Class {
    /// the position of this class in the order of classes
    pub fn index(&self) -> (r: u8)
        ensures
            r as int == class_index(*self),
    {
        match self {
            Class::Backlight => 0,
            Class::Ddc => 1,
            Class::Led => 2,
        }
    }

    /// the name under which the class is shown
    pub fn as_str(&self) -> (r: &'static str)
        ensures
            r@ == class_name(*self),
    {
        match self {
            Class::Backlight => "backlight",
            Class::Ddc => "ddc",
            Class::Led => "led",
        }
    }
}

/// Devices with a [Device::rank] at or above this are considered irrelevant:
/// they still work when addressed explicitly but are hidden from listings and
/// never picked as default, e.g. keyboard lock leds or the backlight of a gpu
/// without a connected display
pub const IRRELEVANT: u8 = 128;

/// What can go wrong when reading or changing a device
#[derive(Debug, Clone, Copy, PartialEq, Eq, Structural)]
pub enum DeviceError {
    /// the device path names no file
    InvalidFilename,
    /// a device file holds bytes that are not UTF-8
    InvalidUtf8,
    /// a device file holds no number
    InvalidNumber,
    /// the brightness asked for exceeds the device's maximum
    ExceedsMax,
}

impl DeviceError {
    /// the message that describes the error
    pub fn message(&self) -> (r: &'static str)
        ensures
            r@ == match *self {
                DeviceError::InvalidFilename => "invalid device file name"@,
                DeviceError::InvalidUtf8 => "Invalid utf8 data in file"@,
                DeviceError::InvalidNumber => "Invalid number in file"@,
                DeviceError::ExceedsMax => "brightness exceeds max_brightness for the given device"@,
            },
    {
        match self {
            DeviceError::InvalidFilename => "invalid device file name",
            DeviceError::InvalidUtf8 => "Invalid utf8 data in file",
            DeviceError::InvalidNumber => "Invalid number in file",
            DeviceError::ExceedsMax => "brightness exceeds max_brightness for the given device",
        }
    }
}

/// A device whose brightness can be controlled
pub trait Device {
    /// the device's name
    spec fn spec_name(&self) -> Seq<char>;

    /// the device's class
    spec fn spec_class(&self) -> Class;

    /// the device's rank within its class
    spec fn spec_rank(&self) -> u8;

    /// the device's maximum brightness, or why it is not known
    spec fn spec_max(&self) -> Result<usize, DeviceError>;

    /// the device's name
    fn name(&self) -> (r: &str)
        ensures
            r@ == self.spec_name(),
    ;

    /// the device's class
    fn class(&self) -> (r: Class)
        ensures
            r == self.spec_class(),
    ;

    /// tie-break within a class, lower is preferred; devices are ordered by
    /// ([Device::class], [Device::rank], [Device::name]). Ranks at or above
    /// [IRRELEVANT] mark the device as not interesting by default
    fn rank(&self) -> (r: u8)
        ensures
            r == self.spec_rank(),
    ;

    /// get max brightness
    fn max(&self) -> (r: Result<usize, DeviceError>)
        ensures
            r == self.spec_max(),
    ;
}

/// `std::path::PathBuf`, the location of a device in sysfs; the library
/// carries it along and never looks inside
#[verifier::external_type_specification]
#[verifier::external_body]
pub struct ExPathBuf(std::path::PathBuf);

/// the key by which devices are ordered: class, rank, name
pub open spec fn spec_sort_key<D: Device>(d: &D) -> (Class, u8, Seq<char>) {
    (d.spec_class(), d.spec_rank(), d.spec_name())
}

/// whether the key `a` comes before or equals the key `b`: by class, then
/// rank, then name
pub open spec fn key_le(a: (Class, u8, Seq<char>), b: (Class, u8, Seq<char>)) -> bool {
    ||| class_index(a.0) < class_index(b.0)
    ||| class_index(a.0) == class_index(b.0) && a.1 < b.1
    ||| class_index(a.0) == class_index(b.0) && a.1 == b.1 && chars_le(a.2, b.2)
}

/// ordering key for a device, see [Device::rank]
pub fn sort_key<D: Device>(d: &D) -> (r: (Class, u8, String))
    ensures
        r.0 == d.spec_class(),
        r.1 == d.spec_rank(),
        r.2@ == d.spec_name(),
{
    (d.class(), d.rank(), d.name().to_owned())
}

/// the ordering key of a device as characters
pub open spec fn key_view(k: (Class, u8, Vec<char>)) -> (Class, u8, Seq<char>) {
    (k.0, k.1, k.2@)
}

/// the ordering key of a device, its name as characters
pub fn key_chars<D: Device>(d: &D) -> (r: (Class, u8, Vec<char>))
    ensures
        key_view(r) == spec_sort_key(d),
{
    (d.class(), d.rank(), chars_of(d.name()))
}

/// whether the key `a` comes before or equals the key `b`
pub fn key_le_exec(a: &(Class, u8, Vec<char>), b: &(Class, u8, Vec<char>)) -> (r: bool)
    ensures
        r == key_le(key_view(*a), key_view(*b)),
{
    let ca = a.0.index();
    let cb = b.0.index();
    if ca != cb {
        ca < cb
    } else if a.1 != b.1 {
        a.1 < b.1
    } else {
        chars_le_exec(&a.2, &b.2)
    }
}

/// the order on keys is total
pub proof fn lemma_key_le_total(a: (Class, u8, Seq<char>), b: (Class, u8, Seq<char>))
    ensures
        key_le(a, b) || key_le(b, a),
{
    lemma_chars_le_total(a.2, b.2);
}

/// the order on keys is reflexive
pub proof fn lemma_key_le_refl(a: (Class, u8, Seq<char>))
    ensures
        key_le(a, a),
{
    lemma_chars_le_refl(a.2);
}

/// the order on keys is transitive
pub proof fn lemma_key_le_trans(
    a: (Class, u8, Seq<char>),
    b: (Class, u8, Seq<char>),
    c: (Class, u8, Seq<char>),
)
    requires
        key_le(a, b),
        key_le(b, c),
    ensures
        key_le(a, c),
{
    if class_index(a.0) == class_index(b.0) && class_index(b.0) == class_index(c.0) && a.1 == b.1
        && b.1 == c.1 {
        lemma_chars_le_trans(a.2, b.2, c.2);
    }
}

/// keys that come before one another both ways are the same key
pub proof fn lemma_key_le_antisym(a: (Class, u8, Seq<char>), b: (Class, u8, Seq<char>))
    requires
        key_le(a, b),
        key_le(b, a),
    ensures
        a.1 == b.1,
        a.2 == b.2,
        class_index(a.0) == class_index(b.0),
{
    lemma_chars_le_antisym(a.2, b.2);
}

/// Devices are ordered by class first: a device of an earlier class comes
/// before one of a later class, whatever their ranks and names.
pub proof fn lemma_class_comes_first(a: (Class, u8, Seq<char>), b: (Class, u8, Seq<char>))
    requires
        class_index(a.0) < class_index(b.0),
    ensures
        key_le(a, b),
        !key_le(b, a),
{
}

/// Within a class devices are ordered by rank before name: a lower rank
/// comes first, whatever the names.
pub proof fn lemma_rank_before_name(a: (Class, u8, Seq<char>), b: (Class, u8, Seq<char>))
    requires
        a.0 == b.0,
        a.1 < b.1,
    ensures
        key_le(a, b),
        !key_le(b, a),
{
}

/// Names decide only between devices of the same class and rank, in the
/// order of strings.
pub proof fn lemma_name_breaks_ties(a: (Class, u8, Seq<char>), b: (Class, u8, Seq<char>))
    requires
        a.0 == b.0,
        a.1 == b.1,
    ensures
        key_le(a, b) == chars_le(a.2, b.2),
{
}

/// the line that tells a device's class and rank, and whether the rank
/// makes it irrelevant
pub open spec fn spec_rank_report<D: Device>(d: &D) -> Seq<char> {
    d.spec_name() + ": "@ + class_name(d.spec_class()) + " rank "@ + decimal(d.spec_rank() as nat)
        + if d.spec_rank() >= IRRELEVANT {
        ", irrelevant"@
    } else {
        Seq::empty()
    }
}

/// the line that tells a device's class and rank, as the verbose output
/// shows it: `intel_backlight: backlight rank 2`
pub fn rank_report<D: Device>(d: &D) -> (r: String)
    ensures
        r@ == spec_rank_report(d),
{
    let rank = d.rank();
    let mut s = String::from_str(d.name());
    s.append(": ");
    s.append(d.class().as_str());
    s.append(" rank ");
    push_decimal(&mut s, rank as usize);
    if rank >= IRRELEVANT {
        s.append(", irrelevant");
    }
    assert(s@ =~= spec_rank_report(d));
    s
}

} // verus!
