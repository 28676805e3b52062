//! The decisions of the command line tool: in which order devices are
//! listed, which device a command addresses, which devices a listing shows,
//! and what setting a brightness writes.
use vstd::prelude::*;
use crate::backlight::Backlight;
use crate::cli::{
    adjust_value, fits, spec_action_device, spec_resolve, Action, Adjust, Cli,
};
use crate::led::Led;
use crate::shared::{
    class_index, key_chars, key_le, key_le_exec, key_view, lemma_class_comes_first,
    lemma_key_le_refl, lemma_key_le_total, lemma_key_le_trans, lemma_name_breaks_ties,
    lemma_rank_before_name, spec_sort_key, Class, Device, DeviceError, IRRELEVANT,
};
use crate::text::{chars_eq, chars_le, chars_of, contains, contains_chars};
use crate::util::{spec_brightness_line, spec_number};

verus! {

/// A device of one of the kinds that are enumerated
#[derive(Debug)]
pub enum AnyDevice {
    Backlight(Backlight),
    Led(Led),
}

impl Device for AnyDevice {
    open spec fn spec_name(&self) -> Seq<char> {
        match self {
            AnyDevice::Backlight(b) => b.spec_name(),
            AnyDevice::Led(l) => l.spec_name(),
        }
    }

    open spec fn spec_class(&self) -> Class {
        match self {
            AnyDevice::Backlight(b) => b.spec_class(),
            AnyDevice::Led(l) => l.spec_class(),
        }
    }

    open spec fn spec_rank(&self) -> u8 {
        match self {
            AnyDevice::Backlight(b) => b.spec_rank(),
            AnyDevice::Led(l) => l.spec_rank(),
        }
    }

    open spec fn spec_max(&self) -> Result<usize, DeviceError> {
        match self {
            AnyDevice::Backlight(b) => b.spec_max(),
            AnyDevice::Led(l) => l.spec_max(),
        }
    }

    fn name(&self) -> (r: &str) {
        match self {
            AnyDevice::Backlight(b) => b.name(),
            AnyDevice::Led(l) => l.name(),
        }
    }

    fn class(&self) -> (r: Class) {
        match self {
            AnyDevice::Backlight(b) => b.class(),
            AnyDevice::Led(l) => l.class(),
        }
    }

    fn rank(&self) -> (r: u8) {
        match self {
            AnyDevice::Backlight(b) => b.rank(),
            AnyDevice::Led(l) => l.rank(),
        }
    }

    fn max(&self) -> (r: Result<usize, DeviceError>) {
        match self {
            AnyDevice::Backlight(b) => b.max(),
            AnyDevice::Led(l) => l.max(),
        }
    }
}

impl AnyDevice {
    /// the device's maximum brightness
    pub open spec fn max_brightness(&self) -> usize {
        match self {
            AnyDevice::Backlight(b) => b.max_brightness,
            AnyDevice::Led(l) => l.max_brightness,
        }
    }

    /// the contents to write to the device's `brightness` file to set the
    /// brightness to `b`; brightness above the maximum is refused
    pub fn brightness_request(&self, b: usize) -> (r: Result<String, DeviceError>)
        ensures
            r is Ok <==> b <= self.max_brightness(),
            r matches Ok(s) ==> s@ == spec_brightness_line(b as nat),
            r matches Err(e) ==> e == DeviceError::ExceedsMax,
    {
        match self {
            AnyDevice::Backlight(d) => d.brightness_request(b),
            AnyDevice::Led(d) => d.brightness_request(b),
        }
    }

    /// the brightness that the contents of the device's `brightness` file
    /// hold
    pub fn brightness_from(&self, brightness_file: &[u8]) -> (r: Result<usize, DeviceError>)
        ensures
            r == spec_number(brightness_file@),
    {
        match self {
            AnyDevice::Backlight(d) => d.brightness_from(brightness_file),
            AnyDevice::Led(d) => d.brightness_from(brightness_file),
        }
    }

    /// the report on the device, given its current brightness
    pub open spec fn spec_describe(&self, brightness: nat) -> Seq<char> {
        match self {
            AnyDevice::Backlight(d) => d.spec_describe(brightness),
            AnyDevice::Led(d) => d.spec_describe(brightness),
        }
    }

    /// the report on the device that `info` and `list` show, given its
    /// current brightness
    pub fn describe(&self, brightness: usize) -> (r: String)
        requires
            self.max_brightness() == 0 || brightness * 100 <= usize::MAX,
        ensures
            r@ == self.spec_describe(brightness as nat),
    {
        match self {
            AnyDevice::Backlight(d) => d.describe(brightness),
            AnyDevice::Led(d) => d.describe(brightness),
        }
    }
}

/// whether the devices are in the order (class, rank, name)
pub open spec fn sorted_by_key(s: Seq<AnyDevice>) -> bool {
    forall|i: int, j: int|
        0 <= i < j < s.len() ==> key_le(spec_sort_key(&s[i]), spec_sort_key(&s[j]))
}

/// the positions, in order, of the first `n` devices whose name holds
/// `target`
pub open spec fn like_matches(devices: Seq<AnyDevice>, target: Seq<char>, n: nat) -> Seq<usize>
    decreases n,
{
    if n == 0 {
        Seq::empty()
    } else {
        let before = like_matches(devices, target, (n - 1) as nat);
        if contains(devices[n - 1].spec_name(), target) {
            before.push((n - 1) as usize)
        } else {
            before
        }
    }
}

/// whether a listing shows the device `d`: the verbose one shows all,
/// others hide the irrelevant
pub open spec fn relevant(d: AnyDevice, verbose: bool) -> bool {
    verbose || d.spec_rank() < IRRELEVANT
}

/// the positions, in order, of the first `n` devices that a listing shows
pub open spec fn relevant_indices(devices: Seq<AnyDevice>, verbose: bool, n: nat) -> Seq<usize>
    decreases n,
{
    if n == 0 {
        Seq::empty()
    } else {
        let before = relevant_indices(devices, verbose, (n - 1) as nat);
        if relevant(devices[n - 1], verbose) {
            before.push((n - 1) as usize)
        } else {
            before
        }
    }
}

/// the device that the command line names, empty where it names none
pub open spec fn spec_target(args: Cli) -> Seq<char> {
    match args.command {
        Some(a) => match spec_action_device(&a) {
            Some(d) => d,
            None => Seq::empty(),
        },
        None => Seq::empty(),
    }
}

/// Why no device could be picked
#[derive(Debug, Clone, Copy, PartialEq, Eq, Structural)]
pub enum FindError {
    /// no device was given and there is none to fall back to
    NoDevices,
}

/// What the command line asks to be done
#[derive(Debug, Clone, Copy, PartialEq, Eq, Structural)]
pub enum Operation {
    List,
    Info,
    Get,
    SetBrightness(Adjust),
}

/// The tool's state: the command line and all devices, ordered by (class,
/// rank, name); the first relevant one is the default used when no device
/// argument is given
pub struct Helligkeit {
    args: Cli,
    target: String,
    devices: Vec<AnyDevice>,
}

proof fn lemma_insert_sorted(s: Seq<AnyDevice>, j: int, d: AnyDevice)
    requires
        sorted_by_key(s),
        0 <= j <= s.len(),
        forall|m: int| 0 <= m < j ==> !key_le(spec_sort_key(&d), spec_sort_key(&s[m])),
        j < s.len() ==> key_le(spec_sort_key(&d), spec_sort_key(&s[j])),
    ensures
        sorted_by_key(s.insert(j, d)),
{
    let t = s.insert(j, d);
    assert forall|a: int, b: int| 0 <= a < b < t.len() implies key_le(
        spec_sort_key(&t[a]),
        spec_sort_key(&t[b]),
    ) by {
        if b < j {
            assert(t[a] == s[a] && t[b] == s[b]);
        } else if b == j {
            assert(t[a] == s[a]);
            lemma_key_le_total(spec_sort_key(&d), spec_sort_key(&s[a]));
        } else if a == j {
            assert(t[b] == s[b - 1]);
            if b - 1 == j {
            } else {
                lemma_key_le_trans(spec_sort_key(&d), spec_sort_key(&s[j]), spec_sort_key(&s[b - 1]));
            }
        } else if a < j {
            assert(t[a] == s[a] && t[b] == s[b - 1]);
        } else {
            assert(t[a] == s[a - 1] && t[b] == s[b - 1]);
        }
    }
}

/// whether the two devices have the same key, so that their order is up to
/// the input
pub open spec fn same_key(a: &AnyDevice, b: &AnyDevice) -> bool {
    key_le(spec_sort_key(a), spec_sort_key(b)) && key_le(spec_sort_key(b), spec_sort_key(a))
}

/// `r` is made of distinct positions `p`, all at or after `lo`, of `s`, and
/// devices of the same key keep the order they have in `s`
pub open spec fn arranged(s: Seq<AnyDevice>, r: Seq<AnyDevice>, p: Seq<int>, lo: int) -> bool {
    &&& p.len() == r.len()
    &&& forall|k: int| 0 <= k < p.len() ==> lo <= #[trigger] p[k] < s.len() && r[k] == s[p[k]]
    &&& forall|k1: int, k2: int|
        0 <= k1 < p.len() && 0 <= k2 < p.len() && k1 != k2 ==> #[trigger] p[k1] != #[trigger] p[k2]
    &&& forall|k1: int, k2: int|
        0 <= k1 < k2 < p.len() && same_key(&r[k1], &r[k2]) ==> #[trigger] p[k1] < #[trigger] p[k2]
}

/// `r` is a rearrangement of `s` that keeps devices of the same key in the
/// order they have in `s`: `p` tells where in `s` each device of `r` was
pub open spec fn stable_arrangement(s: Seq<AnyDevice>, r: Seq<AnyDevice>, p: Seq<int>) -> bool {
    r.len() == s.len() && arranged(s, r, p, 0)
}

proof fn lemma_insert_arranged(
    s: Seq<AnyDevice>,
    r: Seq<AnyDevice>,
    p: Seq<int>,
    m: int,
    j: int,
)
    requires
        arranged(s, r, p, m),
        0 < m <= s.len(),
        0 <= j <= r.len(),
        forall|q: int| 0 <= q < j ==> !key_le(spec_sort_key(&s[m - 1]), spec_sort_key(&r[q])),
    ensures
        arranged(s, r.insert(j, s[m - 1]), p.insert(j, m - 1), m - 1),
{
    let d = s[m - 1];
    let r2 = r.insert(j, d);
    let p2 = p.insert(j, m - 1);
    assert forall|k: int| 0 <= k < p2.len() implies m - 1 <= #[trigger] p2[k] < s.len() && r2[k]
        == s[p2[k]] by {
        if k < j {
            assert(p2[k] == p[k] && r2[k] == r[k]);
        } else if k > j {
            assert(p2[k] == p[k - 1] && r2[k] == r[k - 1]);
        }
    }
    assert forall|k1: int, k2: int|
        0 <= k1 < p2.len() && 0 <= k2 < p2.len() && k1 != k2 implies #[trigger] p2[k1]
        != #[trigger] p2[k2] by {
        let o1 = if k1 < j {
            k1
        } else {
            k1 - 1
        };
        let o2 = if k2 < j {
            k2
        } else {
            k2 - 1
        };
        if k1 != j && k2 != j {
            assert(p2[k1] == p[o1] && p2[k2] == p[o2]);
        } else if k1 == j {
            assert(p2[k2] == p[o2]);
        } else {
            assert(p2[k1] == p[o1]);
        }
    }
    assert forall|k1: int, k2: int|
        0 <= k1 < k2 < p2.len() && same_key(&r2[k1], &r2[k2]) implies #[trigger] p2[k1]
        < #[trigger] p2[k2] by {
        if k2 < j {
            assert(p2[k1] == p[k1] && p2[k2] == p[k2] && r2[k1] == r[k1] && r2[k2] == r[k2]);
        } else if k2 == j {
            assert(r2[k1] == r[k1] && r2[k2] == d);
        } else if k1 == j {
            assert(p2[k2] == p[k2 - 1]);
        } else if k1 < j {
            assert(p2[k1] == p[k1] && p2[k2] == p[k2 - 1] && r2[k1] == r[k1] && r2[k2] == r[k2 - 1]);
        } else {
            assert(p2[k1] == p[k1 - 1] && p2[k2] == p[k2 - 1] && r2[k1] == r[k1 - 1] && r2[k2]
                == r[k2 - 1]);
        }
    }
}

impl Helligkeit {
    /// the devices, in their order
    pub closed spec fn devices_view(&self) -> Seq<AnyDevice> {
        self.devices@
    }

    /// the name of the device that the command line gave, empty if none
    pub closed spec fn target_view(&self) -> Seq<char> {
        self.target@
    }

    /// the command line
    pub closed spec fn args_view(&self) -> Cli {
        self.args
    }

    /// the devices are in the order (class, rank, name)
    pub open spec fn well_formed(&self) -> bool {
        sorted_by_key(self.devices_view())
    }

    /// The state for the command line `args` and the enumerated `devices`:
    /// the devices are put in the order (class, rank, name), devices of the
    /// same key keeping their order
    pub fn new(args: Cli, devices: Vec<AnyDevice>) -> (r: Self)
        ensures
            r.well_formed(),
            r.devices_view().to_multiset() == devices@.to_multiset(),
            exists|p: Seq<int>| stable_arrangement(devices@, r.devices_view(), p),
            r.target_view() == spec_target(args),
            r.args_view() == args,
    {
        broadcast use vstd::multiset::group_multiset_axioms;

        let target = match &args.command {
            Some(a) => match a.device() {
                Some(d) => String::from_str(d),
                None => String::new(),
            },
            None => String::new(),
        };
        let ghost all = devices@.to_multiset();
        let ghost s = devices@;
        let ghost mut origin: Seq<int> = Seq::empty();
        let mut input = devices;
        let mut sorted: Vec<AnyDevice> = Vec::new();
        let mut keys: Vec<(Class, u8, Vec<char>)> = Vec::new();
        proof {
            vstd::seq_lib::to_multiset_len(sorted@);
            vstd::multiset::lemma_multiset_empty_len(sorted@.to_multiset());
        }
        while input.len() > 0
            invariant
                input@.to_multiset().add(sorted@.to_multiset()) == all,
                keys@.len() == sorted@.len(),
                forall|i: int|
                    0 <= i < sorted@.len() ==> key_view(#[trigger] keys@[i]) == spec_sort_key(
                        &sorted@[i],
                    ),
                sorted_by_key(sorted@),
                input@ == s.subrange(0, input@.len() as int),
                input@.len() + sorted@.len() == s.len(),
                arranged(s, sorted@, origin, input@.len() as int),
            decreases input.len(),
        {
            let ghost before = input@;
            let ghost m = before.len() as int;
            let d = input.pop().unwrap();
            proof {
                assert(before =~= input@.push(d));
                vstd::seq_lib::to_multiset_build(input@, d);
            }
            let k = key_chars(&d);
            let mut j: usize = 0;
            while j < keys.len() && !key_le_exec(&k, &keys[j])
                invariant
                    j <= keys@.len(),
                    keys@.len() == sorted@.len(),
                    key_view(k) == spec_sort_key(&d),
                    forall|i: int|
                        0 <= i < sorted@.len() ==> key_view(#[trigger] keys@[i]) == spec_sort_key(
                            &sorted@[i],
                        ),
                    forall|m: int|
                        0 <= m < j ==> !key_le(spec_sort_key(&d), spec_sort_key(&sorted@[m])),
                decreases keys.len() - j,
            {
                j = j + 1;
            }
            let ghost old_sorted = sorted@;
            proof {
                if j < keys@.len() {
                    assert(key_le(spec_sort_key(&d), spec_sort_key(&sorted@[j as int])));
                }
                lemma_insert_sorted(old_sorted, j as int, d);
                vstd::seq_lib::to_multiset_insert(old_sorted, j as int, d);
                assert(d == s[m - 1]);
                lemma_insert_arranged(s, old_sorted, origin, m, j as int);
                origin = origin.insert(j as int, m - 1);
                assert(input@ =~= s.subrange(0, m - 1));
            }
            sorted.insert(j, d);
            keys.insert(j, k);
            assert forall|i: int| 0 <= i < sorted@.len() implies key_view(#[trigger] keys@[i])
                == spec_sort_key(&sorted@[i]) by {
                if i < j {
                    assert(sorted@[i] == old_sorted[i]);
                } else if i > j {
                    assert(sorted@[i] == old_sorted[i - 1]);
                }
            }
            assert(input@.to_multiset().add(sorted@.to_multiset()) =~= all);
        }
        proof {
            vstd::seq_lib::to_multiset_len(input@);
            vstd::multiset::lemma_multiset_empty_len(input@.to_multiset());
        }
        assert(sorted@.to_multiset() =~= all);
        assert(stable_arrangement(s, sorted@, origin));
        Helligkeit { args, target, devices: sorted }
    }

    /// the devices, in their order
    pub fn devices(&self) -> (r: &Vec<AnyDevice>)
        ensures
            r@ == self.devices_view(),
    {
        &self.devices
    }

    /// the name of the device that the command line gave, empty if none
    pub fn target(&self) -> (r: &str)
        ensures
            r@ == self.target_view(),
    {
        self.target.as_str()
    }

    /// the command line
    pub fn args(&self) -> (r: &Cli)
        ensures
            *r == self.args_view(),
    {
        &self.args
    }

    /// The devices that the command addresses, by position: with `--like`
    /// all whose name holds the target; without a target the first relevant
    /// device, an error where there is none, as irrelevant devices are never
    /// picked as default; else the first device of exactly that name, or none
    pub fn find_device(&self) -> (r: Result<Vec<usize>, FindError>)
        ensures
            self.args_view().like ==> (r matches Ok(found) && found@ == like_matches(
                self.devices_view(),
                self.target_view(),
                self.devices_view().len(),
            )),
            !self.args_view().like && self.target_view().len() == 0 ==> (if exists|i: int|
                0 <= i < self.devices_view().len() && #[trigger] self.devices_view()[i].spec_rank()
                    < IRRELEVANT {
                r matches Ok(found) && {
                    &&& found@.len() == 1
                    &&& found@[0] < self.devices_view().len()
                    &&& self.devices_view()[found@[0] as int].spec_rank() < IRRELEVANT
                    &&& forall|k: int|
                        0 <= k < found@[0] ==> #[trigger] self.devices_view()[k].spec_rank()
                            >= IRRELEVANT
                }
            } else {
                r == Err::<Vec<usize>, FindError>(FindError::NoDevices)
            }),
            !self.args_view().like && self.target_view().len() > 0 ==> (r matches Ok(found) && if (
            exists|i: int|
                0 <= i < self.devices_view().len() && #[trigger] self.devices_view()[i].spec_name()
                    == self.target_view()) {
                &&& found@.len() == 1
                &&& found@[0] < self.devices_view().len()
                &&& self.devices_view()[found@[0] as int].spec_name() == self.target_view()
                &&& forall|k: int|
                    0 <= k < found@[0] ==> #[trigger] self.devices_view()[k].spec_name()
                        != self.target_view()
            } else {
                found@.len() == 0
            }),
    {
        let target = chars_of(self.target.as_str());
        let n = self.devices.len();
        if self.args.like {
            let mut found: Vec<usize> = Vec::new();
            let mut i: usize = 0;
            while i < n
                invariant
                    n == self.devices@.len(),
                    target@ == self.target@,
                    i <= n,
                    found@ == like_matches(self.devices@, target@, i as nat),
                decreases n - i,
            {
                let name = chars_of(self.devices[i].name());
                if contains_chars(&name, &target) {
                    found.push(i);
                }
                i = i + 1;
            }
            Ok(found)
        } else if target.len() == 0 {
            let mut i: usize = 0;
            while i < n
                invariant
                    n == self.devices@.len(),
                    target@ == self.target@,
                    !self.args.like,
                    target@.len() == 0,
                    i <= n,
                    forall|k: int|
                        0 <= k < i ==> #[trigger] self.devices@[k].spec_rank() >= IRRELEVANT,
                decreases n - i,
            {
                if self.devices[i].rank() < IRRELEVANT {
                    assert(self.devices_view()[i as int].spec_rank() < IRRELEVANT);
                    let mut found: Vec<usize> = Vec::new();
                    found.push(i);
                    return Ok(found);
                }
                i = i + 1;
            }
            Err(FindError::NoDevices)
        } else {
            let mut i: usize = 0;
            while i < n
                invariant
                    n == self.devices@.len(),
                    target@ == self.target@,
                    !self.args.like,
                    target@.len() > 0,
                    i <= n,
                    forall|k: int| 0 <= k < i ==> #[trigger] self.devices@[k].spec_name() != target@,
                decreases n - i,
            {
                let name = chars_of(self.devices[i].name());
                if chars_eq(&name, &target) {
                    assert(self.devices_view()[i as int].spec_name() == self.target_view());
                    let mut found: Vec<usize> = Vec::new();
                    found.push(i);
                    return Ok(found);
                }
                i = i + 1;
            }
            Ok(Vec::new())
        }
    }

    /// What a listing shows: the positions of the devices shown, in order,
    /// and how many were hidden as irrelevant
    pub fn list(&self) -> (r: (Vec<usize>, usize))
        ensures
            r.0@ == relevant_indices(
                self.devices_view(),
                self.args_view().verbose,
                self.devices_view().len(),
            ),
            r.1 == self.devices_view().len() - r.0@.len(),
    {
        let n = self.devices.len();
        let verbose = self.args.verbose;
        let mut shown: Vec<usize> = Vec::new();
        let mut i: usize = 0;
        while i < n
            invariant
                n == self.devices@.len(),
                verbose == self.args.verbose,
                i <= n,
                shown@ == relevant_indices(self.devices@, verbose, i as nat),
                shown@.len() <= i,
            decreases n - i,
        {
            if verbose || self.devices[i].rank() < IRRELEVANT {
                shown.push(i);
            }
            i = i + 1;
        }
        let hidden = n - shown.len();
        (shown, hidden)
    }

    /// What the command line asks to be done; without a command, the
    /// brightness of the default device is shown
    pub fn run(&self) -> (r: Operation)
        ensures
            r == match self.args_view().command {
                None => Operation::Get,
                Some(Action::List) => Operation::List,
                Some(Action::Info { .. }) => Operation::Info,
                Some(Action::Get { .. }) => Operation::Get,
                Some(Action::SetBrightness { value, .. }) => Operation::SetBrightness(value),
            },
    {
        match &self.args.command {
            None => Operation::Get,
            Some(Action::List) => Operation::List,
            Some(Action::Info { .. }) => Operation::Info,
            Some(Action::Get { .. }) => Operation::Get,
            Some(Action::SetBrightness { value, .. }) => Operation::SetBrightness(*value),
        }
    }

    /// What setting the device at `index` by `adjust` writes, given its
    /// current brightness (read only for relative adjustments, 0 otherwise):
    /// the adjustment is resolved against the device's maximum, and the
    /// device refuses what exceeds it
    pub fn set(&self, index: usize, adjust: Adjust, current: usize) -> (r: Result<String, DeviceError>)
        requires
            index < self.devices_view().len(),
            self.devices_view()[index as int].spec_max() matches Ok(m) ==> fits(
                adjust_value(adjust),
                m,
            ),
        ensures
            ({
                let d = self.devices_view()[index as int];
                match d.spec_max() {
                    Err(e) => r == Err::<String, DeviceError>(e),
                    Ok(m) => {
                        let target = spec_resolve(adjust, current as nat, m as nat);
                        &&& r is Ok <==> target <= d.max_brightness()
                        &&& r matches Ok(s) ==> s@ == spec_brightness_line(target)
                        &&& r matches Err(e) ==> e == DeviceError::ExceedsMax
                    },
                }
            }),
    {
        let d = &self.devices[index];
        let max = match d.max() {
            Err(e) => return Err(e),
            Ok(m) => m,
        };
        let target = adjust.resolve(current, max);
        d.brightness_request(target)
    }
}

/// The default device is the most preferred of the relevant ones: without a
/// device argument the first relevant device is picked, and it comes before
/// every other relevant device in the order (class, rank, name).
pub proof fn lemma_default_device_preferred(h: &Helligkeit, f: int, j: int)
    requires
        h.well_formed(),
        0 <= f < h.devices_view().len(),
        h.devices_view()[f].spec_rank() < IRRELEVANT,
        forall|k: int| 0 <= k < f ==> #[trigger] h.devices_view()[k].spec_rank() >= IRRELEVANT,
        0 <= j < h.devices_view().len(),
        h.devices_view()[j].spec_rank() < IRRELEVANT,
    ensures
        key_le(spec_sort_key(&h.devices_view()[f]), spec_sort_key(&h.devices_view()[j])),
{
    if j == f {
        lemma_key_le_refl(spec_sort_key(&h.devices_view()[f]));
    } else {
        assert(!(j < f));
    }
}

/// The devices of the state are ordered by class, then rank, then name: of
/// two devices the earlier one has an earlier or the same class, within a
/// class a lower or the same rank, and within a rank a name that comes no
/// later.
pub proof fn lemma_devices_by_class_rank_name(h: &Helligkeit, i: int, j: int)
    requires
        h.well_formed(),
        0 <= i < j < h.devices_view().len(),
    ensures
        class_index(h.devices_view()[i].spec_class()) <= class_index(
            h.devices_view()[j].spec_class(),
        ),
        h.devices_view()[i].spec_class() == h.devices_view()[j].spec_class()
            ==> h.devices_view()[i].spec_rank() <= h.devices_view()[j].spec_rank(),
        h.devices_view()[i].spec_class() == h.devices_view()[j].spec_class()
            && h.devices_view()[i].spec_rank() == h.devices_view()[j].spec_rank() ==> chars_le(
            h.devices_view()[i].spec_name(),
            h.devices_view()[j].spec_name(),
        ),
{
    let a = spec_sort_key(&h.devices_view()[i]);
    let b = spec_sort_key(&h.devices_view()[j]);
    assert(key_le(a, b));
    if class_index(a.0) > class_index(b.0) {
        lemma_class_comes_first(b, a);
    }
    if a.0 == b.0 && a.1 > b.1 {
        lemma_rank_before_name(b, a);
    }
    if a.0 == b.0 && a.1 == b.1 {
        lemma_name_breaks_ties(a, b);
    }
}

/// The state's target is the device that the command names, for every kind
/// of command: `info`, `get` and `set` with a device name it; without one,
/// and for `list` or no command, it is empty.
pub proof fn lemma_target_is_named_device(args: Cli)
    ensures
        match args.command {
            Some(Action::Info { device: Some(d) }) => spec_target(args) == d@,
            Some(Action::Get { device: Some(d) }) => spec_target(args) == d@,
            Some(Action::SetBrightness { device: Some(d), .. }) => spec_target(args) == d@,
            _ => spec_target(args) == Seq::<char>::empty(),
        },
{
}

} // verus!
