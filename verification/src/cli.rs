//! The command line: what the user asks for, and the brightness values and
//! adjustments that it names.
use vstd::prelude::*;
use crate::text::{
    chars_of, decimal, is_digit, lemma_decimal_digits, lemma_parse_decimal, parse_usize,
    parse_usize_chars, push_char, push_decimal,
};

verus! {

/// What the command line asks for
pub struct Cli {
    /// Match devices by substring instead of exact name
    pub like: bool,
    pub command: Option<Action>,
    /// disable stdout/stderr writes
    pub silent: bool,
    pub verbose: bool,
}

/// The subcommands
pub enum Action {
    /// Device info
    Info {
        /// Device to operate on, defaults to the primary backlight
        device: Option<String>,
    },
    /// Get current brightness of device
    Get {
        /// Device to operate on, defaults to the primary backlight
        device: Option<String>,
    },
    /// Set device brightness, either absolute (300), as percentage of the
    /// devices maximum (50%) or relative to the current value (+10, -5%)
    SetBrightness {
        value: Adjust,
        /// Device to operate on, defaults to the primary backlight
        device: Option<String>,
    },
    /// List all controllable and supported devices
    List,
}

/// the device that an action names, if any
pub open spec fn spec_action_device(a: &Action) -> Option<Seq<char>> {
    match a {
        Action::Info { device } => match device {
            Some(d) => Some(d@),
            None => None,
        },
        Action::Get { device } => match device {
            Some(d) => Some(d@),
            None => None,
        },
        Action::SetBrightness { device, .. } => match device {
            Some(d) => Some(d@),
            None => None,
        },
        Action::List => None,
    }
}

impl Action {
    /// device the action was given, if any
    pub fn device(&self) -> (r: Option<&str>)
        ensures
            r is Some <==> spec_action_device(self) is Some,
            r matches Some(d) ==> spec_action_device(self) == Some(d@),
    {
        match self {
            Action::Info { device } | Action::Get { device } | Action::SetBrightness { device, .. } => {
                match device {
                    Some(d) => Some(d.as_str()),
                    None => None,
                }
            },
            Action::List => None,
        }
    }
}

/// A brightness value, either in device units or as percentage of the devices
/// max brightness
#[derive(Debug, Clone, Copy, PartialEq, Eq, Structural)]
pub enum Value {
    Absolute(usize),
    Percent(usize),
}

/// the value in device units for a device whose maximum is `max`,
/// percentages rounded to the nearest step
pub open spec fn spec_absolute(v: Value, max: nat) -> nat {
    match v {
        Value::Absolute(n) => n as nat,
        Value::Percent(p) => ((max * p + 50) / 100) as nat,
    }
}

/// whether converting `v` to device units of a device whose maximum is
/// `max` stays within `usize`
pub open spec fn fits(v: Value, max: usize) -> bool {
    v matches Value::Percent(p) ==> max * p + 50 <= usize::MAX
}

/// whether `v` is a value that the command line can give: percentages go up
/// to 100
pub open spec fn well_formed(v: Value) -> bool {
    v matches Value::Percent(p) ==> p <= 100
}

/// the text of a value, as it is shown and as it is typed
pub open spec fn spec_value_text(v: Value) -> Seq<char> {
    match v {
        Value::Absolute(n) => decimal(n as nat),
        Value::Percent(p) => decimal(p as nat).push('%'),
    }
}

/// the error for text that is no brightness value
pub open spec fn invalid_value(s: Seq<char>) -> Seq<char> {
    seq!['\''] + s + "' is not a valid brightness value"@
}

/// the error for a percentage above 100
pub open spec fn exceeds_hundred(s: Seq<char>) -> Seq<char> {
    seq!['\''] + s + "' exceeds 100%"@
}

/// what reading `s` as a value gives: a number, followed by `%` for a
/// percentage, which must not exceed 100
pub open spec fn spec_parse_value(s: Seq<char>) -> Result<Value, Seq<char>> {
    let percent = s.len() > 0 && s.last() == '%';
    let num = if percent {
        s.drop_last()
    } else {
        s
    };
    match parse_usize(num) {
        None => Err(invalid_value(s)),
        Some(n) => if !percent {
            Ok(Value::Absolute(n))
        } else if n > 100 {
            Err(exceeds_hundred(s))
        } else {
            Ok(Value::Percent(n))
        },
    }
}

/// the result of reading a value, with its error message taken by view
pub open spec fn view_result<T>(r: Result<T, String>) -> Result<T, Seq<char>> {
    match r {
        Ok(v) => Ok(v),
        Err(e) => Err(e@),
    }
}

/// the message `'` + `s` + `suffix`
fn quoted(s: &str, suffix: &str) -> (r: String)
    ensures
        r@ == seq!['\''] + s@ + suffix@,
{
    let mut m = String::new();
    push_char(&mut m, '\'');
    m.append(s);
    m.append(suffix);
    assert(m@ =~= seq!['\''] + s@ + suffix@);
    m
}

impl Value {
    /// convert to device units, percentages are rounded to the nearest step
    pub fn absolute(self, max: usize) -> (r: usize)
        requires
            fits(self, max),
        ensures
            r as nat == spec_absolute(self, max as nat),
    {
        match self {
            Value::Absolute(n) => n,
            Value::Percent(p) => (max * p + 50) / 100,
        }
    }

    /// reads a value: a number of device units (`300`) or a percentage of the
    /// maximum (`50%`)
    pub fn parse(s: &str) -> (r: Result<Value, String>)
        ensures
            view_result(r) == spec_parse_value(s@),
    {
        let c = chars_of(s);
        let n = c.len();
        let percent = n > 0 && c[n - 1] == '%';
        let mut num: Vec<char> = Vec::new();
        let len = if percent {
            n - 1
        } else {
            n
        };
        let mut i: usize = 0;
        while i < len
            invariant
                len <= n,
                n == c@.len(),
                i <= len,
                num@ == c@.subrange(0, i as int),
            decreases len - i,
        {
            num.push(c[i]);
            i = i + 1;
            assert(num@ =~= c@.subrange(0, i as int));
        }
        if percent {
            assert(num@ =~= s@.drop_last());
        } else {
            assert(num@ =~= s@);
        }
        match parse_usize_chars(&num) {
            None => Err(quoted(s, "' is not a valid brightness value")),
            Some(v) => {
                if !percent {
                    Ok(Value::Absolute(v))
                } else if v > 100 {
                    Err(quoted(s, "' exceeds 100%"))
                } else {
                    Ok(Value::Percent(v))
                }
            },
        }
    }

    /// the text of the value, as it is shown: `300` or `50%`
    pub fn to_text(&self) -> (r: String)
        ensures
            r@ == spec_value_text(*self),
    {
        let mut s = String::new();
        match self {
            Value::Absolute(n) => push_decimal(&mut s, *n),
            Value::Percent(p) => {
                push_decimal(&mut s, *p);
                push_char(&mut s, '%');
            },
        }
        assert(s@ =~= spec_value_text(*self));
        s
    }
}

impl std::str::FromStr for Value {
    type Err = String;

    fn from_str(s: &str) -> (r: Result<Self, Self::Err>)
        ensures
            view_result(r) == spec_parse_value(s@),
    {
        Value::parse(s)
    }
}

/// A brightness adjustment, either absolute or relative to the current value
#[derive(Debug, Clone, Copy, PartialEq, Eq, Structural)]
pub enum Adjust {
    Exactly(Value),
    Increase(Value),
    Decrease(Value),
}

/// the value that an adjustment carries
pub open spec fn adjust_value(a: Adjust) -> Value {
    match a {
        Adjust::Exactly(v) => v,
        Adjust::Increase(v) => v,
        Adjust::Decrease(v) => v,
    }
}

/// the brightness that adjustment `a` sets on a device at `current` whose
/// maximum is `max`: the result is clamped to `0..=max`
pub open spec fn spec_resolve(a: Adjust, current: nat, max: nat) -> nat {
    match a {
        Adjust::Exactly(v) => if spec_absolute(v, max) < max {
            spec_absolute(v, max)
        } else {
            max
        },
        Adjust::Increase(v) => {
            let sum = if current + spec_absolute(v, max) <= usize::MAX {
                current + spec_absolute(v, max)
            } else {
                usize::MAX as nat
            };
            if sum < max {
                sum
            } else {
                max
            }
        },
        Adjust::Decrease(v) => {
            let rest: nat = if current >= spec_absolute(v, max) {
                (current - spec_absolute(v, max)) as nat
            } else {
                0
            };
            if rest < max {
                rest
            } else {
                max
            }
        },
    }
}

/// whether resolving `a` needs the current brightness: all but absolute
/// adjustments do
pub open spec fn spec_is_relative(a: Adjust) -> bool {
    !(a is Exactly)
}

/// the text of an adjustment, as it is shown and as it is typed
pub open spec fn spec_adjust_text(a: Adjust) -> Seq<char> {
    match a {
        Adjust::Exactly(v) => spec_value_text(v),
        Adjust::Increase(v) => seq!['+'] + spec_value_text(v),
        Adjust::Decrease(v) => seq!['-'] + spec_value_text(v),
    }
}

/// what reading `s` as an adjustment gives: a value, increased by a leading
/// `+`, decreased by a leading `-`
pub open spec fn spec_parse_adjust(s: Seq<char>) -> Result<Adjust, Seq<char>> {
    if s.len() > 0 && s[0] == '+' {
        match spec_parse_value(s.drop_first()) {
            Ok(v) => Ok(Adjust::Increase(v)),
            Err(e) => Err(e),
        }
    } else if s.len() > 0 && s[0] == '-' {
        match spec_parse_value(s.drop_first()) {
            Ok(v) => Ok(Adjust::Decrease(v)),
            Err(e) => Err(e),
        }
    } else {
        match spec_parse_value(s) {
            Ok(v) => Ok(Adjust::Exactly(v)),
            Err(e) => Err(e),
        }
    }
}

/// `s` without its first character
fn rest_of(s: &str) -> (r: String)
    requires
        s@.len() > 0,
    ensures
        r@ == s@.drop_first(),
{
    let n = s.unicode_len();
    let rest = s.substring_char(1, n);
    String::from_str(rest)
}

impl Adjust {
    /// whether resolving this adjustment requires the current brightness
    pub fn is_relative(&self) -> (r: bool)
        ensures
            r == spec_is_relative(*self),
    {
        !matches!(self, Adjust::Exactly(_))
    }

    /// resolve to device units, clamped to `0..=max`
    pub fn resolve(&self, current: usize, max: usize) -> (r: usize)
        requires
            fits(adjust_value(*self), max),
        ensures
            r as nat == spec_resolve(*self, current as nat, max as nat),
    {
        match self {
            Adjust::Exactly(v) => v.absolute(max).min(max),
            Adjust::Increase(v) => current.saturating_add(v.absolute(max)).min(max),
            Adjust::Decrease(v) => current.saturating_sub(v.absolute(max)).min(max),
        }
    }

    /// reads an adjustment: a value (`300`, `50%`), an increase (`+10`) or a
    /// decrease (`-5%`)
    pub fn parse(s: &str) -> (r: Result<Adjust, String>)
        ensures
            view_result(r) == spec_parse_adjust(s@),
    {
        let n = s.unicode_len();
        if n > 0 && s.get_char(0) == '+' {
            let rest = rest_of(s);
            match Value::parse(rest.as_str()) {
                Ok(v) => Ok(Adjust::Increase(v)),
                Err(e) => Err(e),
            }
        } else if n > 0 && s.get_char(0) == '-' {
            let rest = rest_of(s);
            match Value::parse(rest.as_str()) {
                Ok(v) => Ok(Adjust::Decrease(v)),
                Err(e) => Err(e),
            }
        } else {
            match Value::parse(s) {
                Ok(v) => Ok(Adjust::Exactly(v)),
                Err(e) => Err(e),
            }
        }
    }

    /// the text of the adjustment, as it is shown: `300`, `+10` or `-5%`
    pub fn to_text(&self) -> (r: String)
        ensures
            r@ == spec_adjust_text(*self),
    {
        match self {
            Adjust::Exactly(v) => v.to_text(),
            Adjust::Increase(v) => {
                let mut s = String::new();
                push_char(&mut s, '+');
                let t = v.to_text();
                s.append(t.as_str());
                assert(s@ =~= spec_adjust_text(*self));
                s
            },
            Adjust::Decrease(v) => {
                let mut s = String::new();
                push_char(&mut s, '-');
                let t = v.to_text();
                s.append(t.as_str());
                assert(s@ =~= spec_adjust_text(*self));
                s
            },
        }
    }
}

impl std::str::FromStr for Adjust {
    type Err = String;

    fn from_str(s: &str) -> (r: Result<Self, Self::Err>)
        ensures
            view_result(r) == spec_parse_adjust(s@),
    {
        Adjust::parse(s)
    }
}

/// A value read back from the text it is shown as is the same value: every
/// value that the command line can give survives being shown and typed in
/// again.
pub proof fn lemma_value_text_round_trip(v: Value)
    requires
        well_formed(v),
    ensures
        spec_parse_value(spec_value_text(v)) == Ok::<Value, Seq<char>>(v),
{
    match v {
        Value::Absolute(n) => {
            lemma_decimal_digits(n as nat);
            lemma_parse_decimal(n);
            let s = decimal(n as nat);
            assert(is_digit(s[s.len() - 1]));
        },
        Value::Percent(p) => {
            lemma_parse_decimal(p);
            let s = decimal(p as nat).push('%');
            assert(s.drop_last() =~= decimal(p as nat));
        },
    }
}

/// An adjustment read back from the text it is shown as is the same
/// adjustment.
pub proof fn lemma_adjust_text_round_trip(a: Adjust)
    requires
        well_formed(adjust_value(a)),
    ensures
        spec_parse_adjust(spec_adjust_text(a)) == Ok::<Adjust, Seq<char>>(a),
{
    let v = adjust_value(a);
    lemma_value_text_round_trip(v);
    lemma_decimal_digits(match v {
        Value::Absolute(n) => n as nat,
        Value::Percent(p) => p as nat,
    });
    let t = spec_value_text(v);
    assert(is_digit(t[0]));
    match a {
        Adjust::Exactly(_) => {},
        Adjust::Increase(_) => {
            assert((seq!['+'] + t).drop_first() =~= t);
        },
        Adjust::Decrease(_) => {
            assert((seq!['-'] + t).drop_first() =~= t);
        },
    }
}

/// A resolved brightness stays within the device's range: whatever the
/// current brightness, every adjustment lands within `0..=max`.
pub proof fn lemma_resolve_within_max(a: Adjust, current: nat, max: nat)
    ensures
        spec_resolve(a, current, max) <= max,
{
}

/// An adjustment that is not relative does not depend on the current
/// brightness: this is why the current brightness is only read for relative
/// ones.
pub proof fn lemma_absolute_ignores_current(a: Adjust, c1: nat, c2: nat, max: nat)
    requires
        !spec_is_relative(a),
    ensures
        spec_resolve(a, c1, max) == spec_resolve(a, c2, max),
{
}

/// A decrease never raises the brightness.
pub proof fn lemma_decrease_never_raises(v: Value, current: nat, max: nat)
    ensures
        spec_resolve(Adjust::Decrease(v), current, max) <= current,
{
}

/// An increase never lowers a brightness that is within the maximum.
pub proof fn lemma_increase_never_lowers(v: Value, current: nat, max: nat)
    requires
        current <= max,
        current <= usize::MAX,
    ensures
        spec_resolve(Adjust::Increase(v), current, max) >= current,
{
}

/// A percentage of at most 100 is at most the maximum; 100% is the maximum
/// and 0% is 0.
pub proof fn lemma_percent_in_range(p: nat, max: nat)
    requires
        p <= 100,
    ensures
        spec_absolute(Value::Percent(p as usize), max) <= max,
        p == 100 ==> spec_absolute(Value::Percent(p as usize), max) == max,
        p == 0 ==> spec_absolute(Value::Percent(p as usize), max) == 0,
{
    assert((max * p + 50) / 100 <= max) by (nonlinear_arith)
        requires
            p <= 100,
    ;
    assert(p == 100 ==> (max * p + 50) / 100 == max) by (nonlinear_arith);
    assert(p == 0 ==> (max * p + 50) / 100 == 0) by (nonlinear_arith);
}

/// A value in device units is that many units; a percentage is that share
/// of the maximum, rounded to the nearest unit (halves up): 100 times the
/// result lies within 50 of `max * p`.
pub proof fn lemma_absolute_in_device_units(v: Value, max: nat)
    ensures
        v matches Value::Absolute(n) ==> spec_absolute(v, max) == n,
        v matches Value::Percent(p) ==> max * p <= 100 * spec_absolute(v, max) + 50 && 100
            * spec_absolute(v, max) <= max * p + 50,
{
    if let Value::Percent(p) = v {
        let q = spec_absolute(v, max);
        assert(q == (max * p + 50) / 100);
        assert(100 * ((max * p + 50) / 100) <= max * p + 50 && max * p + 50 < 100 * ((max * p + 50)
            / 100) + 100) by (nonlinear_arith);
    }
}

/// Increasing by `v` lands where setting the brightness to the current one
/// plus `v` in device units lands: a percentage is added as that share of
/// the maximum, not as bare units.
pub proof fn lemma_increase_adds_device_units(v: Value, current: nat, max: nat, other: nat)
    requires
        current + spec_absolute(v, max) <= usize::MAX,
    ensures
        spec_resolve(Adjust::Increase(v), current, max) == spec_resolve(
            Adjust::Exactly(Value::Absolute((current + spec_absolute(v, max)) as usize)),
            other,
            max,
        ),
{
}

/// Decreasing by `v` lands where setting the brightness to the current one
/// minus `v` in device units lands, and at 0 where `v` is more than the
/// current brightness.
pub proof fn lemma_decrease_subtracts_device_units(v: Value, current: nat, max: nat, other: nat)
    requires
        current <= usize::MAX,
    ensures
        current >= spec_absolute(v, max) ==> spec_resolve(Adjust::Decrease(v), current, max)
            == spec_resolve(
            Adjust::Exactly(Value::Absolute((current - spec_absolute(v, max)) as usize)),
            other,
            max,
        ),
        current < spec_absolute(v, max) ==> spec_resolve(Adjust::Decrease(v), current, max) == 0,
{
}

/// Setting an absolute value gives that value, or the maximum where it is
/// higher.
pub proof fn lemma_exactly_sets_the_value(n: usize, current: nat, max: nat)
    ensures
        n <= max ==> spec_resolve(Adjust::Exactly(Value::Absolute(n)), current, max) == n,
        n > max ==> spec_resolve(Adjust::Exactly(Value::Absolute(n)), current, max) == max,
{
}

} // verus!
