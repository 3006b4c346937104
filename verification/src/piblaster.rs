//! The actuator: the last level written to each pin, and the lines that
//! carry a change to the pi-blaster control file.

use crate::level::Level;
use std::collections::HashMap;
use vstd::string::StringSliceAdditionalSpecFns;
use vstd::prelude::*;

verus! {

/// One hardware output line, named by its index.
#[derive(Clone, Copy, Debug, Hash, PartialEq, Eq, Structural)]
pub struct GpioPin {
    pub index: usize,
}

impl GpioPin {
    /// The pin with the given index.
    pub fn new(index: usize) -> (pin: Self)
        ensures
            pin.index == index,
    {
        Self { index }
    }
}

/// Why handling stopped before its end.
#[derive(Clone, Copy, Debug, PartialEq, Eq, Structural)]
pub enum BlasterError {
    /// A pin was set that the actuator was not built with.
    UnconfiguredPin,
    /// The control file did not take a line.
    SinkWrite,
    /// The control file could not be synchronised.
    SinkSync,
}

impl BlasterError {
    /// The error in words.
    pub open spec fn text(self) -> Seq<char> {
        match self {
            BlasterError::UnconfiguredPin => "Trying to set a key that hasn't been configured"@,
            BlasterError::SinkWrite => "Could not write to the pi-blaster device file"@,
            BlasterError::SinkSync => "Could not synchronise the pi-blaster device file"@,
        }
    }

    /// The error in words.
    pub fn message(&self) -> (message: String)
        ensures
            message@ == self.text(),
    {
        match self {
            BlasterError::UnconfiguredPin => "Trying to set a key that hasn't been configured".to_owned(),
            BlasterError::SinkWrite => "Could not write to the pi-blaster device file".to_owned(),
            BlasterError::SinkSync => "Could not synchronise the pi-blaster device file".to_owned(),
        }
    }
}

/// A change of one pin's level that is owed to the control file.
#[derive(Clone, Copy, Debug, PartialEq, Eq, Structural)]
pub struct PinWrite {
    pub pin: GpioPin,
    pub value: Level,
}

/// The decimal digits of `n` in ASCII, most significant first.
pub open spec fn decimal(n: nat) -> Seq<u8>
    decreases n,
{
    if n < 10 {
        seq![(48 + n) as u8]
    } else {
        decimal(n / 10).push((48 + n % 10) as u8)
    }
}

/// One line of the control file: the pin's index in decimal, `=`, the value's
/// text, and a line feed.
pub open spec fn line_bytes(index: nat, value_text: Seq<u8>) -> Seq<u8> {
    decimal(index) + seq![61u8] + value_text + seq![10u8]
}

/// The digits still to come for what is left of a number: none once nothing is left.
spec fn leading_digits(n: nat) -> Seq<u8> {
    if n == 0 {
        Seq::empty()
    } else {
        decimal(n)
    }
}

/// Renders `n` in decimal.
pub fn decimal_digits(n: usize) -> (digits: Vec<u8>)
    ensures
        digits@ == decimal(n as nat),
{
    let mut reversed: Vec<u8> = Vec::new();
    reversed.push((48 + n % 10) as u8);
    let mut rest: usize = n / 10;
    while rest > 0
        invariant
            reversed@.len() > 0,
            decimal(n as nat) == leading_digits(rest as nat) + reversed@.reverse(),
        decreases rest,
    {
        reversed.push((48 + rest % 10) as u8);
        rest = rest / 10;
    }
    let mut digits: Vec<u8> = Vec::new();
    let mut left: usize = reversed.len();
    while left > 0
        invariant
            left <= reversed@.len(),
            digits@ == reversed@.reverse().subrange(0, reversed@.len() - left),
        decreases left,
    {
        left -= 1;
        digits.push(reversed[left]);
    }
    digits
}

/// What setting `pin` to `value` returns when the stored levels are `values`.
pub open spec fn set_outcome(values: Map<GpioPin, Level>, pin: GpioPin, value: Level) -> Result<
    Option<PinWrite>,
    BlasterError,
> {
    if !values.contains_key(pin) {
        Err(BlasterError::UnconfiguredPin)
    } else if value.same_number(values[pin]) {
        Ok(None)
    } else {
        Ok(Some(PinWrite { pin, value }))
    }
}

/// The stored levels after setting `pin` to `value`: they change only where a
/// write is owed.
pub open spec fn set_values(values: Map<GpioPin, Level>, pin: GpioPin, value: Level) -> Map<
    GpioPin,
    Level,
> {
    if set_outcome(values, pin, value) is Ok && set_outcome(values, pin, value)->Ok_0 is Some {
        values.insert(pin, value)
    } else {
        values
    }
}

impl PinWrite {
    /// The line that carries this write, given the value's text.
    ///
    /// The text is the caller's: the shortest decimal form that reads back as
    /// the same single-precision number.
    pub fn line(&self, value_text: &str) -> (line: Vec<u8>)
        ensures
            line@ == line_bytes(self.pin.index as nat, value_text.spec_bytes()),
    {
        let mut line = decimal_digits(self.pin.index);
        line.push(61u8);
        let text = value_text.as_bytes();
        let mut i: usize = 0;
        while i < text.len()
            invariant
                i <= text@.len(),
                line@ == decimal(self.pin.index as nat) + seq![61u8] + text@.subrange(0, i as int),
            decreases text.len() - i,
        {
            line.push(text[i]);
            i += 1;
        }
        line.push(10u8);
        line
    }
}

/// Setting a pin to a number it does not have, to the same number again, and
/// then to another number owes two writes: one for the first call and one for
/// the third. The second call changes nothing.
pub proof fn lemma_repeated_set(
    values: Map<GpioPin, Level>,
    pin: GpioPin,
    first: Level,
    second: Level,
)
    requires
        values.contains_key(pin),
        !first.nan(),
        !first.same_number(values[pin]),
        !second.same_number(first),
    ensures
        set_outcome(values, pin, first) == Ok::<Option<PinWrite>, BlasterError>(
            Some(PinWrite { pin, value: first }),
        ),
        set_outcome(set_values(values, pin, first), pin, first) == Ok::<
            Option<PinWrite>,
            BlasterError,
        >(None),
        set_values(set_values(values, pin, first), pin, first) == set_values(values, pin, first),
        set_outcome(set_values(values, pin, first), pin, second) == Ok::<
            Option<PinWrite>,
            BlasterError,
        >(Some(PinWrite { pin, value: second })),
{
}

/// The last level written to each configured pin.
pub struct PiBlaster {
    current_values: HashMap<usize, Level>,
}

impl View for PiBlaster {
    type V = Map<GpioPin, Level>;

    closed spec fn view(&self) -> Map<GpioPin, Level> {
        Map::new(
            |pin: GpioPin| self.current_values@.contains_key(pin.index),
            |pin: GpioPin| self.current_values@[pin.index],
        )
    }
}

impl PiBlaster {
    /// An actuator for `pins`, each at zero. Nothing is owed to the control
    /// file for this baseline.
    pub fn new(pins: &Vec<GpioPin>) -> (blaster: Self)
        ensures
            blaster@ == Map::new(|pin: GpioPin| pins@.contains(pin), |pin: GpioPin| Level { bits: 0 }),
    {
        let mut cvs: HashMap<usize, Level> = HashMap::new();
        let mut i: usize = 0;
        while i < pins.len()
            invariant
                i <= pins.len(),
                forall|k: usize|
                    cvs@.contains_key(k) <==> exists|j: int|
                        0 <= j < i && (#[trigger] pins@[j]).index == k,
                forall|k: usize| cvs@.contains_key(k) ==> cvs@[k] == (Level { bits: 0 }),
            decreases pins.len() - i,
        {
            cvs.insert(pins[i].index, Level::zero());
            i += 1;
        }
        PiBlaster { current_values: cvs }
    }

    /// The level last written to `pin`, if the pin is configured.
    pub fn current_value(&self, pin: &GpioPin) -> (r: Option<Level>)
        ensures
            r == (if self@.contains_key(*pin) {
                Some(self@[*pin])
            } else {
                None
            }),
    {
        match self.current_values.get(&pin.index) {
            Some(level) => Some(*level),
            None => None,
        }
    }

    /// Sets `pin` to `value`.
    ///
    /// A pin that is not configured is refused and nothing changes. A value
    /// that equals the stored one as a number changes nothing and owes no
    /// write. Any other value is stored, and the write that carries it to the
    /// control file is returned.
    pub fn set_pin(&mut self, pin: &GpioPin, value: Level) -> (r: Result<
        Option<PinWrite>,
        BlasterError,
    >)
        ensures
            r == set_outcome(old(self)@, *pin, value),
            final(self)@ == set_values(old(self)@, *pin, value),
            final(self)@.dom() == old(self)@.dom(),
    {
        let current = match self.current_values.get(&pin.index) {
            Some(level) => *level,
            None => {
                return Err(BlasterError::UnconfiguredPin);
            },
        };
        if value.equals(&current) {
            return Ok(None);
        }
        self.current_values.insert(pin.index, value);
        Ok(Some(PinWrite { pin: *pin, value }))
    }
}

} // verus!
