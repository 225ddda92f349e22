//! SMARTSCAN: adaptive scan scheduling for an RF receiver.
//!
//! The verified core of the project: the bit-packed ground-truth grid of the
//! RF simulator, the integer logic of periodicity analysis and window
//! prediction, the scan schedulers that need no floating point, the
//! bookkeeping of scan history, and the framing and validation of pulse data.
pub mod config;
pub mod data;
pub mod dl;
pub mod evaluation;
pub mod periodic;
pub mod ppo;
pub mod scheduler;
pub mod simulator;

use vstd::prelude::*;

pub use config::{AppConfig, EvaluationConfig};

verus! {

pub const PROJECT_NAME: &'static str = "SMARTSCAN";

pub const PROJECT_DESC: &'static str = "ML-Based Adaptive Scan Strategy for Electronic Warfare";

/// The decimal digit character of `d`.
pub open spec fn digit_char(d: nat) -> char {
    (('0' as u32) + d) as char
}

/// The decimal representation of `n`, without leading zeros.
pub open spec fn decimal(n: nat) -> Seq<char>
    decreases n,
{
    if n < 10 {
        seq![digit_char(n)]
    } else {
        decimal(n / 10).push(digit_char(n % 10))
    }
}

/// A semantic version number.
#[derive(Debug, Clone, Copy, PartialEq, Eq, Hash)]
pub struct Version {
    pub major: u8,
    pub minor: u8,
    pub patch: u8,
}

impl Version {
    pub fn new(major: u8, minor: u8, patch: u8) -> (version: Self)
        ensures
            version.major == major,
            version.minor == minor,
            version.patch == patch,
    {
        Self { major, minor, patch }
    }

    /// "major.minor.patch" in decimal.
    pub open spec fn text(&self) -> Seq<char> {
        decimal(self.major as nat) + seq!['.'] + decimal(self.minor as nat) + seq!['.'] + decimal(
            self.patch as nat,
        )
    }

    /// The version as "major.minor.patch".
    pub fn to_string(&self) -> (text: String)
        ensures
            text@ == self.text(),
    {
        let mut text = String::new();
        push_decimal(&mut text, self.major);
        data::text::push_char(&mut text, '.');
        push_decimal(&mut text, self.minor);
        data::text::push_char(&mut text, '.');
        push_decimal(&mut text, self.patch);
        text
    }
}

fn digit(d: u8) -> (c: char)
    requires
        d < 10,
    ensures
        c == digit_char(d as nat),
{
    ((48u8 + d) as char)
}

/// Appends the decimal representation of `n`.
fn push_decimal(text: &mut String, n: u8)
    ensures
        final(text)@ == old(text)@ + decimal(n as nat),
{
    proof {
        reveal_with_fuel(decimal, 3);
    }
    if n >= 100 {
        data::text::push_char(text, digit(n / 100));
    }
    if n >= 10 {
        data::text::push_char(text, digit((n / 10) % 10));
    }
    data::text::push_char(text, digit(n % 10));
    proof {
        let ghost d = decimal(n as nat);
        assert(final(text)@ =~= old(text)@ + d) by {
            if n >= 100 {
                assert((n as nat) / 10 / 10 == (n as nat) / 100);
                assert(((n as nat) / 10) % 10 == (n as nat / 10) % 10);
            }
        }
    }
}

/// The version of this release, 0.1.0.
pub fn version() -> (version: Version)
    ensures
        version.major == 0 && version.minor == 1 && version.patch == 0,
{
    Version::new(0, 1, 0)
}

} // verus!
