//! Line parameters of a port and their validation.
//!
//! The legal sets are fixed: data bits in {5, 6, 7, 8}, stop bits in {1, 2},
//! parity one of none, even, odd. Validation maps raw values into these
//! enumerations and rejects everything else.

use vstd::prelude::*;

verus! {

/// Number of data bits per character.
#[derive(Clone, Copy, Debug, PartialEq, Eq, Structural)]
pub enum DataBits {
    Five,
    Six,
    Seven,
    Eight,
}

/// Number of stop bits per character.
#[derive(Clone, Copy, Debug, PartialEq, Eq, Structural)]
pub enum StopBits {
    One,
    Two,
}

/// Parity check mode.
#[derive(Clone, Copy, Debug, PartialEq, Eq, Structural)]
pub enum Parity {
    NoParity,
    Even,
    Odd,
}

/// The data-bits choice that a raw count selects, if legal.
pub open spec fn spec_data_bits_from(bits: u8) -> Option<DataBits> {
    if bits == 5 {
        Some(DataBits::Five)
    } else if bits == 6 {
        Some(DataBits::Six)
    } else if bits == 7 {
        Some(DataBits::Seven)
    } else if bits == 8 {
        Some(DataBits::Eight)
    } else {
        None
    }
}

/// The stop-bits choice that a raw count selects, if legal.
pub open spec fn spec_stop_bits_from(bits: u8) -> Option<StopBits> {
    if bits == 1 {
        Some(StopBits::One)
    } else if bits == 2 {
        Some(StopBits::Two)
    } else {
        None
    }
}

/// The parity mode that a name selects, if legal.
pub open spec fn spec_parity_from(name: Seq<char>) -> Option<Parity> {
    if name == "None"@ {
        Some(Parity::NoParity)
    } else if name == "Even"@ {
        Some(Parity::Even)
    } else if name == "Odd"@ {
        Some(Parity::Odd)
    } else {
        None
    }
}

/// Maps a raw data-bits count to its enumeration; rejects values outside
/// {5, 6, 7, 8}.
pub fn data_bits_from(bits: u8) -> (r: Option<DataBits>)
    ensures
        r == spec_data_bits_from(bits),
{
    if bits == 5 {
        Some(DataBits::Five)
    } else if bits == 6 {
        Some(DataBits::Six)
    } else if bits == 7 {
        Some(DataBits::Seven)
    } else if bits == 8 {
        Some(DataBits::Eight)
    } else {
        None
    }
}

/// Maps a raw stop-bits count to its enumeration; rejects values outside
/// {1, 2}.
pub fn stop_bits_from(bits: u8) -> (r: Option<StopBits>)
    ensures
        r == spec_stop_bits_from(bits),
{
    if bits == 1 {
        Some(StopBits::One)
    } else if bits == 2 {
        Some(StopBits::Two)
    } else {
        None
    }
}

/// Maps a parity name to its enumeration; rejects names outside
/// {"None", "Even", "Odd"}.
pub fn parity_from(name: &str) -> (r: Option<Parity>)
    ensures
        r == spec_parity_from(name@),
{
    if crate::text::str_eq(name, "None") {
        Some(Parity::NoParity)
    } else if crate::text::str_eq(name, "Even") {
        Some(Parity::Even)
    } else if crate::text::str_eq(name, "Odd") {
        Some(Parity::Odd)
    } else {
        None
    }
}

impl DataBits {
    /// The raw count of this choice.
    pub fn count(&self) -> (r: u8)
        ensures
            spec_data_bits_from(r) == Some(*self),
    {
        match self {
            DataBits::Five => 5,
            DataBits::Six => 6,
            DataBits::Seven => 7,
            DataBits::Eight => 8,
        }
    }
}

impl StopBits {
    /// The raw count of this choice.
    pub fn count(&self) -> (r: u8)
        ensures
            spec_stop_bits_from(r) == Some(*self),
    {
        match self {
            StopBits::One => 1,
            StopBits::Two => 2,
        }
    }
}

/// A validated port configuration: every open attempt that succeeds carries
/// exactly these line parameters to the device.
#[derive(Clone, Debug)]
pub struct PortConfig {
    pub port_name: String,
    pub baud_rate: u32,
    pub data_bits: DataBits,
    pub stop_bits: StopBits,
    pub parity: Parity,
}

} // verus!
