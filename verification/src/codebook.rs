//! The status codebook: each closed candle is summarized by a five-field
//! descriptor (which of the medium and long averages is on top, their two
//! directions, the candle color, and the long convergence class), and the
//! codebook maps each descriptor to a small status code.
//!
//! The descriptor is modeled as an enum product; the dash-joined string form
//! is kept only as a display projection, and the legacy four-dash string
//! form can still be looked up directly.

use vstd::prelude::*;

verus! {

use crate::candle::Color;
use vstd::string::StrSliceExecFns;

/// Which of the medium and long moving averages lies above the other.
#[derive(Clone, Copy, Debug, PartialEq, Eq, Structural)]
pub enum AboveLong {
    MediumAbove,
    LongAbove,
}

/// The direction of a moving average between two consecutive steps.
#[derive(Clone, Copy, Debug, PartialEq, Eq, Structural)]
pub enum Direction {
    Up,
    Down,
    Flat,
}

impl Direction {
    /// The direction's conventional display name.
    pub fn as_str(&self) -> (r: &'static str)
        ensures
            *self is Up ==> r@ == "Up"@,
            *self is Down ==> r@ == "Down"@,
            *self is Flat ==> r@ == "Flat"@,
    {
        match self {
            Direction::Up => "Up",
            Direction::Down => "Down",
            Direction::Flat => "Flat",
        }
    }
}

/// The convergence class of the separation between the medium and long
/// averages: widening (D), narrowing (C), or narrow/steady (N).
#[derive(Clone, Copy, Debug, PartialEq, Eq, Structural)]
pub enum ConvClass {
    D,
    C,
    N,
}

/// The five-field status descriptor of one closed candle.
#[derive(Clone, Copy, Debug, PartialEq, Eq, Structural)]
pub struct StatusKey {
    pub above: AboveLong,
    pub medium_dir: Direction,
    pub long_dir: Direction,
    pub color: Color,
    pub conv: ConvClass,
}

/// The full descriptor table, code by code. Descriptors outside the table
/// have no code.
pub open spec fn series_code_of(
    above: AboveLong,
    medium_dir: Direction,
    long_dir: Direction,
    color: Color,
    conv: ConvClass,
) -> Option<u32> {
    match (above, medium_dir, long_dir, color, conv) {
        (AboveLong::LongAbove, Direction::Down, Direction::Down, Color::Equal, ConvClass::D) => Option::Some(1u32),
        (AboveLong::LongAbove, Direction::Down, Direction::Down, Color::Green, ConvClass::C) => Option::Some(2u32),
        (AboveLong::LongAbove, Direction::Down, Direction::Down, Color::Green, ConvClass::D) => Option::Some(3u32),
        (AboveLong::LongAbove, Direction::Down, Direction::Down, Color::Green, ConvClass::N) => Option::Some(4u32),
        (AboveLong::LongAbove, Direction::Down, Direction::Down, Color::Red, ConvClass::C) => Option::Some(5u32),
        (AboveLong::LongAbove, Direction::Down, Direction::Down, Color::Red, ConvClass::D) => Option::Some(6u32),
        (AboveLong::LongAbove, Direction::Down, Direction::Down, Color::Red, ConvClass::N) => Option::Some(7u32),
        (AboveLong::LongAbove, Direction::Down, Direction::Flat, Color::Green, ConvClass::C) => Option::Some(8u32),
        (AboveLong::LongAbove, Direction::Down, Direction::Flat, Color::Green, ConvClass::D) => Option::Some(9u32),
        (AboveLong::LongAbove, Direction::Down, Direction::Flat, Color::Green, ConvClass::N) => Option::Some(10u32),
        (AboveLong::LongAbove, Direction::Down, Direction::Flat, Color::Red, ConvClass::C) => Option::Some(11u32),
        (AboveLong::LongAbove, Direction::Down, Direction::Flat, Color::Red, ConvClass::D) => Option::Some(12u32),
        (AboveLong::LongAbove, Direction::Down, Direction::Flat, Color::Red, ConvClass::N) => Option::Some(13u32),
        (AboveLong::LongAbove, Direction::Down, Direction::Up, Color::Green, ConvClass::C) => Option::Some(14u32),
        (AboveLong::LongAbove, Direction::Down, Direction::Up, Color::Green, ConvClass::D) => Option::Some(15u32),
        (AboveLong::LongAbove, Direction::Down, Direction::Up, Color::Green, ConvClass::N) => Option::Some(16u32),
        (AboveLong::LongAbove, Direction::Down, Direction::Up, Color::Red, ConvClass::C) => Option::Some(17u32),
        (AboveLong::LongAbove, Direction::Down, Direction::Up, Color::Red, ConvClass::D) => Option::Some(18u32),
        (AboveLong::LongAbove, Direction::Down, Direction::Up, Color::Red, ConvClass::N) => Option::Some(19u32),
        (AboveLong::LongAbove, Direction::Flat, Direction::Down, Color::Green, ConvClass::C) => Option::Some(20u32),
        (AboveLong::LongAbove, Direction::Flat, Direction::Down, Color::Green, ConvClass::N) => Option::Some(21u32),
        (AboveLong::LongAbove, Direction::Flat, Direction::Down, Color::Red, ConvClass::C) => Option::Some(22u32),
        (AboveLong::LongAbove, Direction::Flat, Direction::Down, Color::Red, ConvClass::N) => Option::Some(23u32),
        (AboveLong::LongAbove, Direction::Flat, Direction::Flat, Color::Green, ConvClass::C) => Option::Some(24u32),
        (AboveLong::LongAbove, Direction::Flat, Direction::Flat, Color::Green, ConvClass::N) => Option::Some(25u32),
        (AboveLong::LongAbove, Direction::Flat, Direction::Flat, Color::Red, ConvClass::N) => Option::Some(26u32),
        (AboveLong::LongAbove, Direction::Flat, Direction::Up, Color::Green, ConvClass::C) => Option::Some(27u32),
        (AboveLong::LongAbove, Direction::Flat, Direction::Up, Color::Green, ConvClass::D) => Option::Some(28u32),
        (AboveLong::LongAbove, Direction::Flat, Direction::Up, Color::Green, ConvClass::N) => Option::Some(29u32),
        (AboveLong::LongAbove, Direction::Flat, Direction::Up, Color::Red, ConvClass::D) => Option::Some(30u32),
        (AboveLong::LongAbove, Direction::Flat, Direction::Up, Color::Red, ConvClass::N) => Option::Some(31u32),
        (AboveLong::LongAbove, Direction::Up, Direction::Down, Color::Green, ConvClass::C) => Option::Some(32u32),
        (AboveLong::LongAbove, Direction::Up, Direction::Down, Color::Green, ConvClass::N) => Option::Some(33u32),
        (AboveLong::LongAbove, Direction::Up, Direction::Down, Color::Red, ConvClass::C) => Option::Some(34u32),
        (AboveLong::LongAbove, Direction::Up, Direction::Down, Color::Red, ConvClass::N) => Option::Some(35u32),
        (AboveLong::LongAbove, Direction::Up, Direction::Flat, Color::Green, ConvClass::C) => Option::Some(36u32),
        (AboveLong::LongAbove, Direction::Up, Direction::Flat, Color::Green, ConvClass::N) => Option::Some(37u32),
        (AboveLong::LongAbove, Direction::Up, Direction::Up, Color::Green, ConvClass::C) => Option::Some(38u32),
        (AboveLong::LongAbove, Direction::Up, Direction::Up, Color::Green, ConvClass::D) => Option::Some(39u32),
        (AboveLong::LongAbove, Direction::Up, Direction::Up, Color::Green, ConvClass::N) => Option::Some(40u32),
        (AboveLong::LongAbove, Direction::Up, Direction::Up, Color::Red, ConvClass::D) => Option::Some(41u32),
        (AboveLong::LongAbove, Direction::Up, Direction::Up, Color::Red, ConvClass::N) => Option::Some(42u32),
        (AboveLong::MediumAbove, Direction::Down, Direction::Down, Color::Green, ConvClass::C) => Option::Some(43u32),
        (AboveLong::MediumAbove, Direction::Down, Direction::Down, Color::Green, ConvClass::D) => Option::Some(44u32),
        (AboveLong::MediumAbove, Direction::Down, Direction::Down, Color::Green, ConvClass::N) => Option::Some(45u32),
        (AboveLong::MediumAbove, Direction::Down, Direction::Down, Color::Red, ConvClass::C) => Option::Some(46u32),
        (AboveLong::MediumAbove, Direction::Down, Direction::Down, Color::Red, ConvClass::D) => Option::Some(47u32),
        (AboveLong::MediumAbove, Direction::Down, Direction::Down, Color::Red, ConvClass::N) => Option::Some(48u32),
        (AboveLong::MediumAbove, Direction::Down, Direction::Flat, Color::Green, ConvClass::C) => Option::Some(49u32),
        (AboveLong::MediumAbove, Direction::Down, Direction::Flat, Color::Green, ConvClass::N) => Option::Some(50u32),
        (AboveLong::MediumAbove, Direction::Down, Direction::Flat, Color::Red, ConvClass::C) => Option::Some(51u32),
        (AboveLong::MediumAbove, Direction::Down, Direction::Flat, Color::Red, ConvClass::N) => Option::Some(52u32),
        (AboveLong::MediumAbove, Direction::Down, Direction::Up, Color::Green, ConvClass::C) => Option::Some(53u32),
        (AboveLong::MediumAbove, Direction::Down, Direction::Up, Color::Green, ConvClass::N) => Option::Some(54u32),
        (AboveLong::MediumAbove, Direction::Down, Direction::Up, Color::Red, ConvClass::C) => Option::Some(55u32),
        (AboveLong::MediumAbove, Direction::Down, Direction::Up, Color::Red, ConvClass::N) => Option::Some(56u32),
        (AboveLong::MediumAbove, Direction::Flat, Direction::Down, Color::Green, ConvClass::C) => Option::Some(57u32),
        (AboveLong::MediumAbove, Direction::Flat, Direction::Down, Color::Green, ConvClass::D) => Option::Some(58u32),
        (AboveLong::MediumAbove, Direction::Flat, Direction::Down, Color::Green, ConvClass::N) => Option::Some(59u32),
        (AboveLong::MediumAbove, Direction::Flat, Direction::Down, Color::Red, ConvClass::D) => Option::Some(60u32),
        (AboveLong::MediumAbove, Direction::Flat, Direction::Down, Color::Red, ConvClass::N) => Option::Some(61u32),
        (AboveLong::MediumAbove, Direction::Flat, Direction::Up, Color::Green, ConvClass::C) => Option::Some(62u32),
        (AboveLong::MediumAbove, Direction::Flat, Direction::Up, Color::Green, ConvClass::N) => Option::Some(63u32),
        (AboveLong::MediumAbove, Direction::Flat, Direction::Up, Color::Red, ConvClass::C) => Option::Some(64u32),
        (AboveLong::MediumAbove, Direction::Flat, Direction::Up, Color::Red, ConvClass::N) => Option::Some(65u32),
        (AboveLong::MediumAbove, Direction::Up, Direction::Down, Color::Equal, ConvClass::C) => Option::Some(66u32),
        (AboveLong::MediumAbove, Direction::Up, Direction::Down, Color::Green, ConvClass::C) => Option::Some(67u32),
        (AboveLong::MediumAbove, Direction::Up, Direction::Down, Color::Green, ConvClass::D) => Option::Some(68u32),
        (AboveLong::MediumAbove, Direction::Up, Direction::Down, Color::Green, ConvClass::N) => Option::Some(69u32),
        (AboveLong::MediumAbove, Direction::Up, Direction::Down, Color::Red, ConvClass::C) => Option::Some(70u32),
        (AboveLong::MediumAbove, Direction::Up, Direction::Down, Color::Red, ConvClass::D) => Option::Some(71u32),
        (AboveLong::MediumAbove, Direction::Up, Direction::Down, Color::Red, ConvClass::N) => Option::Some(72u32),
        (AboveLong::MediumAbove, Direction::Up, Direction::Flat, Color::Green, ConvClass::C) => Option::Some(73u32),
        (AboveLong::MediumAbove, Direction::Up, Direction::Flat, Color::Green, ConvClass::D) => Option::Some(74u32),
        (AboveLong::MediumAbove, Direction::Up, Direction::Flat, Color::Green, ConvClass::N) => Option::Some(75u32),
        (AboveLong::MediumAbove, Direction::Up, Direction::Flat, Color::Red, ConvClass::D) => Option::Some(76u32),
        (AboveLong::MediumAbove, Direction::Up, Direction::Up, Color::Equal, ConvClass::D) => Option::Some(77u32),
        (AboveLong::MediumAbove, Direction::Up, Direction::Up, Color::Equal, ConvClass::N) => Option::Some(78u32),
        (AboveLong::MediumAbove, Direction::Up, Direction::Up, Color::Green, ConvClass::C) => Option::Some(79u32),
        (AboveLong::MediumAbove, Direction::Up, Direction::Up, Color::Green, ConvClass::D) => Option::Some(80u32),
        (AboveLong::MediumAbove, Direction::Up, Direction::Up, Color::Green, ConvClass::N) => Option::Some(81u32),
        (AboveLong::MediumAbove, Direction::Up, Direction::Up, Color::Red, ConvClass::C) => Option::Some(82u32),
        (AboveLong::MediumAbove, Direction::Up, Direction::Up, Color::Red, ConvClass::D) => Option::Some(83u32),
        (AboveLong::MediumAbove, Direction::Up, Direction::Up, Color::Red, ConvClass::N) => Option::Some(84u32),
        _ => Option::None,
    }
}

/// Look up the code of a descriptor in the full table.
pub fn series_code(key: &StatusKey) -> (r: Option<u32>)
    ensures
        r == series_code_of(key.above, key.medium_dir, key.long_dir, key.color, key.conv),
{
    match (key.above, key.medium_dir, key.long_dir, key.color, key.conv) {
        (AboveLong::LongAbove, Direction::Down, Direction::Down, Color::Equal, ConvClass::D) => Option::Some(1u32),
        (AboveLong::LongAbove, Direction::Down, Direction::Down, Color::Green, ConvClass::C) => Option::Some(2u32),
        (AboveLong::LongAbove, Direction::Down, Direction::Down, Color::Green, ConvClass::D) => Option::Some(3u32),
        (AboveLong::LongAbove, Direction::Down, Direction::Down, Color::Green, ConvClass::N) => Option::Some(4u32),
        (AboveLong::LongAbove, Direction::Down, Direction::Down, Color::Red, ConvClass::C) => Option::Some(5u32),
        (AboveLong::LongAbove, Direction::Down, Direction::Down, Color::Red, ConvClass::D) => Option::Some(6u32),
        (AboveLong::LongAbove, Direction::Down, Direction::Down, Color::Red, ConvClass::N) => Option::Some(7u32),
        (AboveLong::LongAbove, Direction::Down, Direction::Flat, Color::Green, ConvClass::C) => Option::Some(8u32),
        (AboveLong::LongAbove, Direction::Down, Direction::Flat, Color::Green, ConvClass::D) => Option::Some(9u32),
        (AboveLong::LongAbove, Direction::Down, Direction::Flat, Color::Green, ConvClass::N) => Option::Some(10u32),
        (AboveLong::LongAbove, Direction::Down, Direction::Flat, Color::Red, ConvClass::C) => Option::Some(11u32),
        (AboveLong::LongAbove, Direction::Down, Direction::Flat, Color::Red, ConvClass::D) => Option::Some(12u32),
        (AboveLong::LongAbove, Direction::Down, Direction::Flat, Color::Red, ConvClass::N) => Option::Some(13u32),
        (AboveLong::LongAbove, Direction::Down, Direction::Up, Color::Green, ConvClass::C) => Option::Some(14u32),
        (AboveLong::LongAbove, Direction::Down, Direction::Up, Color::Green, ConvClass::D) => Option::Some(15u32),
        (AboveLong::LongAbove, Direction::Down, Direction::Up, Color::Green, ConvClass::N) => Option::Some(16u32),
        (AboveLong::LongAbove, Direction::Down, Direction::Up, Color::Red, ConvClass::C) => Option::Some(17u32),
        (AboveLong::LongAbove, Direction::Down, Direction::Up, Color::Red, ConvClass::D) => Option::Some(18u32),
        (AboveLong::LongAbove, Direction::Down, Direction::Up, Color::Red, ConvClass::N) => Option::Some(19u32),
        (AboveLong::LongAbove, Direction::Flat, Direction::Down, Color::Green, ConvClass::C) => Option::Some(20u32),
        (AboveLong::LongAbove, Direction::Flat, Direction::Down, Color::Green, ConvClass::N) => Option::Some(21u32),
        (AboveLong::LongAbove, Direction::Flat, Direction::Down, Color::Red, ConvClass::C) => Option::Some(22u32),
        (AboveLong::LongAbove, Direction::Flat, Direction::Down, Color::Red, ConvClass::N) => Option::Some(23u32),
        (AboveLong::LongAbove, Direction::Flat, Direction::Flat, Color::Green, ConvClass::C) => Option::Some(24u32),
        (AboveLong::LongAbove, Direction::Flat, Direction::Flat, Color::Green, ConvClass::N) => Option::Some(25u32),
        (AboveLong::LongAbove, Direction::Flat, Direction::Flat, Color::Red, ConvClass::N) => Option::Some(26u32),
        (AboveLong::LongAbove, Direction::Flat, Direction::Up, Color::Green, ConvClass::C) => Option::Some(27u32),
        (AboveLong::LongAbove, Direction::Flat, Direction::Up, Color::Green, ConvClass::D) => Option::Some(28u32),
        (AboveLong::LongAbove, Direction::Flat, Direction::Up, Color::Green, ConvClass::N) => Option::Some(29u32),
        (AboveLong::LongAbove, Direction::Flat, Direction::Up, Color::Red, ConvClass::D) => Option::Some(30u32),
        (AboveLong::LongAbove, Direction::Flat, Direction::Up, Color::Red, ConvClass::N) => Option::Some(31u32),
        (AboveLong::LongAbove, Direction::Up, Direction::Down, Color::Green, ConvClass::C) => Option::Some(32u32),
        (AboveLong::LongAbove, Direction::Up, Direction::Down, Color::Green, ConvClass::N) => Option::Some(33u32),
        (AboveLong::LongAbove, Direction::Up, Direction::Down, Color::Red, ConvClass::C) => Option::Some(34u32),
        (AboveLong::LongAbove, Direction::Up, Direction::Down, Color::Red, ConvClass::N) => Option::Some(35u32),
        (AboveLong::LongAbove, Direction::Up, Direction::Flat, Color::Green, ConvClass::C) => Option::Some(36u32),
        (AboveLong::LongAbove, Direction::Up, Direction::Flat, Color::Green, ConvClass::N) => Option::Some(37u32),
        (AboveLong::LongAbove, Direction::Up, Direction::Up, Color::Green, ConvClass::C) => Option::Some(38u32),
        (AboveLong::LongAbove, Direction::Up, Direction::Up, Color::Green, ConvClass::D) => Option::Some(39u32),
        (AboveLong::LongAbove, Direction::Up, Direction::Up, Color::Green, ConvClass::N) => Option::Some(40u32),
        (AboveLong::LongAbove, Direction::Up, Direction::Up, Color::Red, ConvClass::D) => Option::Some(41u32),
        (AboveLong::LongAbove, Direction::Up, Direction::Up, Color::Red, ConvClass::N) => Option::Some(42u32),
        (AboveLong::MediumAbove, Direction::Down, Direction::Down, Color::Green, ConvClass::C) => Option::Some(43u32),
        (AboveLong::MediumAbove, Direction::Down, Direction::Down, Color::Green, ConvClass::D) => Option::Some(44u32),
        (AboveLong::MediumAbove, Direction::Down, Direction::Down, Color::Green, ConvClass::N) => Option::Some(45u32),
        (AboveLong::MediumAbove, Direction::Down, Direction::Down, Color::Red, ConvClass::C) => Option::Some(46u32),
        (AboveLong::MediumAbove, Direction::Down, Direction::Down, Color::Red, ConvClass::D) => Option::Some(47u32),
        (AboveLong::MediumAbove, Direction::Down, Direction::Down, Color::Red, ConvClass::N) => Option::Some(48u32),
        (AboveLong::MediumAbove, Direction::Down, Direction::Flat, Color::Green, ConvClass::C) => Option::Some(49u32),
        (AboveLong::MediumAbove, Direction::Down, Direction::Flat, Color::Green, ConvClass::N) => Option::Some(50u32),
        (AboveLong::MediumAbove, Direction::Down, Direction::Flat, Color::Red, ConvClass::C) => Option::Some(51u32),
        (AboveLong::MediumAbove, Direction::Down, Direction::Flat, Color::Red, ConvClass::N) => Option::Some(52u32),
        (AboveLong::MediumAbove, Direction::Down, Direction::Up, Color::Green, ConvClass::C) => Option::Some(53u32),
        (AboveLong::MediumAbove, Direction::Down, Direction::Up, Color::Green, ConvClass::N) => Option::Some(54u32),
        (AboveLong::MediumAbove, Direction::Down, Direction::Up, Color::Red, ConvClass::C) => Option::Some(55u32),
        (AboveLong::MediumAbove, Direction::Down, Direction::Up, Color::Red, ConvClass::N) => Option::Some(56u32),
        (AboveLong::MediumAbove, Direction::Flat, Direction::Down, Color::Green, ConvClass::C) => Option::Some(57u32),
        (AboveLong::MediumAbove, Direction::Flat, Direction::Down, Color::Green, ConvClass::D) => Option::Some(58u32),
        (AboveLong::MediumAbove, Direction::Flat, Direction::Down, Color::Green, ConvClass::N) => Option::Some(59u32),
        (AboveLong::MediumAbove, Direction::Flat, Direction::Down, Color::Red, ConvClass::D) => Option::Some(60u32),
        (AboveLong::MediumAbove, Direction::Flat, Direction::Down, Color::Red, ConvClass::N) => Option::Some(61u32),
        (AboveLong::MediumAbove, Direction::Flat, Direction::Up, Color::Green, ConvClass::C) => Option::Some(62u32),
        (AboveLong::MediumAbove, Direction::Flat, Direction::Up, Color::Green, ConvClass::N) => Option::Some(63u32),
        (AboveLong::MediumAbove, Direction::Flat, Direction::Up, Color::Red, ConvClass::C) => Option::Some(64u32),
        (AboveLong::MediumAbove, Direction::Flat, Direction::Up, Color::Red, ConvClass::N) => Option::Some(65u32),
        (AboveLong::MediumAbove, Direction::Up, Direction::Down, Color::Equal, ConvClass::C) => Option::Some(66u32),
        (AboveLong::MediumAbove, Direction::Up, Direction::Down, Color::Green, ConvClass::C) => Option::Some(67u32),
        (AboveLong::MediumAbove, Direction::Up, Direction::Down, Color::Green, ConvClass::D) => Option::Some(68u32),
        (AboveLong::MediumAbove, Direction::Up, Direction::Down, Color::Green, ConvClass::N) => Option::Some(69u32),
        (AboveLong::MediumAbove, Direction::Up, Direction::Down, Color::Red, ConvClass::C) => Option::Some(70u32),
        (AboveLong::MediumAbove, Direction::Up, Direction::Down, Color::Red, ConvClass::D) => Option::Some(71u32),
        (AboveLong::MediumAbove, Direction::Up, Direction::Down, Color::Red, ConvClass::N) => Option::Some(72u32),
        (AboveLong::MediumAbove, Direction::Up, Direction::Flat, Color::Green, ConvClass::C) => Option::Some(73u32),
        (AboveLong::MediumAbove, Direction::Up, Direction::Flat, Color::Green, ConvClass::D) => Option::Some(74u32),
        (AboveLong::MediumAbove, Direction::Up, Direction::Flat, Color::Green, ConvClass::N) => Option::Some(75u32),
        (AboveLong::MediumAbove, Direction::Up, Direction::Flat, Color::Red, ConvClass::D) => Option::Some(76u32),
        (AboveLong::MediumAbove, Direction::Up, Direction::Up, Color::Equal, ConvClass::D) => Option::Some(77u32),
        (AboveLong::MediumAbove, Direction::Up, Direction::Up, Color::Equal, ConvClass::N) => Option::Some(78u32),
        (AboveLong::MediumAbove, Direction::Up, Direction::Up, Color::Green, ConvClass::C) => Option::Some(79u32),
        (AboveLong::MediumAbove, Direction::Up, Direction::Up, Color::Green, ConvClass::D) => Option::Some(80u32),
        (AboveLong::MediumAbove, Direction::Up, Direction::Up, Color::Green, ConvClass::N) => Option::Some(81u32),
        (AboveLong::MediumAbove, Direction::Up, Direction::Up, Color::Red, ConvClass::C) => Option::Some(82u32),
        (AboveLong::MediumAbove, Direction::Up, Direction::Up, Color::Red, ConvClass::D) => Option::Some(83u32),
        (AboveLong::MediumAbove, Direction::Up, Direction::Up, Color::Red, ConvClass::N) => Option::Some(84u32),
        _ => Option::None,
    }
}

/// The trading codebook consulted by the generator: the full table without
/// its Equal-color entries.
pub open spec fn status_code_of(key: StatusKey) -> Option<u32> {
    if key.color is Equal {
        Option::None
    } else {
        series_code_of(key.above, key.medium_dir, key.long_dir, key.color, key.conv)
    }
}

/// Look up the code of a descriptor in the trading codebook.
pub fn status_code(key: &StatusKey) -> (r: Option<u32>)
    ensures
        r == status_code_of(*key),
{
    match key.color {
        Color::Equal => Option::None,
        _ => series_code(key),
    }
}

/// The descriptor letter of each field.
pub open spec fn above_letter(a: AboveLong) -> char {
    match a {
        AboveLong::MediumAbove => 'M',
        AboveLong::LongAbove => 'L',
    }
}

pub open spec fn dir_letter(d: Direction) -> char {
    match d {
        Direction::Up => 'U',
        Direction::Down => 'D',
        Direction::Flat => 'F',
    }
}

pub open spec fn color_letter(c: Color) -> char {
    match c {
        Color::Green => 'G',
        Color::Red => 'R',
        Color::Equal => 'E',
    }
}

pub open spec fn conv_letter(c: ConvClass) -> char {
    match c {
        ConvClass::D => 'D',
        ConvClass::C => 'C',
        ConvClass::N => 'N',
    }
}

/// The dash-joined display form of a descriptor, character by character.
pub open spec fn desc_seq(key: StatusKey) -> Seq<char> {
    seq![
        above_letter(key.above),
        '-',
        dir_letter(key.medium_dir),
        '-',
        dir_letter(key.long_dir),
        '-',
        color_letter(key.color),
        '-',
        conv_letter(key.conv),
    ]
}

fn above_letter_str(a: AboveLong) -> (r: &'static str)
    ensures
        r@ == seq![above_letter(a)],
{
    proof {
        reveal_strlit("M");
        reveal_strlit("L");
    }
    match a {
        AboveLong::MediumAbove => "M",
        AboveLong::LongAbove => "L",
    }
}

fn dir_letter_str(d: Direction) -> (r: &'static str)
    ensures
        r@ == seq![dir_letter(d)],
{
    proof {
        reveal_strlit("U");
        reveal_strlit("D");
        reveal_strlit("F");
    }
    match d {
        Direction::Up => "U",
        Direction::Down => "D",
        Direction::Flat => "F",
    }
}

fn color_letter_str(c: Color) -> (r: &'static str)
    ensures
        r@ == seq![color_letter(c)],
{
    proof {
        reveal_strlit("G");
        reveal_strlit("R");
        reveal_strlit("E");
    }
    match c {
        Color::Green => "G",
        Color::Red => "R",
        Color::Equal => "E",
    }
}

fn conv_letter_str(c: ConvClass) -> (r: &'static str)
    ensures
        r@ == seq![conv_letter(c)],
{
    proof {
        reveal_strlit("D");
        reveal_strlit("C");
        reveal_strlit("N");
    }
    match c {
        ConvClass::D => "D",
        ConvClass::C => "C",
        ConvClass::N => "N",
    }
}

/// Render a descriptor into its dash-joined display string.
pub fn render_status_desc(key: &StatusKey) -> (r: String)
    ensures
        r@ == desc_seq(*key),
{
    proof {
        reveal_strlit("-");
    }
    let mut s: String = String::new();
    s.append(above_letter_str(key.above));
    s.append("-");
    s.append(dir_letter_str(key.medium_dir));
    s.append("-");
    s.append(dir_letter_str(key.long_dir));
    s.append("-");
    s.append(color_letter_str(key.color));
    s.append("-");
    s.append(conv_letter_str(key.conv));
    proof {
        assert(s@ =~= desc_seq(*key));
    }
    s
}

/// Which field each descriptor letter denotes, for the legacy lookup.
pub open spec fn parse_above(c: char) -> Option<AboveLong> {
    if c == 'M' {
        Option::Some(AboveLong::MediumAbove)
    } else if c == 'L' {
        Option::Some(AboveLong::LongAbove)
    } else {
        Option::None
    }
}

pub open spec fn parse_dir(c: char) -> Option<Direction> {
    if c == 'U' {
        Option::Some(Direction::Up)
    } else if c == 'D' {
        Option::Some(Direction::Down)
    } else if c == 'F' {
        Option::Some(Direction::Flat)
    } else {
        Option::None
    }
}

pub open spec fn parse_color(c: char) -> Option<Color> {
    if c == 'G' {
        Option::Some(Color::Green)
    } else if c == 'R' {
        Option::Some(Color::Red)
    } else if c == 'E' {
        Option::Some(Color::Equal)
    } else {
        Option::None
    }
}

pub open spec fn parse_conv(c: char) -> Option<ConvClass> {
    if c == 'D' {
        Option::Some(ConvClass::D)
    } else if c == 'C' {
        Option::Some(ConvClass::C)
    } else if c == 'N' {
        Option::Some(ConvClass::N)
    } else {
        Option::None
    }
}

/// What the legacy four-dash lookup returns for a string: the descriptor is
/// eight characters, `A-BC-D-E`, and its code comes from the full table.
pub open spec fn lookup_series_code_spec(s: Seq<char>) -> Option<u32> {
    if s.len() != 8 {
        Option::None
    } else if s[1] != '-' || s[4] != '-' || s[6] != '-' {
        Option::None
    } else {
        match (parse_above(s[0]), parse_dir(s[2]), parse_dir(s[3]), parse_color(s[5]), parse_conv(
            s[7],
        )) {
            (
                Option::Some(a),
                Option::Some(b),
                Option::Some(c),
                Option::Some(d),
                Option::Some(e),
            ) => series_code_of(a, b, c, d, e),
            _ => Option::None,
        }
    }
}

fn parse_above_char(c: char) -> (r: Option<AboveLong>)
    ensures
        r == parse_above(c),
{
    if c == 'M' {
        Option::Some(AboveLong::MediumAbove)
    } else if c == 'L' {
        Option::Some(AboveLong::LongAbove)
    } else {
        Option::None
    }
}

fn parse_dir_char(c: char) -> (r: Option<Direction>)
    ensures
        r == parse_dir(c),
{
    if c == 'U' {
        Option::Some(Direction::Up)
    } else if c == 'D' {
        Option::Some(Direction::Down)
    } else if c == 'F' {
        Option::Some(Direction::Flat)
    } else {
        Option::None
    }
}

fn parse_color_char(c: char) -> (r: Option<Color>)
    ensures
        r == parse_color(c),
{
    if c == 'G' {
        Option::Some(Color::Green)
    } else if c == 'R' {
        Option::Some(Color::Red)
    } else if c == 'E' {
        Option::Some(Color::Equal)
    } else {
        Option::None
    }
}

fn parse_conv_char(c: char) -> (r: Option<ConvClass>)
    ensures
        r == parse_conv(c),
{
    if c == 'D' {
        Option::Some(ConvClass::D)
    } else if c == 'C' {
        Option::Some(ConvClass::C)
    } else if c == 'N' {
        Option::Some(ConvClass::N)
    } else {
        Option::None
    }
}

/// Look up a status code from the legacy four-dash descriptor string
/// (`A-BC-D-E`); strings of any other shape have no code.
pub fn lookup_series_code(status_desc: &str) -> (r: Option<u32>)
    ensures
        r == lookup_series_code_spec(status_desc@),
{
    let n: usize = status_desc.unicode_len();
    if n != 8 {
        return Option::None;
    }
    if status_desc.get_char(1) != '-' || status_desc.get_char(4) != '-' || status_desc.get_char(6)
        != '-' {
        return Option::None;
    }
    let a = parse_above_char(status_desc.get_char(0));
    let b = parse_dir_char(status_desc.get_char(2));
    let c = parse_dir_char(status_desc.get_char(3));
    let d = parse_color_char(status_desc.get_char(5));
    let e = parse_conv_char(status_desc.get_char(7));
    match (a, b, c, d, e) {
        (
            Option::Some(a),
            Option::Some(b),
            Option::Some(c),
            Option::Some(d),
            Option::Some(e),
        ) => series_code(
            &StatusKey { above: a, medium_dir: b, long_dir: c, color: d, conv: e },
        ),
        _ => Option::None,
    }
}

/// The display digit of a decimal value below ten.
pub open spec fn digit_char(d: int) -> char {
    if d == 0 {
        '0'
    } else if d == 1 {
        '1'
    } else if d == 2 {
        '2'
    } else if d == 3 {
        '3'
    } else if d == 4 {
        '4'
    } else if d == 5 {
        '5'
    } else if d == 6 {
        '6'
    } else if d == 7 {
        '7'
    } else if d == 8 {
        '8'
    } else {
        '9'
    }
}

/// The decimal digits of a nonnegative value, most significant first.
pub open spec fn dec_seq(v: int) -> Seq<char>
    decreases v,
{
    if v < 10 {
        seq![digit_char(v)]
    } else {
        dec_seq(v / 10).push(digit_char(v % 10))
    }
}

fn digit_str(d: u32) -> (r: &'static str)
    requires
        d < 10,
    ensures
        r@ == seq![digit_char(d as int)],
{
    proof {
        reveal_strlit("0");
        reveal_strlit("1");
        reveal_strlit("2");
        reveal_strlit("3");
        reveal_strlit("4");
        reveal_strlit("5");
        reveal_strlit("6");
        reveal_strlit("7");
        reveal_strlit("8");
        reveal_strlit("9");
    }
    match d {
        0 => "0",
        1 => "1",
        2 => "2",
        3 => "3",
        4 => "4",
        5 => "5",
        6 => "6",
        7 => "7",
        8 => "8",
        _ => "9",
    }
}

/// Render a value in decimal.
pub fn u32_to_string(v: u32) -> (r: String)
    ensures
        r@ == dec_seq(v as int),
    decreases v,
{
    if v < 10 {
        let mut s: String = String::new();
        s.append(digit_str(v));
        proof {
            assert(s@ =~= dec_seq(v as int));
        }
        s
    } else {
        let mut s: String = u32_to_string(v / 10);
        s.append(digit_str(v % 10));
        proof {
            assert(s@ =~= dec_seq(v as int));
        }
        s
    }
}

/// One entry of the codebook in its display form: a dash-joined descriptor
/// and its code rendered in decimal.
#[derive(Debug, Clone)]
pub struct CandleMasterCode {
    pub status_desc: String,
    pub status_code: String,
}

impl CandleMasterCode {
    /// The display entry of a descriptor, when the trading codebook has a
    /// code for it.
    pub fn of_key(key: &StatusKey) -> (r: Option<CandleMasterCode>)
        ensures
            r is Some <==> status_code_of(*key) is Some,
            r is Some ==> r.unwrap().status_desc@ == desc_seq(*key) && r.unwrap().status_code@
                == dec_seq(status_code_of(*key).unwrap() as int),
    {
        match status_code(key) {
            Option::Some(code) => Option::Some(
                CandleMasterCode {
                    status_desc: render_status_desc(key),
                    status_code: u32_to_string(code),
                },
            ),
            Option::None => Option::None,
        }
    }
}

} // verus!
