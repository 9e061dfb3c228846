//! What goes over the air: the desk's characteristics, the commands that it takes
//! and the readings that it gives.
use byteorder::{ByteOrder, LittleEndian};
use vstd::prelude::*;
use vstd::slice::slice_subrange;

use crate::binary64::{pattern, Binary64, SIGN};
use crate::error::DeskError;
use crate::height::{
    decoded_height, decoded_speed, height_from_raw, height_ticks, speed_from_raw, speed_ticks,
};

verus! {

/// Where a desk reports its height and its speed.
pub const UUID_HEIGHT: u128 = 0x99fa0021_338a_1024_8a49_009c0215f78a;

/// Where a desk takes commands.
pub const UUID_COMMAND: u128 = 0x99fa0002_338a_1024_8a49_009c0215f78a;

/// Where a desk takes the height to move to.
pub const UUID_REFERENCE_INPUT: u128 = 0x99fa0031_338a_1024_8a49_009c0215f78a;

/// The service that desks advertise.
pub const UUID_ADV_SVC: u128 = 0x99fa0001_338a_1024_8a49_009c0215f78a;

/// Where controllers of the DPG kind take settings.
pub const UUID_DPG: u128 = 0x99fa0011_338a_1024_8a49_009c0215f78a;

/// What is written to a desk.
#[derive(Clone, Copy, Debug, PartialEq, Eq, Structural)]
pub enum Payload {
    /// Opens the settings of a DPG controller.
    DpgOpen,
    /// Sets up a DPG controller.
    DpgSetup,
    /// Wakes the desk up.
    WakeUp,
    /// Stops the desk.
    Stop,
    /// Ends a movement to a given height.
    ReferenceInputStop,
    /// Moves the desk to the height with this number.
    MoveTo(u16),
}

/// The two bytes of `n`, the less significant one first.
pub open spec fn little_endian(n: u16) -> Seq<u8> {
    seq![(n % 256) as u8, (n / 256) as u8]
}

/// The number that the first two bytes make up, the less significant one first.
pub open spec fn unsigned(bytes: Seq<u8>) -> int {
    bytes[0] + 256 * bytes[1]
}

/// The same number in two's complement.
pub open spec fn signed(bytes: Seq<u8>) -> int {
    if unsigned(bytes) < 0x8000 {
        unsigned(bytes)
    } else {
        unsigned(bytes) - 0x1_0000
    }
}

/// Calls `LittleEndian::read_u16`: the first two bytes make up the result, the less
/// significant one first. It panics on fewer bytes.
#[verifier::external_body]
fn read_u16(bytes: &[u8]) -> (n: u16)
    requires
        bytes@.len() >= 2,
    ensures
        n == unsigned(bytes@),
{
    LittleEndian::read_u16(bytes)
}

/// Calls `LittleEndian::read_i16`: the first two bytes make up the result in two's
/// complement, the less significant one first. It panics on fewer bytes.
#[verifier::external_body]
fn read_i16(bytes: &[u8]) -> (n: i16)
    requires
        bytes@.len() >= 2,
    ensures
        n == signed(bytes@),
{
    LittleEndian::read_i16(bytes)
}

/// Calls `LittleEndian::write_u16`: the first two bytes become those of `n`, the less
/// significant one first, and the others stay. It panics on fewer bytes.
#[verifier::external_body]
fn write_u16(bytes: &mut [u8], n: u16)
    requires
        old(bytes)@.len() >= 2,
    ensures
        final(bytes)@ == little_endian(n) + old(bytes)@.skip(2),
{
    LittleEndian::write_u16(bytes, n)
}

impl Payload {
    /// The bytes that stand for a payload.
    pub open spec fn spelling(self) -> Seq<u8> {
        match self {
            Payload::DpgOpen => seq![0x7fu8, 0x86, 0x00],
            Payload::DpgSetup => seq![
                0x7fu8, 0x86, 0x80, 0x01, 0x02, 0x03, 0x04, 0x05, 0x06, 0x07, 0x08, 0x09, 0x0a,
                0x0b, 0x0c, 0x0d, 0x0e, 0x0f, 0x10, 0x11,
            ],
            Payload::WakeUp => seq![0xfeu8, 0x00],
            Payload::Stop => seq![0xffu8, 0x00],
            Payload::ReferenceInputStop => seq![0x01u8, 0x80],
            Payload::MoveTo(raw) => little_endian(raw),
        }
    }

    /// The bytes to write.
    pub fn bytes(&self) -> (r: Vec<u8>)
        ensures
            r@ == self.spelling(),
    {
        match *self {
            Payload::DpgOpen => vec![0x7f, 0x86, 0x00],
            Payload::DpgSetup => vec![
                0x7f, 0x86, 0x80, 0x01, 0x02, 0x03, 0x04, 0x05, 0x06, 0x07, 0x08, 0x09, 0x0a, 0x0b,
                0x0c, 0x0d, 0x0e, 0x0f, 0x10, 0x11,
            ],
            Payload::WakeUp => vec![0xfe, 0x00],
            Payload::Stop => vec![0xff, 0x00],
            Payload::ReferenceInputStop => vec![0x01, 0x80],
            Payload::MoveTo(raw) => {
                let mut bytes: Vec<u8> = vec![0, 0];
                write_u16(bytes.as_mut_slice(), raw);
                bytes
            },
        }
    }
}

/// What a desk reports: its height above its lowest position, and its speed.
#[derive(Clone, Copy, Debug, PartialEq, Eq, Structural)]
pub struct Reading {
    pub height_raw: u16,
    pub speed_raw: i16,
}

impl Reading {
    /// The height above the floor in metres.
    pub fn height(&self) -> (h: Binary64)
        ensures
            h.bits == pattern(height_ticks(self.height_raw)),
            h == decoded_height(self.height_raw),
    {
        height_from_raw(self.height_raw)
    }

    /// The speed in metres per second.
    pub fn speed(&self) -> (v: Binary64)
        ensures
            v.bits == pattern(speed_ticks(self.speed_raw)) + if self.speed_raw < 0 {
                SIGN as nat
            } else {
                0
            },
            v == decoded_speed(self.speed_raw),
    {
        speed_from_raw(self.speed_raw)
    }
}

/// What the bytes of a report say, if there are as many as there have to be.
pub open spec fn reading_of(data: Seq<u8>) -> Option<Reading> {
    if data.len() == 4 {
        Some(
            Reading {
                height_raw: unsigned(data) as u16,
                speed_raw: signed(data.skip(2)) as i16,
            },
        )
    } else {
        None
    }
}

/// Decodes the bytes of a report.
pub fn decode_reading(data: &[u8]) -> (r: Result<Reading, DeskError>)
    ensures
        match r {
            Ok(reading) => reading_of(data@) == Some(reading),
            Err(e) => reading_of(data@) is None && e == DeskError::InvalidHeightData,
        },
{
    if data.len() != 4 {
        return Err(DeskError::InvalidHeightData);
    }
    assert(data@.subrange(2, 4) == data@.skip(2));
    Ok(
        Reading {
            height_raw: read_u16(slice_subrange(data, 0, 2)),
            speed_raw: read_i16(slice_subrange(data, 2, 4)),
        },
    )
}

/// Finds the first of a desk's characteristics that has the identifier `uuid`.
pub fn find_characteristic(characteristics: &[u128], uuid: u128) -> (r: Result<usize, DeskError>)
    ensures
        match r {
            Ok(at) => {
                &&& at < characteristics@.len()
                &&& characteristics@[at as int] == uuid
                &&& forall|i: int| 0 <= i < at ==> characteristics@[i] != uuid
            },
            Err(e) => {
                &&& e == DeskError::CharacteristicMissing(uuid)
                &&& !characteristics@.contains(uuid)
            },
        },
{
    let mut at: usize = 0;
    while at < characteristics.len()
        invariant
            at <= characteristics@.len(),
            forall|i: int| 0 <= i < at ==> characteristics@[i] != uuid,
        decreases characteristics@.len() - at,
    {
        if characteristics[at] == uuid {
            return Ok(at);
        }
        at = at + 1;
    }
    Err(DeskError::CharacteristicMissing(uuid))
}

/// A desk that is told to move to the height with the number `raw` can read that
/// number back from the bytes.
pub proof fn law_move_command_round_trips(raw: u16)
    ensures
        Payload::MoveTo(raw).spelling().len() == 2,
        unsigned(Payload::MoveTo(raw).spelling()) == raw,
{
}

/// Every pair of numbers can be reported.
pub proof fn law_every_reading_has_a_report(reading: Reading)
    ensures
        exists|data: Seq<u8>| #[trigger] reading_of(data) == Some(reading),
{
    let s: u16 = if reading.speed_raw < 0 {
        (reading.speed_raw + 0x1_0000) as u16
    } else {
        reading.speed_raw as u16
    };
    let data = little_endian(reading.height_raw) + little_endian(s);
    assert(data.skip(2) =~= little_endian(s));
    assert(reading_of(data) == Some(reading));
}

/// What a report says, byte by byte: there are four of them, the first two are the
/// height and the last two are the speed in two's complement, each with the less
/// significant byte first. Anything else says nothing.
pub proof fn law_report_is_read_byte_by_byte(data: Seq<u8>)
    ensures
        data.len() != 4 ==> reading_of(data) is None,
        data.len() == 4 ==> {
            &&& reading_of(data) matches Some(reading)
            &&& reading.height_raw == data[0] + 256 * data[1]
            &&& reading.speed_raw == data[2] + 256 * data[3] - if data[3] >= 0x80 {
                0x1_0000int
            } else {
                0int
            }
        },
{
    if data.len() == 4 {
        assert(data.skip(2)[0] == data[2]);
        assert(data.skip(2)[1] == data[3]);
    }
}

/// A height goes out in two bytes, the less significant one first.
pub proof fn law_height_is_sent_byte_by_byte(raw: u16)
    ensures
        ({
            let bytes = Payload::MoveTo(raw).spelling();
            &&& bytes.len() == 2
            &&& bytes[0] + 256 * bytes[1] == raw
        }),
{
}

/// What goes out besides heights, and where desks are asked and told.
pub proof fn law_desks_are_spoken_to_in_their_words()
    ensures
        Payload::DpgOpen.spelling() == seq![0x7fu8, 0x86, 0x00],
        Payload::DpgSetup.spelling() == seq![0x7fu8, 0x86, 0x80] + Seq::new(
            17,
            |i: int| (i + 1) as u8,
        ),
        Payload::WakeUp.spelling() == seq![0xfeu8, 0x00],
        Payload::Stop.spelling() == seq![0xffu8, 0x00],
        Payload::ReferenceInputStop.spelling() == seq![0x01u8, 0x80],
        UUID_ADV_SVC == 0x99fa0001_338a_1024_8a49_009c0215f78a,
        UUID_COMMAND == 0x99fa0002_338a_1024_8a49_009c0215f78a,
        UUID_DPG == 0x99fa0011_338a_1024_8a49_009c0215f78a,
        UUID_HEIGHT == 0x99fa0021_338a_1024_8a49_009c0215f78a,
        UUID_REFERENCE_INPUT == 0x99fa0031_338a_1024_8a49_009c0215f78a,
{
    assert(Payload::DpgSetup.spelling() =~= seq![0x7fu8, 0x86, 0x80] + Seq::new(
        17,
        |i: int| (i + 1) as u8,
    ));
}

} // verus!
