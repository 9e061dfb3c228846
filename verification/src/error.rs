//! What can go wrong, and how it is put into words.
use uuid::Uuid;
use vstd::arithmetic::div_mod::lemma_mod_breakdown;
use vstd::prelude::*;
use vstd::string::*;

verus! {

/// A reason to give up on a request.
#[derive(Clone, Copy, Debug, PartialEq, Eq, Structural)]
pub enum DeskError {
    /// The machine has no Bluetooth adapter.
    NoAdapter,
    /// The adapter refused to scan; it said why.
    ScanNotStarted,
    /// The desk did not show up in time.
    DiscoveryTimeout,
    /// The adapter stopped reporting devices before the desk showed up.
    DeskNotFound,
    /// The desk refused the connection; it said why.
    ConnectionFailed,
    /// The desk has no characteristic with this identifier.
    CharacteristicMissing(u128),
    /// The desk answered a height request with the wrong number of bytes.
    InvalidHeightData,
    /// The desk cannot reach the height asked for.
    TargetOutOfRange,
    /// Nobody said which desk to use.
    DeviceIdMissing,
    /// Nobody said which desk to pair with.
    DeviceIdMissingForPairing,
    /// The radio or the disk failed; what it said is all there is to say.
    Outside,
}

/// The lower-case hexadecimal digit of a number below sixteen.
pub open spec fn hex_digit(n: nat) -> char {
    if n < 10 {
        ('0' as nat + n) as char
    } else {
        ('a' as nat + (n - 10)) as char
    }
}

/// The last `count` hexadecimal digits of `n`.
pub open spec fn hex(n: nat, count: nat) -> Seq<char>
    decreases count,
{
    if count == 0 {
        Seq::empty()
    } else {
        hex(n / 16, (count - 1) as nat).push(hex_digit(n % 16))
    }
}

/// An identifier in groups of 8, 4, 4, 4 and 12 hexadecimal digits.
pub open spec fn uuid_spelling(uuid: u128) -> Seq<char> {
    let n = uuid as nat;
    hex(n / 0x1_0000_0000_0000_0000_0000_0000, 8) + seq!['-'] + hex(
        n / 0x1_0000_0000_0000_0000_0000,
        4,
    ) + seq!['-'] + hex(n / 0x1_0000_0000_0000_0000, 4) + seq!['-'] + hex(
        n / 0x1_0000_0000_0000,
        4,
    ) + seq!['-'] + hex(n, 12)
}

/// Calls `Uuid`'s `to_string` on the identifier that `Uuid::from_u128` makes of
/// `uuid`: lower-case hexadecimal digits, most significant first, with hyphens after
/// the 8th, 12th, 16th and 20th.
#[verifier::external_body]
fn uuid_text(uuid: u128) -> (r: String)
    ensures
        r@ == uuid_spelling(uuid),
{
    Uuid::from_u128(uuid).to_string()
}

impl DeskError {
    /// The words for an error, where the device asked for is `device_id`. An error
    /// from outside has none of its own.
    pub open spec fn words(self, device_id: Seq<char>) -> Option<Seq<char>> {
        match self {
            DeskError::NoAdapter => Some("No Bluetooth adapter found"@),
            DeskError::ScanNotStarted => Some("Failed to start scan"@),
            DeskError::DiscoveryTimeout => Some("Timeout waiting for device discovery"@),
            DeskError::DeskNotFound => Some(
                "Desk with ID "@ + device_id
                    + " not found. You may need to run 'init' again to rediscover the device."@,
            ),
            DeskError::ConnectionFailed => Some("Failed to connect to desk"@),
            DeskError::CharacteristicMissing(uuid) => Some(
                "Characteristic "@ + uuid_spelling(uuid) + " not found"@,
            ),
            DeskError::InvalidHeightData => Some("Invalid height data length"@),
            DeskError::TargetOutOfRange => Some(
                "Target height must be between 0.62 and 1.27 meters"@,
            ),
            DeskError::DeviceIdMissing => Some("Device ID not configured"@),
            DeskError::DeviceIdMissingForPairing => Some(
                "Device ID not configured. Run 'init' or provide --device-id"@,
            ),
            DeskError::Outside => None,
        }
    }

    /// Puts an error into words, where the device asked for is `device_id`.
    pub fn text(&self, device_id: &str) -> (r: Option<String>)
        ensures
            match r {
                Some(text) => self.words(device_id@) == Some(text@),
                None => self.words(device_id@) is None,
            },
    {
        match *self {
            DeskError::NoAdapter => Some("No Bluetooth adapter found".to_owned()),
            DeskError::ScanNotStarted => Some("Failed to start scan".to_owned()),
            DeskError::DiscoveryTimeout => Some("Timeout waiting for device discovery".to_owned()),
            DeskError::DeskNotFound => {
                let mut text: String = "Desk with ID ".to_owned();
                text.append(device_id);
                text.append(
                    " not found. You may need to run 'init' again to rediscover the device.",
                );
                Some(text)
            },
            DeskError::ConnectionFailed => Some("Failed to connect to desk".to_owned()),
            DeskError::CharacteristicMissing(uuid) => {
                let mut text: String = "Characteristic ".to_owned();
                text.append(uuid_text(uuid).as_str());
                text.append(" not found");
                Some(text)
            },
            DeskError::InvalidHeightData => Some("Invalid height data length".to_owned()),
            DeskError::TargetOutOfRange => Some(
                "Target height must be between 0.62 and 1.27 meters".to_owned(),
            ),
            DeskError::DeviceIdMissing => Some("Device ID not configured".to_owned()),
            DeskError::DeviceIdMissingForPairing => Some(
                "Device ID not configured. Run 'init' or provide --device-id".to_owned(),
            ),
            DeskError::Outside => None,
        }
    }

    /// Whether the error goes on top of one that came from outside.
    pub fn has_cause(&self) -> (r: bool)
        ensures
            r == (self is ScanNotStarted || self is DiscoveryTimeout || self is ConnectionFailed
                || self is Outside),
    {
        match *self {
            DeskError::ScanNotStarted => true,
            DeskError::DiscoveryTimeout => true,
            DeskError::ConnectionFailed => true,
            DeskError::Outside => true,
            _ => false,
        }
    }
}

/// What a lower-case hexadecimal digit stands for.
pub open spec fn digit_value(c: char) -> int {
    if '0' <= c <= '9' {
        c as int - '0' as int
    } else {
        c as int - 'a' as int + 10
    }
}

/// What a text of hexadecimal digits stands for, the most significant one first.
pub open spec fn hex_value(text: Seq<char>) -> int
    decreases text.len(),
{
    if text.len() == 0 {
        0
    } else {
        16 * hex_value(text.drop_last()) + digit_value(text.last())
    }
}

/// Sixteen to the power of `count`.
spec fn sixteens(count: nat) -> nat
    decreases count,
{
    if count == 0 {
        1
    } else {
        16 * sixteens((count - 1) as nat)
    }
}

/// Digits stand for the number that they were made of.
proof fn lemma_hex(n: nat, count: nat)
    ensures
        hex(n, count).len() == count,
        hex_value(hex(n, count)) == n % sixteens(count),
        sixteens(count) > 0,
    decreases count,
{
    if count > 0 {
        let less = (count - 1) as nat;
        lemma_hex(n / 16, less);
        let front = hex(n / 16, less);
        assert(hex(n, count).drop_last() =~= front);
        assert(digit_value(hex_digit(n % 16)) == n % 16);
        lemma_mod_breakdown(n as int, 16, sixteens(less) as int);
    }
}

/// An identifier can be read back from its spelling: the five groups of digits, which
/// hyphens part, are its 32, 16, 16, 16 and 48 bits.
pub proof fn law_uuid_can_be_read_back(uuid: u128)
    ensures
        ({
            let text = uuid_spelling(uuid);
            let n = uuid as int;
            &&& text.len() == 36
            &&& text[8] == '-' && text[13] == '-' && text[18] == '-' && text[23] == '-'
            &&& hex_value(text.subrange(0, 8)) == n / 0x1_0000_0000_0000_0000_0000_0000
            &&& hex_value(text.subrange(9, 13)) == (n / 0x1_0000_0000_0000_0000_0000) % 0x1_0000
            &&& hex_value(text.subrange(14, 18)) == (n / 0x1_0000_0000_0000_0000) % 0x1_0000
            &&& hex_value(text.subrange(19, 23)) == (n / 0x1_0000_0000_0000) % 0x1_0000
            &&& hex_value(text.subrange(24, 36)) == n % 0x1_0000_0000_0000
        }),
{
    let text = uuid_spelling(uuid);
    let n = uuid as nat;
    let a = n / 0x1_0000_0000_0000_0000_0000_0000;
    let b = n / 0x1_0000_0000_0000_0000_0000;
    let c = n / 0x1_0000_0000_0000_0000;
    let d = n / 0x1_0000_0000_0000;
    lemma_hex(a, 8);
    lemma_hex(b, 4);
    lemma_hex(c, 4);
    lemma_hex(d, 4);
    lemma_hex(n, 12);
    assert(sixteens(4) == 0x1_0000 && sixteens(8) == 0x1_0000_0000 && sixteens(12)
        == 0x1_0000_0000_0000) by {
        reveal_with_fuel(sixteens, 13);
    }
    assert(a % 0x1_0000_0000 == a);
    assert(text.subrange(0, 8) =~= hex(a, 8));
    assert(text.subrange(9, 13) =~= hex(b, 4));
    assert(text.subrange(14, 18) =~= hex(c, 4));
    assert(text.subrange(19, 23) =~= hex(d, 4));
    assert(text.subrange(24, 36) =~= hex(n, 12));
}

/// What every error says, whichever desk and whichever characteristic it is about: a
/// desk that was not found and a characteristic that is missing are named, and no other
/// error depends on either.
pub proof fn law_errors_name_what_they_are_about(device_id: Seq<char>, uuid: u128)
    ensures
        DeskError::DeskNotFound.words(device_id) == Some(
            "Desk with ID "@ + device_id
                + " not found. You may need to run 'init' again to rediscover the device."@,
        ),
        DeskError::CharacteristicMissing(uuid).words(device_id) == Some(
            "Characteristic "@ + uuid_spelling(uuid) + " not found"@,
        ),
        DeskError::NoAdapter.words(device_id) == Some("No Bluetooth adapter found"@),
        DeskError::ScanNotStarted.words(device_id) == Some("Failed to start scan"@),
        DeskError::DiscoveryTimeout.words(device_id) == Some(
            "Timeout waiting for device discovery"@,
        ),
        DeskError::ConnectionFailed.words(device_id) == Some("Failed to connect to desk"@),
        DeskError::InvalidHeightData.words(device_id) == Some("Invalid height data length"@),
        DeskError::TargetOutOfRange.words(device_id) == Some(
            "Target height must be between 0.62 and 1.27 meters"@,
        ),
        DeskError::DeviceIdMissing.words(device_id) == Some("Device ID not configured"@),
        DeskError::DeviceIdMissingForPairing.words(device_id) == Some(
            "Device ID not configured. Run 'init' or provide --device-id"@,
        ),
        DeskError::Outside.words(device_id) is None,
{
}

} // verus!
