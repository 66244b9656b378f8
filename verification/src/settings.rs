//! Display policy and its compact persistent representation.

use vstd::prelude::*;

verus! {

pub const MINIMUM_BRIGHTNESS_PERCENT: u8 = 5;

pub const MAXIMUM_BRIGHTNESS_PERCENT: u8 = 100;

pub const BRIGHTNESS_STEP_PERCENT: u8 = 5;

/// The idle timeouts the user can choose from, in seconds.
pub const IDLE_TIMEOUT_OPTIONS_SECONDS: [u16; 6] = [30, 60, 120, 300, 600, 1800];

/// Which option an unknown timeout is taken for.
const FALLBACK_TIMEOUT_INDEX: usize = 2;

const SETTINGS_MAGIC: [u8; 4] = [0x43, 0x4c, 0x44, 0x53];

const SETTINGS_FORMAT_VERSION: u8 = 1;

const SETTINGS_FLAG_AUTO_DIM: u8 = 1;

const SETTINGS_FLAG_DIM_ON_USB: u8 = 2;

/// Where the checksum stands in a record; it covers the bytes before it.
pub const SETTINGS_CRC_OFFSET: usize = 16;

/// Bytes of settings kept on their own, without a record's padding.
pub const SETTINGS_VALUE_SIZE: usize = 20;

/// Bytes in a record.
pub const SETTINGS_RECORD_SIZE: usize = 32;

/// What the display does while it is used and while it is idle.
#[derive(Debug, Clone, Copy, PartialEq, Eq, Structural)]
pub struct DisplaySettings {
    pub brightness_percent: u8,
    pub auto_dim: bool,
    pub dim_on_usb: bool,
    pub idle_timeout_seconds: u16,
    pub dim_brightness_percent: u8,
}

/// A percentage one step away in a direction, inside the supported range.
pub open spec fn stepped(percent: int, direction: int) -> int {
    if direction < 0 {
        if percent - BRIGHTNESS_STEP_PERCENT < MINIMUM_BRIGHTNESS_PERCENT {
            MINIMUM_BRIGHTNESS_PERCENT as int
        } else {
            percent - BRIGHTNESS_STEP_PERCENT
        }
    } else if direction > 0 {
        if percent + BRIGHTNESS_STEP_PERCENT > MAXIMUM_BRIGHTNESS_PERCENT {
            MAXIMUM_BRIGHTNESS_PERCENT as int
        } else {
            percent + BRIGHTNESS_STEP_PERCENT
        }
    } else {
        percent
    }
}

/// Which option a timeout is; an unknown one is taken for two minutes.
pub open spec fn timeout_index(seconds: u16) -> int {
    if IDLE_TIMEOUT_OPTIONS_SECONDS@.contains(seconds) {
        IDLE_TIMEOUT_OPTIONS_SECONDS@.index_of(seconds)
    } else {
        2
    }
}

/// The timeout option one step away in a direction, stopping at either end.
pub open spec fn stepped_timeout(seconds: u16, direction: int) -> u16 {
    let index = timeout_index(seconds);
    let next = if direction < 0 {
        if index > 0 { index - 1 } else { 0 }
    } else if direction > 0 {
        if index < 5 { index + 1 } else { 5 }
    } else {
        index
    };
    IDLE_TIMEOUT_OPTIONS_SECONDS@[next]
}

/// No timeout is offered twice.
proof fn lemma_timeouts_distinct(index: int)
    requires
        0 <= index < 6,
    ensures
        timeout_index(IDLE_TIMEOUT_OPTIONS_SECONDS@[index]) == index,
{
    let options = IDLE_TIMEOUT_OPTIONS_SECONDS@;
    assert(options[0] == 30 && options[1] == 60 && options[2] == 120 && options[3] == 300
        && options[4] == 600 && options[5] == 1800);
    assert(options.contains(options[index]));
    let found = options.index_of(options[index]);
    assert(options[found] == options[index]);
}

impl Default for DisplaySettings {
    /// A desk instrument should remain glanceable while it has USB power;
    /// battery operation dims after two minutes.
    fn default() -> (settings: Self)
        ensures
            settings == (DisplaySettings {
                brightness_percent: 80,
                auto_dim: true,
                dim_on_usb: false,
                idle_timeout_seconds: 120,
                dim_brightness_percent: 12,
            }),
            settings.is_valid(),
    {
        let settings = DisplaySettings {
            brightness_percent: 80,
            auto_dim: true,
            dim_on_usb: false,
            idle_timeout_seconds: 120,
            dim_brightness_percent: 12,
        };
        assert(IDLE_TIMEOUT_OPTIONS_SECONDS@[2] == 120);
        settings
    }
}

impl DisplaySettings {
    /// Within the supported ranges, the dimmed brightness no brighter than the
    /// normal one.
    pub open spec fn is_valid(self) -> bool {
        &&& MINIMUM_BRIGHTNESS_PERCENT <= self.brightness_percent <= MAXIMUM_BRIGHTNESS_PERCENT
        &&& MINIMUM_BRIGHTNESS_PERCENT <= self.dim_brightness_percent <= self.brightness_percent
        &&& IDLE_TIMEOUT_OPTIONS_SECONDS@.contains(self.idle_timeout_seconds)
    }

    /// Whether the settings are within the supported ranges.
    pub fn valid(self) -> (valid: bool)
        ensures
            valid == self.is_valid(),
    {
        let mut known = false;
        let mut index: usize = 0;
        while index < IDLE_TIMEOUT_OPTIONS_SECONDS.len()
            invariant
                index <= 6,
                known == exists|i: int|
                    0 <= i < index && #[trigger] IDLE_TIMEOUT_OPTIONS_SECONDS@[i]
                        == self.idle_timeout_seconds,
            decreases 6 - index,
        {
            if IDLE_TIMEOUT_OPTIONS_SECONDS[index] == self.idle_timeout_seconds {
                known = true;
            }
            index = index + 1;
        }
        MINIMUM_BRIGHTNESS_PERCENT <= self.brightness_percent && self.brightness_percent
            <= MAXIMUM_BRIGHTNESS_PERCENT && MINIMUM_BRIGHTNESS_PERCENT
            <= self.dim_brightness_percent && self.dim_brightness_percent
            <= self.brightness_percent && known
    }

    /// The settings after a step of the brightness.
    pub open spec fn brightened(self, direction: int) -> DisplaySettings {
        let brightness = stepped(self.brightness_percent as int, direction);
        let dim = self.dim_brightness_percent as int;
        let lowered = if dim < brightness { dim } else { brightness };
        DisplaySettings {
            brightness_percent: brightness as u8,
            dim_brightness_percent: (if lowered < MINIMUM_BRIGHTNESS_PERCENT {
                MINIMUM_BRIGHTNESS_PERCENT as int
            } else {
                lowered
            }) as u8,
            ..self
        }
    }

    /// The settings after a step of the dimmed brightness.
    pub open spec fn dimmed(self, direction: int) -> DisplaySettings {
        let dim = stepped(self.dim_brightness_percent as int, direction);
        DisplaySettings {
            dim_brightness_percent: (if dim < self.brightness_percent {
                dim
            } else {
                self.brightness_percent as int
            }) as u8,
            ..self
        }
    }

    /// The settings after a step of the idle timeout.
    pub open spec fn delayed(self, direction: int) -> DisplaySettings {
        DisplaySettings {
            idle_timeout_seconds: stepped_timeout(self.idle_timeout_seconds, direction),
            ..self
        }
    }

    /// The idle display dims.
    pub open spec fn dims(self, usb_connected: bool) -> bool {
        self.auto_dim && (usb_connected ==> self.dim_on_usb)
    }

    /// Make the display one step dimmer or brighter; the dimmed brightness
    /// never stays above the normal one.
    pub fn brightness_step(&mut self, direction: i8)
        ensures
            ({
                let brightness = stepped(old(self).brightness_percent as int, direction as int);
                let dim = old(self).dim_brightness_percent as int;
                let lowered = if dim < brightness { dim } else { brightness };
                &&& final(self).brightness_percent == brightness
                &&& final(self).dim_brightness_percent == if lowered < MINIMUM_BRIGHTNESS_PERCENT {
                    MINIMUM_BRIGHTNESS_PERCENT as int
                } else {
                    lowered
                }
                &&& final(self).auto_dim == old(self).auto_dim
                &&& final(self).dim_on_usb == old(self).dim_on_usb
                &&& final(self).idle_timeout_seconds == old(self).idle_timeout_seconds
            }),
            *final(self) == old(self).brightened(direction as int),
            old(self).is_valid() ==> final(self).is_valid(),
    {
        let brightness = stepped_percent(self.brightness_percent, direction);
        let mut dim = self.dim_brightness_percent;
        if dim > brightness {
            dim = brightness;
        }
        if dim < MINIMUM_BRIGHTNESS_PERCENT {
            dim = MINIMUM_BRIGHTNESS_PERCENT;
        }
        self.brightness_percent = brightness;
        self.dim_brightness_percent = dim;
    }

    /// Make the dimmed display one step dimmer or brighter, up to the normal
    /// brightness.
    pub fn dim_brightness_step(&mut self, direction: i8)
        ensures
            ({
                let dim = stepped(old(self).dim_brightness_percent as int, direction as int);
                *final(self) == DisplaySettings {
                    dim_brightness_percent: (if dim < old(self).brightness_percent {
                        dim
                    } else {
                        old(self).brightness_percent as int
                    }) as u8,
                    ..*old(self)
                }
            }),
            *final(self) == old(self).dimmed(direction as int),
            old(self).is_valid() ==> final(self).is_valid(),
    {
        let dim = stepped_percent(self.dim_brightness_percent, direction);
        self.dim_brightness_percent = if dim < self.brightness_percent {
            dim
        } else {
            self.brightness_percent
        };
    }

    /// Choose the next shorter or longer idle timeout.
    pub fn idle_timeout_step(&mut self, direction: i8)
        ensures
            *final(self) == (DisplaySettings {
                idle_timeout_seconds: stepped_timeout(
                    old(self).idle_timeout_seconds,
                    direction as int,
                ),
                ..*old(self)
            }),
            *final(self) == old(self).delayed(direction as int),
            old(self).is_valid() ==> final(self).is_valid(),
    {
        let mut index: usize = FALLBACK_TIMEOUT_INDEX;
        let mut candidate: usize = 0;
        let mut found = false;
        while candidate < IDLE_TIMEOUT_OPTIONS_SECONDS.len() && !found
            invariant
                candidate <= 6,
                index < 6,
                found ==> IDLE_TIMEOUT_OPTIONS_SECONDS@[index as int] == self.idle_timeout_seconds,
                !found ==> index == 2,
                !found ==> forall|i: int|
                    0 <= i < candidate ==> #[trigger] IDLE_TIMEOUT_OPTIONS_SECONDS@[i]
                        != self.idle_timeout_seconds,
            decreases 6 - candidate,
        {
            if IDLE_TIMEOUT_OPTIONS_SECONDS[candidate] == self.idle_timeout_seconds {
                index = candidate;
                found = true;
            }
            candidate = candidate + 1;
        }
        proof {
            if found {
                lemma_timeouts_distinct(index as int);
            }
        }
        assert(index == timeout_index(self.idle_timeout_seconds));
        let next = if direction < 0 {
            index.saturating_sub(1)
        } else if direction > 0 && index < IDLE_TIMEOUT_OPTIONS_SECONDS.len() - 1 {
            index + 1
        } else {
            index
        };
        self.idle_timeout_seconds = IDLE_TIMEOUT_OPTIONS_SECONDS[next];
    }

    /// Whether the idle display dims, given where its power comes from.
    pub fn should_dim(self, usb_connected: bool) -> (dim: bool)
        ensures
            dim == (self.auto_dim && (usb_connected ==> self.dim_on_usb)),
            dim == self.dims(usb_connected),
    {
        self.auto_dim && (!usb_connected || self.dim_on_usb)
    }
}

fn stepped_percent(percent: u8, direction: i8) -> (result: u8)
    ensures
        result == stepped(percent as int, direction as int),
{
    if direction < 0 {
        let lowered = percent.saturating_sub(BRIGHTNESS_STEP_PERCENT);
        if lowered < MINIMUM_BRIGHTNESS_PERCENT {
            MINIMUM_BRIGHTNESS_PERCENT
        } else {
            lowered
        }
    } else if direction > 0 {
        let raised = percent.saturating_add(BRIGHTNESS_STEP_PERCENT);
        if raised > MAXIMUM_BRIGHTNESS_PERCENT {
            MAXIMUM_BRIGHTNESS_PERCENT
        } else {
            raised
        }
    } else {
        percent
    }
}

/// Settings as they are stored, with a running number.
#[derive(Debug, Clone, Copy, PartialEq, Eq, Structural)]
pub struct SettingsRecord {
    pub settings: DisplaySettings,
    pub sequence: u32,
}

/// One bit of a CRC-32 division: the reflected polynomial is taken off when
/// the bit that leaves is set.
pub open spec fn crc_bit(crc: u32) -> u32 {
    if crc & 1 == 1 {
        (crc >> 1) ^ 0xedb8_8320
    } else {
        crc >> 1
    }
}

/// The remainder after `bits` more bits.
pub open spec fn crc_bits(crc: u32, bits: nat) -> u32
    decreases bits,
{
    if bits == 0 {
        crc
    } else {
        crc_bit(crc_bits(crc, (bits - 1) as nat))
    }
}

/// The running remainder after some bytes.
pub open spec fn crc_running(bytes: Seq<u8>) -> u32
    decreases bytes.len(),
{
    if bytes.len() == 0 {
        u32::MAX
    } else {
        crc_bits(crc_running(bytes.drop_last()) ^ (bytes.last() as u32), 8)
    }
}

/// The CRC-32 checksum (reflected polynomial `edb88320`, initial value and
/// final complement all ones).
pub open spec fn checksum(bytes: Seq<u8>) -> u32 {
    !crc_running(bytes)
}

/// The CRC-32 checksum of `bytes`.
pub fn crc32(bytes: &[u8]) -> (crc: u32)
    ensures
        crc == checksum(bytes@),
{
    let mut crc: u32 = u32::MAX;
    let mut index: usize = 0;
    while index < bytes.len()
        invariant
            index <= bytes.len(),
            crc == crc_running(bytes@.take(index as int)),
        decreases bytes.len() - index,
    {
        let ghost before = crc;
        crc = crc ^ bytes[index] as u32;
        let ghost start = crc;
        let mut bit: u32 = 0;
        while bit < 8
            invariant
                bit <= 8,
                crc == crc_bits(start, bit as nat),
            decreases 8 - bit,
        {
            let polynomial = 0xedb8_8320 & (0u32.wrapping_sub(crc & 1));
            proof {
                let low = crc & 1;
                assert(low == 0 || low == 1) by (bit_vector)
                    requires
                        low == crc & 1,
                ;
                assert(0xedb8_8320u32 & 0u32 == 0) by (bit_vector);
                assert(0xedb8_8320u32 & 0xffff_ffffu32 == 0xedb8_8320u32) by (bit_vector);
                let shifted = crc >> 1;
                assert(shifted ^ 0u32 == shifted) by (bit_vector);
            }
            crc = (crc >> 1) ^ polynomial;
            bit = bit + 1;
        }
        proof {
            let taken = bytes@.take(index + 1);
            assert(taken.drop_last() =~= bytes@.take(index as int));
        }
        index = index + 1;
    }
    assert(bytes@.take(index as int) =~= bytes@);
    !crc
}

/// A 16-bit number, least significant byte first.
pub open spec fn le16(value: u16) -> Seq<u8> {
    seq![(value % 256) as u8, (value / 256) as u8]
}

/// A 32-bit number, least significant byte first.
pub open spec fn le32(value: u32) -> Seq<u8> {
    seq![
        (value % 256) as u8,
        (value / 256 % 256) as u8,
        (value / 65536 % 256) as u8,
        (value / 16777216) as u8,
    ]
}

/// The 16-bit number that two bytes hold, least significant byte first.
pub open spec fn from_le16(bytes: Seq<u8>) -> u16 {
    (bytes[0] + 256 * bytes[1]) as u16
}

/// The 32-bit number that four bytes hold, least significant byte first.
pub open spec fn from_le32(bytes: Seq<u8>) -> u32 {
    (bytes[0] + 256 * bytes[1] + 65536 * bytes[2] + 16777216 * bytes[3]) as u32
}

/// The two switches in one byte.
pub open spec fn flags(settings: DisplaySettings) -> u8 {
    ((if settings.auto_dim { 1int } else { 0 }) + (if settings.dim_on_usb { 2int } else { 0 })) as u8
}

/// The part of a record that the checksum covers: magic, version, switches,
/// brightnesses, timeout, two reserved bytes and the running number.
pub open spec fn payload(record: SettingsRecord) -> Seq<u8> {
    seq![
        0x43u8,
        0x4c,
        0x44,
        0x53,
        1,
        flags(record.settings),
        record.settings.brightness_percent,
        record.settings.dim_brightness_percent,
    ] + le16(record.settings.idle_timeout_seconds) + seq![0xffu8, 0xff] + le32(record.sequence)
}

/// A whole record: the payload, its checksum, and padding.
pub open spec fn encoded(record: SettingsRecord) -> Seq<u8> {
    payload(record) + le32(checksum(payload(record))) + Seq::new(12, |i: int| 0xffu8)
}

/// The record that the bytes say they hold.
pub open spec fn claimed(bytes: Seq<u8>) -> SettingsRecord {
    SettingsRecord {
        settings: DisplaySettings {
            brightness_percent: bytes[6],
            auto_dim: bytes[5] % 2 == 1,
            dim_on_usb: bytes[5] / 2 % 2 == 1,
            idle_timeout_seconds: from_le16(bytes.subrange(8, 10)),
            dim_brightness_percent: bytes[7],
        },
        sequence: from_le32(bytes.subrange(12, 16)),
    }
}

/// The record in the bytes: nothing unless magic, version, switches, checksum
/// and every setting are right.
pub open spec fn decoded(bytes: Seq<u8>) -> Option<SettingsRecord> {
    if bytes.subrange(0, 5) == seq![0x43u8, 0x4c, 0x44, 0x53, 1] && bytes[5] <= 3 && from_le32(
        bytes.subrange(16, 20),
    ) == checksum(bytes.subrange(0, 16)) && claimed(bytes).settings.is_valid() {
        Some(claimed(bytes))
    } else {
        None
    }
}

/// The stored form of a record of supported settings.
pub fn encode_record(record: SettingsRecord) -> (bytes: [u8; SETTINGS_RECORD_SIZE])
    requires
        record.settings.is_valid(),
    ensures
        bytes@ == encoded(record),
{
    let settings = record.settings;
    let mut bytes: [u8; SETTINGS_RECORD_SIZE] = [0xff;SETTINGS_RECORD_SIZE];
    bytes[0] = SETTINGS_MAGIC[0];
    bytes[1] = SETTINGS_MAGIC[1];
    bytes[2] = SETTINGS_MAGIC[2];
    bytes[3] = SETTINGS_MAGIC[3];
    bytes[4] = SETTINGS_FORMAT_VERSION;
    let auto_dim: u8 = if settings.auto_dim { SETTINGS_FLAG_AUTO_DIM } else { 0 };
    let dim_on_usb: u8 = if settings.dim_on_usb { SETTINGS_FLAG_DIM_ON_USB } else { 0 };
    assert(auto_dim | dim_on_usb == auto_dim + dim_on_usb) by (bit_vector)
        requires
            auto_dim == 0 || auto_dim == 1,
            dim_on_usb == 0 || dim_on_usb == 2,
    ;
    bytes[5] = auto_dim | dim_on_usb;
    bytes[6] = settings.brightness_percent;
    bytes[7] = settings.dim_brightness_percent;
    bytes[8] = (settings.idle_timeout_seconds % 256) as u8;
    bytes[9] = (settings.idle_timeout_seconds / 256) as u8;
    bytes[12] = (record.sequence % 256) as u8;
    bytes[13] = (record.sequence / 256 % 256) as u8;
    bytes[14] = (record.sequence / 65536 % 256) as u8;
    bytes[15] = (record.sequence / 16777216) as u8;
    assert(bytes@.subrange(0, 16) =~= payload(record));
    let crc = crc32(&bytes[0..SETTINGS_CRC_OFFSET]);
    bytes[16] = (crc % 256) as u8;
    bytes[17] = (crc / 256 % 256) as u8;
    bytes[18] = (crc / 65536 % 256) as u8;
    bytes[19] = (crc / 16777216) as u8;
    assert(bytes@ =~= encoded(record));
    bytes
}

/// The record that stored bytes hold, if they are intact and supported.
pub fn decode_record(bytes: &[u8; SETTINGS_RECORD_SIZE]) -> (record: Option<SettingsRecord>)
    ensures
        record == decoded(bytes@),
{
    let ghost head = bytes@.subrange(0, 5);
    let ghost expected = seq![0x43u8, 0x4c, 0x44, 0x53, 1];
    if bytes[0] != SETTINGS_MAGIC[0] || bytes[1] != SETTINGS_MAGIC[1] || bytes[2]
        != SETTINGS_MAGIC[2] || bytes[3] != SETTINGS_MAGIC[3] || bytes[4]
        != SETTINGS_FORMAT_VERSION {
        proof {
            if head == expected {
                assert(head[0] == bytes@[0] && head[1] == bytes@[1] && head[2] == bytes@[2]
                    && head[3] == bytes@[3] && head[4] == bytes@[4]);
            }
        }
        return None;
    }
    assert(head =~= expected);
    let switches = bytes[5];
    if switches > SETTINGS_FLAG_AUTO_DIM | SETTINGS_FLAG_DIM_ON_USB {
        assert(1u8 | 2u8 == 3u8) by (bit_vector);
        return None;
    }
    assert(1u8 | 2u8 == 3u8) by (bit_vector);
    let expected_crc = le32_at(bytes, SETTINGS_CRC_OFFSET);
    if crc32(&bytes[0..SETTINGS_CRC_OFFSET]) != expected_crc {
        return None;
    }
    assert((switches & 1 != 0) == (switches % 2 == 1)) by (bit_vector);
    assert((switches & 2 != 0) == (switches / 2 % 2 == 1)) by (bit_vector);
    let settings = DisplaySettings {
        brightness_percent: bytes[6],
        auto_dim: switches & SETTINGS_FLAG_AUTO_DIM != 0,
        dim_on_usb: switches & SETTINGS_FLAG_DIM_ON_USB != 0,
        idle_timeout_seconds: bytes[8] as u16 + 256 * bytes[9] as u16,
        dim_brightness_percent: bytes[7],
    };
    if settings.valid() {
        Some(SettingsRecord { settings, sequence: le32_at(bytes, 12) })
    } else {
        None
    }
}

/// Settings kept on their own: a record with the running number zero, without
/// its padding.
pub open spec fn encoded_settings(settings: DisplaySettings) -> Seq<u8> {
    let record = SettingsRecord { settings, sequence: 0 };
    payload(record) + le32(checksum(payload(record)))
}

/// The settings in bytes kept on their own, if they are intact and supported.
pub open spec fn decoded_settings(bytes: Seq<u8>) -> Option<DisplaySettings> {
    match decoded(bytes) {
        Some(record) => Some(record.settings),
        None => None,
    }
}

/// Padding says nothing: a record is what its first bytes say.
proof fn lemma_padding_says_nothing(value: Seq<u8>, record: Seq<u8>)
    requires
        value.len() == SETTINGS_VALUE_SIZE,
        record.len() == SETTINGS_RECORD_SIZE,
        record.take(SETTINGS_VALUE_SIZE as int) == value,
    ensures
        decoded(value) == decoded(record),
{
    assert forall|i: int| 0 <= i < value.len() implies #[trigger] record[i] == value[i] by {
        assert(record.take(SETTINGS_VALUE_SIZE as int)[i] == record[i]);
    }
    assert(record.subrange(0, 5) =~= value.subrange(0, 5));
    assert(record.subrange(0, 16) =~= value.subrange(0, 16));
    assert(record.subrange(16, 20) =~= value.subrange(16, 20));
    assert(record.subrange(8, 10) =~= value.subrange(8, 10));
    assert(record.subrange(12, 16) =~= value.subrange(12, 16));
}

/// Supported settings as they are kept on their own.
pub fn encode_settings(settings: DisplaySettings) -> (value: [u8; SETTINGS_VALUE_SIZE])
    requires
        settings.is_valid(),
    ensures
        value@ == encoded_settings(settings),
{
    let record = encode_record(SettingsRecord { settings, sequence: 0 });
    let mut value: [u8; SETTINGS_VALUE_SIZE] = [0xff;SETTINGS_VALUE_SIZE];
    let mut i: usize = 0;
    while i < SETTINGS_VALUE_SIZE
        invariant
            i <= SETTINGS_VALUE_SIZE,
            forall|k: int| 0 <= k < i ==> #[trigger] value@[k] == record@[k],
        decreases SETTINGS_VALUE_SIZE - i,
    {
        value[i] = record[i];
        i = i + 1;
    }
    assert(value@ =~= encoded_settings(settings));
    value
}

/// The settings in bytes kept on their own, if they are intact and supported.
pub fn decode_settings(value: &[u8; SETTINGS_VALUE_SIZE]) -> (settings: Option<DisplaySettings>)
    ensures
        settings == decoded_settings(value@),
{
    let mut record: [u8; SETTINGS_RECORD_SIZE] = [0xff;SETTINGS_RECORD_SIZE];
    let mut i: usize = 0;
    while i < SETTINGS_VALUE_SIZE
        invariant
            i <= SETTINGS_VALUE_SIZE,
            forall|k: int| 0 <= k < i ==> #[trigger] record@[k] == value@[k],
        decreases SETTINGS_VALUE_SIZE - i,
    {
        record[i] = value[i];
        i = i + 1;
    }
    proof {
        assert(record@.take(SETTINGS_VALUE_SIZE as int) =~= value@);
        lemma_padding_says_nothing(value@, record@);
    }
    match decode_record(&record) {
        Some(record) => Some(record.settings),
        None => None,
    }
}

fn le32_at(bytes: &[u8; SETTINGS_RECORD_SIZE], offset: usize) -> (value: u32)
    requires
        offset + 4 <= SETTINGS_RECORD_SIZE,
    ensures
        value == from_le32(bytes@.subrange(offset as int, offset + 4)),
{
    bytes[offset] as u32 + 256 * bytes[offset + 1] as u32 + 65536 * bytes[offset + 2] as u32
        + 16777216 * bytes[offset + 3] as u32
}

/// What is stored is what is read back.
pub proof fn law_record_round_trips(record: SettingsRecord)
    requires
        record.settings.is_valid(),
    ensures
        decoded(encoded(record)) == Some(record),
{
    let bytes = encoded(record);
    lemma_le(record.settings.idle_timeout_seconds, record.sequence);
    lemma_le(0, checksum(payload(record)));
    assert(bytes.subrange(0, 5) =~= seq![0x43u8, 0x4c, 0x44, 0x53, 1]);
    assert(bytes.subrange(0, 16) =~= payload(record));
    assert(bytes.subrange(16, 20) =~= le32(checksum(payload(record))));
    assert(bytes.subrange(8, 10) =~= le16(record.settings.idle_timeout_seconds));
    assert(bytes.subrange(12, 16) =~= le32(record.sequence));
}

/// Settings kept on their own are read back as they were.
pub proof fn law_settings_round_trip(settings: DisplaySettings)
    requires
        settings.is_valid(),
    ensures
        decoded_settings(encoded_settings(settings)) == Some(settings),
{
    let record = SettingsRecord { settings, sequence: 0 };
    law_record_round_trips(record);
    assert(encoded(record).take(SETTINGS_VALUE_SIZE as int) =~= encoded_settings(settings));
    lemma_padding_says_nothing(encoded_settings(settings), encoded(record));
}

proof fn lemma_le(short: u16, long: u32)
    ensures
        from_le16(le16(short)) == short,
        from_le32(le32(long)) == long,
{
}

/// Only supported settings are ever read back.
pub proof fn law_only_supported_settings_are_read(bytes: Seq<u8>)
    requires
        bytes.len() == SETTINGS_RECORD_SIZE || bytes.len() == SETTINGS_VALUE_SIZE,
    ensures
        decoded(bytes) matches Some(record) ==> record.settings.is_valid(),
{
}

/// Damage is detected: changing any one byte of the payload or of the checksum
/// makes a good record unreadable, and so it does settings kept on their own.
pub proof fn law_damage_is_detected(bytes: Seq<u8>, position: int, byte: u8)
    requires
        bytes.len() == SETTINGS_RECORD_SIZE || bytes.len() == SETTINGS_VALUE_SIZE,
        decoded(bytes) is Some,
        0 <= position < SETTINGS_CRC_OFFSET + 4,
        byte != bytes[position],
    ensures
        decoded(bytes.update(position, byte)) is None,
{
    let damaged = bytes.update(position, byte);
    if position < SETTINGS_CRC_OFFSET {
        lemma_checksum_differs(bytes.subrange(0, 16), position, byte);
        assert(damaged.subrange(0, 16) =~= bytes.subrange(0, 16).update(position, byte));
        assert(damaged.subrange(16, 20) =~= bytes.subrange(16, 20));
    } else {
        assert(damaged.subrange(0, 16) =~= bytes.subrange(0, 16));
        let old_sum = bytes.subrange(16, 20);
        let new_sum = damaged.subrange(16, 20);
        assert(new_sum[position - 16] != old_sum[position - 16]);
        assert(forall|i: int| 0 <= i < 4 && i != position - 16 ==> new_sum[i] == old_sum[i]);
        assert(new_sum[0] != old_sum[0] || new_sum[1] != old_sum[1] || new_sum[2] != old_sum[2]
            || new_sum[3] != old_sum[3]);
    }
}

/// Bytes that differ in one place have different running remainders.
proof fn lemma_checksum_differs(bytes: Seq<u8>, position: int, byte: u8)
    requires
        0 <= position < bytes.len(),
        byte != bytes[position],
    ensures
        crc_running(bytes) != crc_running(bytes.update(position, byte)),
        checksum(bytes) != checksum(bytes.update(position, byte)),
    decreases bytes.len(),
{
    let changed = bytes.update(position, byte);
    let before = crc_running(bytes.drop_last());
    let last = bytes.last() as u32;
    if position == bytes.len() - 1 {
        assert(changed.drop_last() =~= bytes.drop_last());
        let other = byte as u32;
        assert(before ^ last != before ^ other) by (bit_vector)
            requires
                last != other,
        ;
        lemma_bits_keep_apart(before ^ last, before ^ other, 8);
    } else {
        lemma_checksum_differs(bytes.drop_last(), position, byte);
        assert(changed.drop_last() =~= bytes.drop_last().update(position, byte));
        let after = crc_running(changed.drop_last());
        assert(before ^ last != after ^ last) by (bit_vector)
            requires
                before != after,
        ;
        lemma_bits_keep_apart(before ^ last, after ^ last, 8);
    }
    let a = crc_running(bytes);
    let b = crc_running(changed);
    assert(!a != !b) by (bit_vector)
        requires
            a != b,
    ;
}

/// Dividing further never merges two different remainders.
proof fn lemma_bits_keep_apart(a: u32, b: u32, bits: nat)
    requires
        a != b,
    ensures
        crc_bits(a, bits) != crc_bits(b, bits),
    decreases bits,
{
    if bits > 0 {
        lemma_bits_keep_apart(a, b, (bits - 1) as nat);
        let x = crc_bits(a, (bits - 1) as nat);
        let y = crc_bits(b, (bits - 1) as nat);
        assert((if x & 1 == 1 {
            (x >> 1) ^ 0xedb8_8320u32
        } else {
            x >> 1
        }) != (if y & 1 == 1 {
            (y >> 1) ^ 0xedb8_8320u32
        } else {
            y >> 1
        })) by (bit_vector)
            requires
                x != y,
        ;
    }
}

/// A step one way and back the other restores the timeout, unless the first
/// step was already stopped by the end of the list.
pub proof fn law_timeout_steps_undo(index: int)
    requires
        0 <= index < 5,
    ensures
        ({
            let shorter = IDLE_TIMEOUT_OPTIONS_SECONDS@[index];
            let longer = IDLE_TIMEOUT_OPTIONS_SECONDS@[index + 1];
            &&& stepped_timeout(shorter, 1) == longer
            &&& stepped_timeout(longer, -1) == shorter
        }),
{
    lemma_timeouts_distinct(index);
    lemma_timeouts_distinct(index + 1);
}

/// A step of the brightness moves it by five percent in its direction, as far
/// as 5 and 100 allow, and a step without a direction leaves everything alone.
/// The dimmed brightness follows only where it would be the brighter one.
pub proof fn law_brightness_moves_by_a_step(settings: DisplaySettings, direction: i8)
    requires
        settings.is_valid(),
    ensures
        ({
            let after = settings.brightened(direction as int);
            let brightness = settings.brightness_percent as int;
            let dim = settings.dim_brightness_percent;
            &&& direction < 0 && brightness >= 10 ==> after.brightness_percent == brightness - 5
            &&& direction < 0 && brightness < 10 ==> after.brightness_percent == 5
            &&& direction > 0 && brightness <= 95 ==> after.brightness_percent == brightness + 5
            &&& direction > 0 && brightness > 95 ==> after.brightness_percent == 100
            &&& direction == 0 ==> after == settings
            &&& dim <= after.brightness_percent ==> after.dim_brightness_percent == dim
            &&& dim > after.brightness_percent ==> after.dim_brightness_percent
                == after.brightness_percent
            &&& after.auto_dim == settings.auto_dim
            &&& after.dim_on_usb == settings.dim_on_usb
            &&& after.idle_timeout_seconds == settings.idle_timeout_seconds
            &&& after.is_valid()
        }),
{
}

/// A step of the brightness and a step back restore the settings, unless the
/// first ran into an end or drew the dimmed brightness along.
pub proof fn law_brightness_steps_undo(settings: DisplaySettings, direction: i8)
    requires
        settings.is_valid(),
        direction < 0 ==> settings.brightness_percent >= 10 && settings.dim_brightness_percent
            <= settings.brightness_percent - 5,
        direction > 0 ==> settings.brightness_percent <= 95,
    ensures
        settings.brightened(direction as int).brightened(-(direction as int)) == settings,
{
}

/// A step of the dimmed brightness moves it by five percent in its direction, as
/// far as 5 and the normal brightness allow, and nothing else; a step back
/// restores it where neither end was met.
pub proof fn law_dimming_moves_by_a_step(settings: DisplaySettings, direction: i8)
    requires
        settings.is_valid(),
    ensures
        ({
            let after = settings.dimmed(direction as int);
            let dim = settings.dim_brightness_percent as int;
            let brightness = settings.brightness_percent as int;
            &&& direction < 0 && dim >= 10 ==> after.dim_brightness_percent == dim - 5
            &&& direction < 0 && dim < 10 ==> after.dim_brightness_percent == 5
            &&& direction > 0 && dim + 5 <= brightness ==> after.dim_brightness_percent == dim + 5
            &&& direction > 0 && dim + 5 > brightness ==> after.dim_brightness_percent == brightness
            &&& direction == 0 ==> after == settings
            &&& after.brightness_percent == settings.brightness_percent
            &&& after.auto_dim == settings.auto_dim
            &&& after.dim_on_usb == settings.dim_on_usb
            &&& after.idle_timeout_seconds == settings.idle_timeout_seconds
            &&& after.is_valid()
            &&& direction < 0 && dim >= 10 ==> after.dimmed(1) == settings
            &&& direction > 0 && dim + 5 <= brightness ==> after.dimmed(-1) == settings
        }),
{
}

/// The offered timeouts are half a minute, one, two, five, ten and thirty
/// minutes.
pub open spec fn is_offered(seconds: int) -> bool {
    seconds == 30 || seconds == 60 || seconds == 120 || seconds == 300 || seconds == 600 || seconds
        == 1800
}

/// A step of the timeout goes to the next offered one in its direction, with
/// none between, and stays at the shortest and the longest; nothing else
/// changes.
pub proof fn law_timeouts_move_by_a_step(
    settings: DisplaySettings,
    direction: i8,
    other: int,
)
    requires
        settings.is_valid(),
        is_offered(other),
    ensures
        ({
            let after = settings.delayed(direction as int);
            let before = settings.idle_timeout_seconds as int;
            let seconds = after.idle_timeout_seconds as int;
            &&& is_offered(before) && is_offered(seconds)
            &&& direction > 0 ==> (before < seconds || before == seconds == 1800) && !(before < other
                < seconds)
            &&& direction < 0 ==> (seconds < before || before == seconds == 30) && !(seconds < other
                < before)
            &&& direction == 0 ==> seconds == before
            &&& after == (DisplaySettings {
                idle_timeout_seconds: after.idle_timeout_seconds,
                ..settings
            })
        }),
{
    let options = IDLE_TIMEOUT_OPTIONS_SECONDS@;
    assert(options[0] == 30 && options[1] == 60 && options[2] == 120 && options[3] == 300
        && options[4] == 600 && options[5] == 1800);
    let index = options.index_of(settings.idle_timeout_seconds);
    assert(options[index] == settings.idle_timeout_seconds);
}

/// Supported settings are those with both brightnesses from 5 to 100 percent,
/// the dimmed one not the brighter, and an offered timeout.
pub proof fn law_supported_settings(settings: DisplaySettings)
    ensures
        settings.is_valid() <==> (5 <= settings.dim_brightness_percent
            <= settings.brightness_percent <= 100 && is_offered(
            settings.idle_timeout_seconds as int,
        )),
{
    let options = IDLE_TIMEOUT_OPTIONS_SECONDS@;
    assert(options[0] == 30 && options[1] == 60 && options[2] == 120 && options[3] == 300
        && options[4] == 600 && options[5] == 1800);
    if is_offered(settings.idle_timeout_seconds as int) {
        assert(options.contains(settings.idle_timeout_seconds));
    } else if options.contains(settings.idle_timeout_seconds) {
        let index = options.index_of(settings.idle_timeout_seconds);
        assert(options[index] == settings.idle_timeout_seconds);
    }
}

/// The display dims only where the user wants it to, on battery whenever they
/// do, and on USB only where they want that as well.
pub proof fn law_dimming_follows_the_user(settings: DisplaySettings, usb_connected: bool)
    ensures
        !settings.auto_dim ==> !settings.dims(usb_connected),
        settings.auto_dim ==> settings.dims(false),
        settings.auto_dim ==> settings.dims(true) == settings.dim_on_usb,
{
}

/// A record lies in its bytes as it always did: the letters CLDS and the
/// version, the switches, the two brightnesses, the timeout and the running
/// number with their low bytes first, then the checksum, then padding.
pub proof fn law_records_keep_their_layout(record: SettingsRecord)
    ensures
        ({
            let bytes = encoded(record);
            let settings = record.settings;
            &&& bytes.len() == 32
            &&& bytes[0] == 67 && bytes[1] == 76 && bytes[2] == 68 && bytes[3] == 83
            &&& bytes[4] == 1
            &&& bytes[5] == (if settings.auto_dim { 1int } else { 0 }) + (if settings.dim_on_usb {
                2int
            } else {
                0
            })
            &&& bytes[6] == settings.brightness_percent
            &&& bytes[7] == settings.dim_brightness_percent
            &&& bytes[8] + 256 * bytes[9] == settings.idle_timeout_seconds
            &&& bytes[12] + 256 * bytes[13] + 65536 * bytes[14] + 16777216 * bytes[15]
                == record.sequence
            &&& bytes[16] + 256 * bytes[17] + 65536 * bytes[18] + 16777216 * bytes[19] == checksum(
                bytes.take(16),
            )
            &&& forall|i: int| 10 <= i < 12 || 20 <= i < 32 ==> #[trigger] bytes[i] == 0xff
        }),
{
    let bytes = encoded(record);
    assert(bytes.take(16) =~= payload(record));
}

/// Settings kept on their own lie in twenty bytes as the first record of them
/// begins.
pub proof fn law_settings_keep_their_layout(settings: DisplaySettings)
    ensures
        encoded_settings(settings).len() == 20,
        encoded_settings(settings) == encoded(SettingsRecord { settings, sequence: 0 }).take(20),
{
    let record = SettingsRecord { settings, sequence: 0 };
    assert(encoded_settings(settings) =~= encoded(record).take(20));
}

/// Bytes hold a record exactly where everything about them is right: the letters
/// CLDS and the version, no switch beyond the two, the checksum of what comes
/// before it, and settings that are supported.
pub proof fn law_good_bytes_are_read(bytes: Seq<u8>)
    requires
        bytes.len() == 32 || bytes.len() == 20,
    ensures
        decoded(bytes) is Some <==> {
            &&& bytes[0] == 67 && bytes[1] == 76 && bytes[2] == 68 && bytes[3] == 83
            &&& bytes[4] == 1
            &&& bytes[5] <= 3
            &&& bytes[16] + 256 * bytes[17] + 65536 * bytes[18] + 16777216 * bytes[19] == checksum(
                bytes.take(16),
            )
            &&& 5 <= bytes[7] <= bytes[6] <= 100
            &&& is_offered(bytes[8] + 256 * bytes[9])
        },
        decoded(bytes) matches Some(record) ==> {
            &&& record.settings.brightness_percent == bytes[6]
            &&& record.settings.dim_brightness_percent == bytes[7]
            &&& record.settings.auto_dim <==> bytes[5] == 1 || bytes[5] == 3
            &&& record.settings.dim_on_usb <==> bytes[5] == 2 || bytes[5] == 3
            &&& record.settings.idle_timeout_seconds == bytes[8] + 256 * bytes[9]
            &&& record.sequence == bytes[12] + 256 * bytes[13] + 65536 * bytes[14] + 16777216
                * bytes[15]
        },
{
    let head = bytes.subrange(0, 5);
    assert(head[0] == bytes[0] && head[1] == bytes[1] && head[2] == bytes[2] && head[3] == bytes[3]
        && head[4] == bytes[4]);
    let magic = seq![0x43u8, 0x4c, 0x44, 0x53, 1];
    assert(magic[0] == 67 && magic[1] == 76 && magic[2] == 68 && magic[3] == 83 && magic[4] == 1);
    if bytes[0] == 67 && bytes[1] == 76 && bytes[2] == 68 && bytes[3] == 83 && bytes[4] == 1 {
        assert(head =~= magic);
    }
    assert(bytes.subrange(8, 10)[0] == bytes[8] && bytes.subrange(8, 10)[1] == bytes[9]);
    let number = bytes.subrange(12, 16);
    assert(number[0] == bytes[12] && number[1] == bytes[13] && number[2] == bytes[14] && number[3]
        == bytes[15]);
    let sum = bytes.subrange(16, 20);
    assert(sum[0] == bytes[16] && sum[1] == bytes[17] && sum[2] == bytes[18] && sum[3]
        == bytes[19]);
    assert(bytes.subrange(0, 16) =~= bytes.take(16));
    law_supported_settings(claimed(bytes).settings);
}

} // verus!
