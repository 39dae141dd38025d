//! Joy-Con identification, HID report framing, and accelerometer decoding.
use vstd::prelude::*;
use vstd::string::StringExecFns;

use crate::config::{
    normalize_address_spec, normalize_bluetooth_address, DeviceConfig,
    DeviceModel, DeviceSide, devices_model,
};
use crate::signal::Target;
use crate::text::{chars_eq, chars_of, parse_unsigned, parse_unsigned_spec, push_char};

verus! {

broadcast use vstd::string::group_string_axioms;

/// The USB vendor id of Nintendo.
pub const NINTENDO_VENDOR_ID: u16 = 0x057e;
/// The product id of a left Joy-Con.
pub const JOYCON_LEFT_PRODUCT_ID: u16 = 0x2006;
/// The product id of a right Joy-Con.
pub const JOYCON_RIGHT_PRODUCT_ID: u16 = 0x2007;
/// The rumble data that keeps both motors still.
pub const NEUTRAL_RUMBLE: [u8; 8] = [0x00, 0x01, 0x40, 0x40, 0x00, 0x01, 0x40, 0x40];
/// The report id of a standard full input report, which carries IMU data.
pub const STANDARD_INPUT_REPORT: u8 = 0x30;
/// The length the second attempt of a failed HID write is padded to.
pub const PADDED_REPORT_LEN: usize = 49;

/// A Joy-Con model.
#[derive(Debug, Clone, Copy, PartialEq, Eq, Structural)]
pub enum JoyConSide {
    Left,
    Right,
}

impl JoyConSide {
    /// The USB product id of this model.
    pub fn product_id(self) -> (r: u16)
        ensures
            r == (match self {
                JoyConSide::Left => JOYCON_LEFT_PRODUCT_ID,
                JoyConSide::Right => JOYCON_RIGHT_PRODUCT_ID,
            }),
    {
        match self {
            JoyConSide::Left => JOYCON_LEFT_PRODUCT_ID,
            JoyConSide::Right => JOYCON_RIGHT_PRODUCT_ID,
        }
    }

    /// The capitalized name of this model.
    pub fn label(self) -> (r: &'static str)
        ensures
            r@ == (match self {
                JoyConSide::Left => "Left"@,
                JoyConSide::Right => "Right"@,
            }),
    {
        match self {
            JoyConSide::Left => "Left",
            JoyConSide::Right => "Right",
        }
    }

    /// The configured side of this model.
    pub fn device_side(self) -> (r: DeviceSide)
        ensures
            r == joycon_device_side(self),
    {
        match self {
            JoyConSide::Left => DeviceSide::Left,
            JoyConSide::Right => DeviceSide::Right,
        }
    }
}

/// The configured side of a model.
pub open spec fn joycon_device_side(side: JoyConSide) -> DeviceSide {
    match side {
        JoyConSide::Left => DeviceSide::Left,
        JoyConSide::Right => DeviceSide::Right,
    }
}

/// The model a HID device is, from its vendor and product id.
pub open spec fn joycon_model_spec(vendor_id: u16, product_id: u16) -> Option<JoyConSide> {
    if vendor_id != NINTENDO_VENDOR_ID {
        None
    } else if product_id == JOYCON_LEFT_PRODUCT_ID {
        Some(JoyConSide::Left)
    } else if product_id == JOYCON_RIGHT_PRODUCT_ID {
        Some(JoyConSide::Right)
    } else {
        None
    }
}

/// The Joy-Con model of a HID device, if it is one.
pub fn joycon_model(vendor_id: u16, product_id: u16) -> (r: Option<JoyConSide>)
    ensures
        r == joycon_model_spec(vendor_id, product_id),
{
    if vendor_id != NINTENDO_VENDOR_ID {
        None
    } else if product_id == JOYCON_LEFT_PRODUCT_ID {
        Some(JoyConSide::Left)
    } else if product_id == JOYCON_RIGHT_PRODUCT_ID {
        Some(JoyConSide::Right)
    } else {
        None
    }
}

/// The model named by a `--side` value: `left`, `l`, `right` or `r`.
pub open spec fn joycon_side_named(name: Seq<char>) -> Option<JoyConSide> {
    if name == "left"@ || name == "l"@ {
        Some(JoyConSide::Left)
    } else if name == "right"@ || name == "r"@ {
        Some(JoyConSide::Right)
    } else {
        None
    }
}

/// Reads a `--side` value.
pub fn parse_joycon_side(value: &str) -> (r: Option<JoyConSide>)
    ensures
        r == joycon_side_named(value@),
{
    let v = chars_of(value);
    if chars_eq(&v, &chars_of("left")) || chars_eq(&v, &chars_of("l")) {
        Some(JoyConSide::Left)
    } else if chars_eq(&v, &chars_of("right")) || chars_eq(&v, &chars_of("r")) {
        Some(JoyConSide::Right)
    } else {
        None
    }
}

/// A rumble test duration in milliseconds, clamped to `20..=1000`.
pub fn clamp_test_duration_ms(millis: u64) -> (r: u64)
    ensures
        r == (if millis < 20 { 20 } else if millis > 1000 { 1000 } else { millis }),
{
    if millis < 20 {
        20
    } else if millis > 1000 {
        1000
    } else {
        millis
    }
}

/// The player lights of player `id`: the lowest `id` lamps lit.
pub fn player_light_mask(id: u8) -> (r: u8)
    requires
        id < 8,
    ensures
        r as int == vstd::arithmetic::power2::pow2(id as nat) - 1,
{
    proof {
        vstd::arithmetic::power2::lemma2_to64();
        vstd::arithmetic::power2::lemma_pow2_pos(id as nat);
        if id < 7 {
            vstd::arithmetic::power2::lemma_pow2_strictly_increases(id as nat, 7);
        }
        vstd::bits::lemma_u8_shl_is_mul(1u8, id);
    }
    (1u8 << id) - 1
}

/// The position of a side in per-side arrays.
pub fn target_index(target: Target) -> (r: usize)
    ensures
        r == (match target {
            Target::Left => 0usize,
            Target::Right => 1usize,
        }),
{
    match target {
        Target::Left => 0,
        Target::Right => 1,
    }
}

/// The index of the first binding of a side.
pub open spec fn binding_index_spec(devices: Seq<DeviceModel>, side: DeviceSide) -> Option<int> {
    crate::config::first_with_side(devices, side)
}

/// The index of the first binding configured for a side.
pub fn binding_index(devices: &Vec<DeviceConfig>, side: DeviceSide) -> (r: Option<usize>)
    ensures
        r matches Some(i) ==> binding_index_spec(devices_model(devices@), side) == Some(i as int),
        r is None ==> binding_index_spec(devices_model(devices@), side) is None,
{
    let ghost all = devices_model(devices@);
    let mut i: usize = 0;
    assert(all.subrange(0, all.len() as int) =~= all);
    while i < devices.len()
        invariant
            i <= devices@.len(),
            all == devices_model(devices@),
            crate::config::first_with_side(all, side) == (match crate::config::first_with_side(
                all.subrange(i as int, all.len() as int),
                side,
            ) {
                Some(k) => Some(k + i),
                None => None::<int>,
            }),
        decreases devices@.len() - i,
    {
        assert(all.subrange(i as int, all.len() as int).drop_first() =~= all.subrange(i + 1, all.len() as int));
        assert(all[i as int] == devices@[i as int].model());
        if devices[i].side == side {
            return Some(i);
        }
        i = i + 1;
    }
    None
}

/// True when a controller with this serial number may serve a binding with
/// this (normalized) address: `auto` takes any controller, another address
/// only the controller whose serial normalizes to it.
pub open spec fn serial_accepted(binding_address: Seq<char>, serial: Seq<char>) -> bool {
    binding_address == "auto"@ || normalize_address_spec(serial) == Some(binding_address)
}

/// Whether a controller's serial number satisfies a binding address.
pub fn accepts_serial(binding_address: &str, serial: &str) -> (r: bool)
    ensures
        r == serial_accepted(binding_address@, serial@),
{
    let b = chars_of(binding_address);
    if chars_eq(&b, &chars_of("auto")) {
        return true;
    }
    match normalize_bluetooth_address(serial) {
        Ok(address) => chars_eq(&chars_of(address.as_str()), &b),
        Err(_) => false,
    }
}

/// Which binding a HID device should be opened for: a Joy-Con of a side not yet
/// connected, with a binding for that side that accepts its serial number.
pub open spec fn device_to_open_spec(
    vendor_id: u16,
    product_id: u16,
    serial: Seq<char>,
    left_connected: bool,
    right_connected: bool,
    devices: Seq<DeviceModel>,
) -> Option<(JoyConSide, int)> {
    match joycon_model_spec(vendor_id, product_id) {
        None => None,
        Some(side) => if (side == JoyConSide::Left && left_connected) || (side == JoyConSide::Right
            && right_connected) {
            None
        } else {
            match binding_index_spec(devices, joycon_device_side(side)) {
                None => None,
                Some(i) => if serial_accepted(devices[i].bluetooth_address, serial) {
                    Some((side, i))
                } else {
                    None
                },
            }
        },
    }
}

/// Decides whether a discovered HID device is to be opened, and for which
/// binding. A device without a serial number is given the empty serial.
pub fn device_to_open(
    vendor_id: u16,
    product_id: u16,
    serial: &str,
    left_connected: bool,
    right_connected: bool,
    devices: &Vec<DeviceConfig>,
) -> (r: Option<(JoyConSide, usize)>)
    ensures
        r matches Some((side, i)) ==> device_to_open_spec(vendor_id, product_id, serial@, left_connected, right_connected, devices_model(devices@)) == Some((side, i as int)),
        r is None ==> device_to_open_spec(vendor_id, product_id, serial@, left_connected, right_connected, devices_model(devices@)) is None,
{
    let side = match joycon_model(vendor_id, product_id) {
        Some(s) => s,
        None => return None,
    };
    if (side == JoyConSide::Left && left_connected) || (side == JoyConSide::Right && right_connected) {
        return None;
    }
    let index = match binding_index(devices, side.device_side()) {
        Some(i) => i,
        None => return None,
    };
    proof {
        crate::config::lemma_first_with_side(devices_model(devices@), joycon_device_side(side));
    }
    assert(devices_model(devices@)[index as int] == devices@[index as int].model());
    if accepts_serial(devices[index].bluetooth_address.as_str(), serial) {
        Some((side, index))
    } else {
        None
    }
}

/// A four-bit counter that numbers output reports.
#[derive(Debug)]
pub struct PacketCounter {
    value: u8,
}

impl View for PacketCounter {
    type V = u8;

    closed spec fn view(&self) -> u8 {
        self.value
    }
}

impl PacketCounter {
    /// A counter starting at zero.
    pub fn new() -> (r: Self)
        ensures
            r@ == 0,
    {
        PacketCounter { value: 0 }
    }

    /// The number of the next report: the low four bits of the counter, which
    /// then advances modulo sixteen.
    pub fn next(&mut self) -> (n: u8)
        ensures
            n == old(self)@ % 16,
            final(self)@ == (old(self)@ + 1) % 256 % 16,
    {
        let current = self.value;
        let value = current & 0x0f;
        assert(current & 0x0f == current % 16) by (bit_vector);
        let bumped = current.wrapping_add(1);
        let next = bumped & 0x0f;
        assert(bumped & 0x0f == bumped % 16) by (bit_vector);
        self.value = next;
        value
    }
}

/// A rumble-only output report: id `0x10`, the packet number, the rumble data.
pub open spec fn rumble_report_spec(number: u8, rumble: [u8; 8]) -> Seq<u8> {
    seq![0x10u8, number] + rumble@
}

/// A subcommand output report: id `0x01`, the packet number, the rumble data,
/// the subcommand and its arguments.
pub open spec fn subcommand_report_spec(number: u8, rumble: [u8; 8], subcommand: u8, args: Seq<u8>) -> Seq<u8> {
    seq![0x01u8, number] + rumble@ + seq![subcommand] + args
}

/// Builds a rumble-only output report.
pub fn rumble_report(number: u8, rumble: [u8; 8]) -> (r: Vec<u8>)
    ensures
        r@ == rumble_report_spec(number, rumble),
{
    let mut packet: Vec<u8> = Vec::with_capacity(10);
    packet.push(0x10);
    packet.push(number);
    let mut i: usize = 0;
    while i < 8
        invariant
            i <= 8,
            packet@ == seq![0x10u8, number] + rumble@.subrange(0, i as int),
        decreases 8 - i,
    {
        packet.push(rumble[i]);
        i = i + 1;
        assert(packet@ =~= seq![0x10u8, number] + rumble@.subrange(0, i as int));
    }
    assert(rumble@.subrange(0, 8) =~= rumble@);
    packet
}

/// Builds a subcommand output report.
pub fn subcommand_report(number: u8, rumble: [u8; 8], subcommand: u8, args: &[u8]) -> (r: Vec<u8>)
    ensures
        r@ == subcommand_report_spec(number, rumble, subcommand, args@),
{
    let mut packet = rumble_report(number, rumble);
    packet.set(0, 0x01);
    packet.push(subcommand);
    let ghost before = packet@;
    packet.extend_from_slice(args);
    assert(packet@ =~= subcommand_report_spec(number, rumble, subcommand, args@));
    packet
}

/// The padded form of a report for the second write attempt: its first bytes
/// (at most [`PADDED_REPORT_LEN`]) followed by zeros.
pub fn padded_report(packet: &[u8]) -> (r: [u8; 49])
    ensures
        forall|i: int| 0 <= i < 49 ==> r@[i] == (if i < packet@.len() { packet@[i] } else { 0u8 }),
{
    let mut padded = [0u8; 49];
    let len = if packet.len() < 49 { packet.len() } else { 49 };
    let mut i: usize = 0;
    while i < len
        invariant
            i <= len <= 49,
            len == (if packet@.len() < 49 { packet@.len() } else { 49 }),
            forall|k: int| 0 <= k < i ==> padded@[k] == packet@[k],
            forall|k: int| i <= k < 49 ==> padded@[k] == 0u8,
        decreases len - i,
    {
        padded[i] = packet[i];
        i = i + 1;
    }
    padded
}

/// The little-endian 16-bit signed value of two bytes.
pub open spec fn le_i16(lo: u8, hi: u8) -> i16 {
    (lo as int + hi as int * 256) as u16 as i16
}

/// The three accelerometer samples of a report: none unless it is a standard
/// input report of at least 49 bytes; then three samples of three axes, at
/// offsets 13, 25 and 37.
pub open spec fn accelerometer_samples_spec(report: Seq<u8>) -> Seq<[i16; 3]> {
    if report.len() == 0 || report[0] != STANDARD_INPUT_REPORT || report.len() < 49 {
        seq![]
    } else {
        Seq::new(3, |k: int| {
            let o = 13 + k * 12;
            [le_i16(report[o], report[o + 1]), le_i16(report[o + 2], report[o + 3]), le_i16(report[o + 4], report[o + 5])]
        })
    }
}

/// The little-endian signed value at `offset`.
fn read_le_i16(report: &[u8], offset: usize) -> (r: i16)
    requires
        offset + 1 < report@.len(),
    ensures
        r == le_i16(report@[offset as int], report@[offset + 1]),
{
    let v: u16 = report[offset] as u16 + report[offset + 1] as u16 * 256;
    #[verifier::truncate]
    (v as i16)
}

/// Decodes the accelerometer samples of an input report.
pub fn parse_accelerometer_samples(report: &[u8]) -> (r: Vec<[i16; 3]>)
    ensures
        r@ == accelerometer_samples_spec(report@),
{
    let mut samples: Vec<[i16; 3]> = Vec::new();
    if report.len() == 0 || report[0] != STANDARD_INPUT_REPORT || report.len() < 49 {
        assert(samples@ =~= accelerometer_samples_spec(report@));
        return samples;
    }
    let mut k: usize = 0;
    while k < 3
        invariant
            k <= 3,
            report@.len() >= 49,
            report@[0] == STANDARD_INPUT_REPORT,
            samples@ == accelerometer_samples_spec(report@).subrange(0, k as int),
        decreases 3 - k,
    {
        let o = 13 + k * 12;
        let sample = [read_le_i16(report, o), read_le_i16(report, o + 2), read_le_i16(report, o + 4)];
        samples.push(sample);
        k = k + 1;
        assert(samples@ =~= accelerometer_samples_spec(report@).subrange(0, k as int));
    }
    assert(accelerometer_samples_spec(report@).subrange(0, 3) =~= accelerometer_samples_spec(report@));
    samples
}

/// The character of a decimal digit.
pub open spec fn digit_char(d: int) -> char {
    (('0' as int) + d) as char
}

/// The decimal digits of `n`, without leading zeros.
pub open spec fn decimal_spec(n: nat) -> Seq<char>
    decreases n,
{
    if n < 10 {
        seq![digit_char(n as int)]
    } else {
        decimal_spec(n / 10).push(digit_char((n % 10) as int))
    }
}

/// The character of a lowercase hexadecimal digit.
pub open spec fn hex_char(d: int) -> char {
    if d < 10 {
        (('0' as int) + d) as char
    } else {
        (('a' as int) + d - 10) as char
    }
}

/// A 16-bit value as four lowercase hexadecimal digits (what `{:04x}` writes).
pub open spec fn hex4_spec(v: u16) -> Seq<char> {
    seq![hex_char(v as int / 4096), hex_char((v as int / 256) % 16), hex_char((v as int / 16) % 16), hex_char(v as int % 16)]
}

/// The listing line of one device: its number, its side, its ids, and its
/// product, serial and path strings.
pub open spec fn listing_line_spec(
    number: nat,
    side: Seq<char>,
    vendor_id: u16,
    product_id: u16,
    product: Seq<char>,
    serial: Seq<char>,
    path: Seq<char>,
) -> Seq<char> {
    decimal_spec(number) + ". "@ + side + " Joy-Con "@ + hex4_spec(vendor_id) + ":"@ + hex4_spec(product_id)
        + " product=\""@ + product + "\" serial=\""@ + serial + "\" path=\""@ + path + "\""@
}

/// The header of a listing of `count` devices.
pub open spec fn listing_header_spec(count: nat) -> Seq<char> {
    "Found "@ + decimal_spec(count) + " Joy-Con HID device(s):"@
}

/// Appends the decimal digits of `n`.
fn push_decimal(s: &mut String, n: usize)
    ensures
        final(s)@ == old(s)@ + decimal_spec(n as nat),
    decreases n,
{
    if n >= 10 {
        push_decimal(s, n / 10);
    }
    let d = (n % 10) as u8;
    push_char(s, (48u8 + d) as char);
    proof {
        if n >= 10 {
            assert(old(s)@ + decimal_spec((n / 10) as nat) + seq![digit_char((n % 10) as int)] =~= old(s)@
                + decimal_spec(n as nat));
        } else {
            assert(old(s)@.push(digit_char(n as int)) =~= old(s)@ + decimal_spec(n as nat));
        }
    }
}

/// The character of one hexadecimal digit.
fn hex_digit(d: u16) -> (c: char)
    requires
        d < 16,
    ensures
        c == hex_char(d as int),
{
    let b = d as u8;
    if b < 10 {
        (48u8 + b) as char
    } else {
        (97u8 + b - 10) as char
    }
}

/// Appends four lowercase hexadecimal digits.
fn push_hex4(s: &mut String, v: u16)
    ensures
        final(s)@ == old(s)@ + hex4_spec(v),
{
    push_char(s, hex_digit(v / 4096));
    push_char(s, hex_digit((v / 256) % 16));
    push_char(s, hex_digit((v / 16) % 16));
    push_char(s, hex_digit(v % 16));
    assert(s@ =~= old(s)@ + hex4_spec(v));
}

/// The listing line of the device numbered `index + 1`.
pub fn listing_line(
    index: usize,
    side: &str,
    vendor_id: u16,
    product_id: u16,
    product: &str,
    serial: &str,
    path: &str,
) -> (r: String)
    requires
        index < usize::MAX,
    ensures
        r@ == listing_line_spec((index + 1) as nat, side@, vendor_id, product_id, product@, serial@, path@),
{
    let mut line = String::new();
    push_decimal(&mut line, index + 1);
    line.append(". ");
    line.append(side);
    line.append(" Joy-Con ");
    push_hex4(&mut line, vendor_id);
    line.append(":");
    push_hex4(&mut line, product_id);
    line.append(" product=\"");
    line.append(product);
    line.append("\" serial=\"");
    line.append(serial);
    line.append("\" path=\"");
    line.append(path);
    line.append("\"");
    assert(line@ =~= listing_line_spec((index + 1) as nat, side@, vendor_id, product_id, product@, serial@, path@));
    line
}

/// The header of a listing of `count` devices.
pub fn listing_header(count: usize) -> (r: String)
    ensures
        r@ == listing_header_spec(count as nat),
{
    let mut line = "Found ".to_owned();
    push_decimal(&mut line, count);
    line.append(" Joy-Con HID device(s):");
    line
}

/// One accelerometer reading of one controller.
#[derive(Debug, Clone, Copy, PartialEq, Eq)]
pub struct ImuSample {
    pub target: Target,
    pub acceleration: [i16; 3],
}

/// Reads an integer option value of the controller utilities; the error
/// names the option.
pub fn parse_u64(value: &str, name: &str) -> (r: Result<u64, String>)
    ensures
        match parse_unsigned_spec(value@, u64::MAX as int) {
            Some(v) => r == Ok::<u64, String>(v as u64),
            None => r matches Err(m) && m@ == name@ + " must be integer"@,
        },
{
    match parse_unsigned(value, u64::MAX) {
        Some(v) => Ok(v),
        None => {
            let mut m = name.to_owned();
            m.append(" must be integer");
            Err(m)
        },
    }
}

/// A signed integer in decimal, with a leading `-` when negative.
pub open spec fn signed_decimal_spec(v: int) -> Seq<char> {
    if v < 0 {
        seq!['-'] + decimal_spec((-v) as nat)
    } else {
        decimal_spec(v as nat)
    }
}

/// The listing line of any HID device: its number, ids, strings, usage page,
/// usage, interface number and path.
pub open spec fn hid_listing_line_spec(
    number: nat,
    vendor_id: u16,
    product_id: u16,
    manufacturer: Seq<char>,
    product: Seq<char>,
    serial: Seq<char>,
    usage_page: u16,
    usage: u16,
    interface: i32,
    path: Seq<char>,
) -> Seq<char> {
    decimal_spec(number) + ". "@ + hex4_spec(vendor_id) + ":"@ + hex4_spec(product_id) + " manufacturer=\""@
        + manufacturer + "\" product=\""@ + product + "\" serial=\""@ + serial + "\" usage_page=0x"@
        + hex4_spec(usage_page) + " usage=0x"@ + hex4_spec(usage) + " interface="@
        + signed_decimal_spec(interface as int) + " path=\""@ + path + "\""@
}

/// The header of a listing of `count` HID devices.
pub open spec fn hid_listing_header_spec(count: nat) -> Seq<char> {
    "Found "@ + decimal_spec(count) + " HID device(s):"@
}

/// Appends a signed decimal number.
fn push_signed_decimal(s: &mut String, v: i32)
    ensures
        final(s)@ == old(s)@ + signed_decimal_spec(v as int),
{
    if v < 0 {
        push_char(s, '-');
        let magnitude = (-(v as i64)) as u64;
        assert(magnitude <= 0x8000_0000);
        push_decimal(s, magnitude as usize);
        assert(s@ =~= old(s)@ + signed_decimal_spec(v as int));
    } else {
        push_decimal(s, v as usize);
    }
}

/// The listing line of the HID device numbered `index + 1`.
pub fn hid_listing_line(
    index: usize,
    vendor_id: u16,
    product_id: u16,
    manufacturer: &str,
    product: &str,
    serial: &str,
    usage_page: u16,
    usage: u16,
    interface: i32,
    path: &str,
) -> (r: String)
    requires
        index < usize::MAX,
    ensures
        r@ == hid_listing_line_spec(
            (index + 1) as nat,
            vendor_id,
            product_id,
            manufacturer@,
            product@,
            serial@,
            usage_page,
            usage,
            interface,
            path@,
        ),
{
    let mut line = String::new();
    push_decimal(&mut line, index + 1);
    line.append(". ");
    push_hex4(&mut line, vendor_id);
    line.append(":");
    push_hex4(&mut line, product_id);
    line.append(" manufacturer=\"");
    line.append(manufacturer);
    line.append("\" product=\"");
    line.append(product);
    line.append("\" serial=\"");
    line.append(serial);
    line.append("\" usage_page=0x");
    push_hex4(&mut line, usage_page);
    line.append(" usage=0x");
    push_hex4(&mut line, usage);
    line.append(" interface=");
    push_signed_decimal(&mut line, interface);
    line.append(" path=\"");
    line.append(path);
    line.append("\"");
    assert(line@ =~= hid_listing_line_spec(
        (index + 1) as nat,
        vendor_id,
        product_id,
        manufacturer@,
        product@,
        serial@,
        usage_page,
        usage,
        interface,
        path@,
    ));
    line
}

/// The header of a listing of `count` HID devices.
pub fn hid_listing_header(count: usize) -> (r: String)
    ensures
        r@ == hid_listing_header_spec(count as nat),
{
    let mut line = "Found ".to_owned();
    push_decimal(&mut line, count);
    line.append(" HID device(s):");
    line
}

/// Checks the timing options of the IMU sweep: each measurement window must
/// last at least 100 ms and the settling time may not exceed 10 s.
pub fn check_sweep_timing(measure_ms: u64, settle_ms: u64) -> (r: Result<(), String>)
    ensures
        r is Ok <==> (measure_ms >= 100 && settle_ms <= 10_000),
        r matches Err(m) ==> m@ == "--measure-ms must be >= 100 and --settle-ms must be <= 10000"@,
{
    if measure_ms < 100 || settle_ms > 10_000 {
        Err("--measure-ms must be >= 100 and --settle-ms must be <= 10000".to_owned())
    } else {
        Ok(())
    }
}

/// The first binding of a side is found.
proof fn lemma_first_binding(devices: Seq<DeviceModel>, side: DeviceSide, i: int)
    requires
        0 <= i < devices.len(),
        devices[i].side == side,
        forall|j: int| 0 <= j < i ==> devices[j].side != side,
    ensures
        crate::config::first_with_side(devices, side) == Some(i),
    decreases i,
{
    if i > 0 {
        let d = devices.drop_first();
        assert(devices[0].side != side);
        assert(d[i - 1] == devices[i]);
        assert forall|j: int| 0 <= j < i - 1 implies d[j].side != side by {
            assert(d[j] == devices[j + 1]);
        }
        lemma_first_binding(d, side, i - 1);
    }
}

/// A Joy-Con model is read back from its own product id under Nintendo's
/// vendor id, and no other vendor or product id reads as that model; the
/// `--side` values `left`/`l` and `right`/`r` name the left and the right
/// model.
pub proof fn lemma_joycon_identified(side: JoyConSide, vendor_id: u16, product_id: u16)
    ensures
        joycon_model_spec(
            NINTENDO_VENDOR_ID,
            match side {
                JoyConSide::Left => JOYCON_LEFT_PRODUCT_ID,
                JoyConSide::Right => JOYCON_RIGHT_PRODUCT_ID,
            },
        ) == Some(side),
        joycon_model_spec(vendor_id, product_id) == Some(side) ==> vendor_id == NINTENDO_VENDOR_ID && product_id == (match side {
            JoyConSide::Left => JOYCON_LEFT_PRODUCT_ID,
            JoyConSide::Right => JOYCON_RIGHT_PRODUCT_ID,
        }),
        joycon_side_named("left"@) == Some(JoyConSide::Left),
        joycon_side_named("l"@) == Some(JoyConSide::Left),
        joycon_side_named("right"@) == Some(JoyConSide::Right),
        joycon_side_named("r"@) == Some(JoyConSide::Right),
{
    reveal_strlit("left");
    reveal_strlit("l");
    reveal_strlit("right");
    reveal_strlit("r");
    assert("right"@.len() != "left"@.len());
    assert("right"@.len() != "l"@.len());
    assert("r"@[0] != "l"@[0]);
    assert("r"@.len() != "left"@.len());
}

/// Whether a discovered Joy-Con is opened depends on its own side alone: the
/// other side's connection never matters, a side that is already connected is
/// never opened again, and a side that is not connected is opened for the
/// first binding of that side when that binding accepts any controller.
pub proof fn lemma_device_offered_by_own_side(
    serial: Seq<char>,
    devices: Seq<DeviceModel>,
    connected: bool,
    other1: bool,
    other2: bool,
    i: int,
)
    ensures
        device_to_open_spec(0x057e, 0x2007, serial, other1, connected, devices) == device_to_open_spec(
            0x057e,
            0x2007,
            serial,
            other2,
            connected,
            devices,
        ),
        device_to_open_spec(0x057e, 0x2006, serial, connected, other1, devices) == device_to_open_spec(
            0x057e,
            0x2006,
            serial,
            connected,
            other2,
            devices,
        ),
        connected ==> device_to_open_spec(0x057e, 0x2007, serial, other1, connected, devices) is None,
        connected ==> device_to_open_spec(0x057e, 0x2006, serial, connected, other1, devices) is None,
        !connected && 0 <= i < devices.len() && devices[i].side == DeviceSide::Right && devices[i].bluetooth_address
            == "auto"@ && (forall|j: int| 0 <= j < i ==> devices[j].side != DeviceSide::Right)
            ==> device_to_open_spec(0x057e, 0x2007, serial, other1, connected, devices) == Some((JoyConSide::Right, i)),
        !connected && 0 <= i < devices.len() && devices[i].side == DeviceSide::Left && devices[i].bluetooth_address
            == "auto"@ && (forall|j: int| 0 <= j < i ==> devices[j].side != DeviceSide::Left)
            ==> device_to_open_spec(0x057e, 0x2006, serial, connected, other1, devices) == Some((JoyConSide::Left, i)),
{
    if 0 <= i < devices.len() && (forall|j: int| 0 <= j < i ==> devices[j].side != devices[i].side) {
        lemma_first_binding(devices, devices[i].side, i);
    }
}

} // verus!
