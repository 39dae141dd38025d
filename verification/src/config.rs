//! Device bindings and command-line options of the bridge.
//!
//! Reading and writing the TOML file, and the values that need a socket
//! address or a float, are handled by the caller; everything decided from the
//! text of the arguments is here.
use vstd::prelude::*;
use vstd::string::StringExecFns;

use crate::text::{
    first_index_of, is_whitespace, lemma_first_index_of, lemma_first_index_of_append, lemma_split_concat, digits_value,
    ascii_lower, char_ascii_lower, chars_eq, chars_of, is_ascii_digit, parse_unsigned_chars,
    parse_unsigned, parse_unsigned_spec, split_chars, split_spec, string_of, trim_chars, trim_spec,
};

verus! {

broadcast use vstd::string::group_string_axioms;

/// The configuration file used when `--config` is not given.
pub const DEFAULT_CONFIG_PATH: &'static str = "joycon-rumble.toml";

/// Which Joy-Con a binding is for.
#[derive(Debug, Clone, Copy, PartialEq, Eq, Structural)]
pub enum DeviceSide {
    Left,
    Right,
}

impl DeviceSide {
    /// The lowercase name of the side.
    pub fn label(self) -> (r: &'static str)
        ensures
            r@ == side_label(self),
    {
        match self {
            DeviceSide::Left => "left",
            DeviceSide::Right => "right",
        }
    }
}

/// The lowercase name of a side.
pub open spec fn side_label(side: DeviceSide) -> Seq<char> {
    match side {
        DeviceSide::Left => "left"@,
        DeviceSide::Right => "right"@,
    }
}

/// A binding of one controller: its side, the Bluetooth address to accept
/// (`auto` for any), its OSC channel name, and its player number.
#[derive(Debug, Clone, PartialEq, Eq)]
pub struct DeviceConfig {
    pub side: DeviceSide,
    pub bluetooth_address: String,
    pub osc_address: String,
    pub id: u8,
}

/// The value of a binding.
pub struct DeviceModel {
    pub side: DeviceSide,
    pub bluetooth_address: Seq<char>,
    pub osc_address: Seq<char>,
    pub id: u8,
}

impl DeviceConfig {
    pub open spec fn model(self) -> DeviceModel {
        DeviceModel {
            side: self.side,
            bluetooth_address: self.bluetooth_address@,
            osc_address: self.osc_address@,
            id: self.id,
        }
    }
}

/// The values of a list of bindings.
pub open spec fn devices_model(devices: Seq<DeviceConfig>) -> Seq<DeviceModel> {
    devices.map_values(|d: DeviceConfig| d.model())
}

/// An invalid configuration or argument, with its explanation.
#[derive(Debug, Clone, PartialEq, Eq)]
pub struct ConfigError {
    pub message: String,
}

/// A characters accepted between address digits and dropped.
pub open spec fn is_address_separator(c: char) -> bool {
    c == ':' || c == '-' || c == ' '
}

/// `s` without address separators.
pub open spec fn drop_separators(s: Seq<char>) -> Seq<char>
    decreases s.len(),
{
    if s.len() == 0 {
        s
    } else if is_address_separator(s.last()) {
        drop_separators(s.drop_last())
    } else {
        drop_separators(s.drop_last()).push(s.last())
    }
}

/// True for `0-9`, `a-f` and `A-F`.
pub open spec fn is_ascii_hexdigit(c: char) -> bool {
    is_ascii_digit(c) || ('a' <= c <= 'f') || ('A' <= c <= 'F')
}

/// The normalized form of a Bluetooth address: without separators, twelve
/// hexadecimal digits in lowercase; `None` when the rest is not that.
pub open spec fn normalize_address_spec(s: Seq<char>) -> Option<Seq<char>> {
    let d = drop_separators(s);
    if d.len() == 12 && forall|i: int| 0 <= i < 12 ==> is_ascii_hexdigit(#[trigger] d[i]) {
        Some(d.map_values(|c: char| ascii_lower(c)))
    } else {
        None
    }
}

/// True when `s` is `auto` in any ASCII case.
pub open spec fn is_auto(s: Seq<char>) -> bool {
    s.len() == 4 && ascii_lower(s[0]) == 'a' && ascii_lower(s[1]) == 'u' && ascii_lower(s[2]) == 't'
        && ascii_lower(s[3]) == 'o'
}

/// The message for a malformed Bluetooth address.
pub open spec fn bad_address_message() -> Seq<char> {
    "Bluetooth address must contain exactly 12 hexadecimal digits"@
}

/// The normalized binding address: `auto` in any case becomes `auto`, anything
/// else must be a Bluetooth address.
pub open spec fn binding_address_spec(s: Seq<char>) -> Result<Seq<char>, Seq<char>> {
    if is_auto(s) {
        Ok("auto"@)
    } else {
        match normalize_address_spec(s) {
            Some(a) => Ok(a),
            None => Err(bad_address_message()),
        }
    }
}

/// A message made of a name and a text.
fn named_message(name: &str, text: &str) -> (e: ConfigError)
    ensures
        e.message@ == name@ + text@,
{
    let mut m = name.to_owned();
    m.append(text);
    ConfigError { message: m }
}

/// A message that is a fixed text.
fn fixed_message(text: &str) -> (e: ConfigError)
    ensures
        e.message@ == text@,
{
    ConfigError { message: text.to_owned() }
}

/// Normalizes a Bluetooth address: separators `:`, `-` and space are dropped,
/// the twelve hexadecimal digits that must remain are lowercased.
///
/// The address is rejected whenever a character other than a separator is not
/// an ASCII hexadecimal digit; lowercasing any other character never yields one.
pub fn normalize_bluetooth_address(value: &str) -> (r: Result<String, ConfigError>)
    ensures
        match normalize_address_spec(value@) {
            Some(a) => r matches Ok(s) && s@ == a,
            None => r matches Err(e) && e.message@ == bad_address_message(),
        },
{
    let chars = chars_of(value);
    let mut digits: Vec<char> = Vec::new();
    let mut i: usize = 0;
    while i < chars.len()
        invariant
            i <= chars@.len(),
            digits@ == drop_separators(chars@.subrange(0, i as int)),
        decreases chars@.len() - i,
    {
        let c = chars[i];
        assert(chars@.subrange(0, i + 1).drop_last() =~= chars@.subrange(0, i as int));
        if !(c == ':' || c == '-' || c == ' ') {
            digits.push(c);
        }
        i = i + 1;
    }
    assert(chars@.subrange(0, chars@.len() as int) =~= chars@);
    if digits.len() != 12 {
        return Err(fixed_message("Bluetooth address must contain exactly 12 hexadecimal digits"));
    }
    let mut lower: Vec<char> = Vec::new();
    let mut j: usize = 0;
    while j < 12
        invariant
            j <= 12,
            digits@.len() == 12,
            digits@ == drop_separators(value@),
            forall|k: int| 0 <= k < j ==> is_ascii_hexdigit(#[trigger] digits@[k]),
            lower@ == digits@.subrange(0, j as int).map_values(|c: char| ascii_lower(c)),
        decreases 12 - j,
    {
        let c = digits[j];
        if !(('0' <= c && c <= '9') || ('a' <= c && c <= 'f') || ('A' <= c && c <= 'F')) {
            return Err(fixed_message("Bluetooth address must contain exactly 12 hexadecimal digits"));
        }
        lower.push(char_ascii_lower(c));
        j = j + 1;
        assert(lower@ =~= digits@.subrange(0, j as int).map_values(|c: char| ascii_lower(c)));
    }
    assert(digits@.subrange(0, 12) =~= digits@);
    Ok(string_of(&lower))
}

/// Normalizes a binding address: `auto` in any ASCII case, or a Bluetooth address.
pub fn normalize_binding_address(value: &str) -> (r: Result<String, ConfigError>)
    ensures
        match binding_address_spec(value@) {
            Ok(a) => r matches Ok(s) && s@ == a,
            Err(m) => r matches Err(e) && e.message@ == m,
        },
{
    let chars = chars_of(value);
    if chars.len() == 4 && char_ascii_lower(chars[0]) == 'a' && char_ascii_lower(chars[1]) == 'u'
        && char_ascii_lower(chars[2]) == 't' && char_ascii_lower(chars[3]) == 'o' {
        Ok("auto".to_owned())
    } else {
        normalize_bluetooth_address(value)
    }
}

/// True for the characters allowed in a path segment.
pub open spec fn is_segment_char(c: char) -> bool {
    ('a' <= c <= 'z') || ('A' <= c <= 'Z') || is_ascii_digit(c) || c == '-' || c == '_' || c == '.'
}

/// True when `s` can stand as one segment of an OSC address.
pub open spec fn is_path_segment(s: Seq<char>) -> bool {
    s.len() > 0 && forall|i: int| 0 <= i < s.len() ==> is_segment_char(#[trigger] s[i])
}

/// The message for an invalid segment called `name`.
pub open spec fn bad_segment_message(name: Seq<char>) -> Seq<char> {
    name + " must use only ASCII letters, digits, '.', '-' or '_'"@
}

/// Checks that `value` is a nonempty run of ASCII letters, digits, `.`, `-`, `_`.
pub fn validate_path_segment(value: &str, name: &str) -> (r: Result<(), ConfigError>)
    ensures
        is_path_segment(value@) ==> r is Ok,
        !is_path_segment(value@) ==> (r matches Err(e) && e.message@ == bad_segment_message(name@)),
{
    let chars = chars_of(value);
    let mut ok = chars.len() > 0;
    let mut i: usize = 0;
    while i < chars.len()
        invariant
            i <= chars@.len(),
            ok == (chars@.len() > 0 && forall|k: int| 0 <= k < i ==> is_segment_char(#[trigger] chars@[k])),
        decreases chars@.len() - i,
    {
        let c = chars[i];
        let allowed = ('a' <= c && c <= 'z') || ('A' <= c && c <= 'Z') || ('0' <= c && c <= '9') || c
            == '-' || c == '_' || c == '.';
        ok = ok && allowed;
        i = i + 1;
    }
    if ok {
        Ok(())
    } else {
        Err(named_message(name, " must use only ASCII letters, digits, '.', '-' or '_'"))
    }
}

/// The views of a list of argument strings.
pub open spec fn args_view(args: Seq<String>) -> Seq<Seq<char>> {
    args.map_values(|a: String| a@)
}

/// The value following the option at `index`.
pub open spec fn value_spec(args: Seq<Seq<char>>, index: int, name: Seq<char>) -> Result<Seq<char>, Seq<char>> {
    if index + 1 < args.len() {
        Ok(args[index + 1])
    } else {
        Err(name + " requires a value"@)
    }
}

/// The argument after the option at `index`.
pub fn value<'a>(args: &'a Vec<String>, index: usize, name: &str) -> (r: Result<&'a String, ConfigError>)
    requires
        index < usize::MAX,
    ensures
        match value_spec(args_view(args@), index as int, name@) {
            Ok(v) => r matches Ok(s) && s@ == v,
            Err(m) => r matches Err(e) && e.message@ == m,
        },
{
    if index + 1 < args.len() {
        Ok(&args[index + 1])
    } else {
        Err(named_message(name, " requires a value"))
    }
}

/// An unsigned integer option value.
pub open spec fn parse_number_spec(value: Seq<char>, max: int, name: Seq<char>, text: Seq<char>) -> Result<int, Seq<char>> {
    match parse_unsigned_spec(value, max) {
        Some(v) => Ok(v),
        None => Err(name + text),
    }
}

/// The message text of a malformed 64-bit option value.
pub open spec fn not_integer_text() -> Seq<char> {
    " must be an integer"@
}

/// The message text of a malformed port value.
pub open spec fn not_port_text() -> Seq<char> {
    " must be an integer in 1..65535"@
}

/// Parses a 64-bit unsigned option value.
pub fn parse_u64(value: &str, name: &str) -> (r: Result<u64, ConfigError>)
    ensures
        match parse_number_spec(value@, u64::MAX as int, name@, not_integer_text()) {
            Ok(v) => r matches Ok(x) && x == v,
            Err(m) => r matches Err(e) && e.message@ == m,
        },
{
    match parse_unsigned(value, u64::MAX) {
        Some(v) => Ok(v),
        None => Err(named_message(name, " must be an integer")),
    }
}

/// Parses a 16-bit unsigned option value.
pub fn parse_u16(value: &str, name: &str) -> (r: Result<u16, ConfigError>)
    ensures
        match parse_number_spec(value@, u16::MAX as int, name@, not_port_text()) {
            Ok(v) => r matches Ok(x) && x == v,
            Err(m) => r matches Err(e) && e.message@ == m,
        },
{
    match parse_unsigned(value, u16::MAX as u64) {
        Some(v) => {
            assert(v <= u16::MAX);
            Ok(v as u16)
        },
        None => Err(named_message(name, " must be an integer in 1..65535")),
    }
}

/// The side a name denotes: `left`/`l` or `right`/`r`, in any ASCII case.
pub open spec fn side_named(name: Seq<char>) -> Option<DeviceSide> {
    let lower = name.map_values(|c: char| ascii_lower(c));
    if lower == "left"@ || lower == "l"@ {
        Some(DeviceSide::Left)
    } else if lower == "right"@ || lower == "r"@ {
        Some(DeviceSide::Right)
    } else {
        None
    }
}

/// The message for a `--device` value without four fields.
pub open spec fn device_format_message() -> Seq<char> {
    "--device must be SIDE,AUTO_OR_BLUETOOTH_ADDRESS,OSC_ADDRESS,ID"@
}

/// The message for an unknown side.
pub open spec fn device_side_message() -> Seq<char> {
    "device side must be left or right"@
}

/// The message for a non-numeric player number.
pub open spec fn device_id_message() -> Seq<char> {
    "device id must be an integer"@
}

/// The binding a `SIDE,ADDRESS,OSC_ADDRESS,ID` value describes; fields are
/// trimmed of whitespace.
pub open spec fn parse_device_spec(value: Seq<char>) -> Result<DeviceModel, Seq<char>> {
    let parts = split_spec(value, ',').map_values(|p: Seq<char>| trim_spec(p));
    if parts.len() != 4 {
        Err(device_format_message())
    } else {
        match side_named(parts[0]) {
            None => Err(device_side_message()),
            Some(side) => match binding_address_spec(parts[1]) {
                Err(m) => Err(m),
                Ok(address) => match parse_unsigned_spec(parts[3], 255) {
                    None => Err(device_id_message()),
                    Some(id) => Ok(DeviceModel { side, bluetooth_address: address, osc_address: parts[2], id: id as u8 }),
                },
            },
        }
    }
}

/// A piece without the separator, followed by it, splits off as the first
/// piece.
proof fn lemma_split_first_piece(a: Seq<char>, rest: Seq<char>, sep: char)
    requires
        forall|i: int| 0 <= i < a.len() ==> a[i] != sep,
    ensures
        split_spec(a + seq![sep] + rest, sep) == seq![a] + split_spec(rest, sep),
{
    lemma_first_index_of(a, sep);
    if let Some(k) = first_index_of(a, sep) {
        assert(a[k] == sep);
    }
    lemma_first_index_of_append(a, seq![sep], sep);
    assert(first_index_of(seq![sep], sep) == Some(0int));
    let p = a + seq![sep];
    assert(p.subrange(0, a.len() as int) =~= a);
    let empty = p.subrange(a.len() as int + 1, p.len() as int);
    assert(empty =~= Seq::<char>::empty());
    assert(first_index_of(empty, sep) is None);
    assert(first_index_of(p, sep) == Some(a.len() as int));
    assert(split_spec(empty, sep) == seq![empty]);
    assert(split_spec(p, sep) == seq![a] + seq![empty]);
    assert(p.last() == sep);
    lemma_split_concat(p, rest, sep);
    assert((seq![a] + seq![empty]).drop_last() =~= seq![a]);
}

/// A piece without the separator splits as itself.
proof fn lemma_split_single(a: Seq<char>, sep: char)
    requires
        forall|i: int| 0 <= i < a.len() ==> a[i] != sep,
    ensures
        split_spec(a, sep) == seq![a],
{
    lemma_first_index_of(a, sep);
    if let Some(k) = first_index_of(a, sep) {
        assert(a[k] == sep);
    }
}

/// A text that neither starts nor ends with whitespace trims to itself.
proof fn lemma_trim_plain(s: Seq<char>)
    requires
        s.len() > 0,
        !is_whitespace(s[0]),
        !is_whitespace(s.last()),
    ensures
        trim_spec(s) == s,
{
}

/// The decimal digit of a player number from 1 to 4.
pub open spec fn player_digit(id: u8) -> char {
    if id == 1 {
        '1'
    } else if id == 2 {
        '2'
    } else if id == 3 {
        '3'
    } else {
        '4'
    }
}

/// A `--device` value written from a binding's side, `auto`, an OSC channel
/// name and a player number from 1 to 4 parses back to that binding.
pub proof fn lemma_device_value_round_trip(side: DeviceSide, channel: Seq<char>, id: u8)
    requires
        is_path_segment(channel),
        1 <= id <= 4,
    ensures
        parse_device_spec(
            side_label(side) + ","@ + "auto"@ + ","@ + channel + ","@ + seq![player_digit(id)],
        ) == Ok::<DeviceModel, Seq<char>>(
            DeviceModel { side, bluetooth_address: "auto"@, osc_address: channel, id },
        ),
{
    reveal_strlit("left");
    reveal_strlit("right");
    reveal_strlit("l");
    reveal_strlit("r");
    reveal_strlit(",");
    reveal_strlit("auto");
    let label = side_label(side);
    let auto = "auto"@;
    let digit = seq![player_digit(id)];
    let value = label + ","@ + auto + ","@ + channel + ","@ + digit;
    assert forall|i: int| 0 <= i < channel.len() implies channel[i] != ',' && !is_whitespace(channel[i]) by {
        assert(is_segment_char(channel[i]));
    }
    lemma_split_single(digit, ',');
    lemma_split_first_piece(channel, digit, ',');
    lemma_split_first_piece(auto, channel + seq![','] + digit, ',');
    lemma_split_first_piece(label, auto + seq![','] + (channel + seq![','] + digit), ',');
    assert(value =~= label + seq![','] + (auto + seq![','] + (channel + seq![','] + digit)));
    let pieces = seq![label, auto, channel, digit];
    assert(split_spec(value, ',') =~= pieces);
    lemma_trim_plain(label);
    lemma_trim_plain(auto);
    lemma_trim_plain(channel);
    lemma_trim_plain(digit);
    let parts = pieces.map_values(|p: Seq<char>| trim_spec(p));
    assert(parts =~= pieces);
    assert(label.map_values(|c: char| ascii_lower(c)) =~= label);
    assert(side_named(label) == Some(side));
    assert(is_auto(auto));
    assert(digits_value(digit) == id as int) by {
        assert(digit.drop_last() =~= Seq::<char>::empty());
        assert(digits_value(digit.drop_last()) == 0);
        assert(digit.last() == player_digit(id));
        assert(player_digit(id) as int - '0' as int == id as int);
    }
    assert(parse_unsigned_spec(digit, 255) == Some(id as int));
}

/// Lowercases the ASCII letters of a character vector.
fn lower_chars(v: &Vec<char>) -> (r: Vec<char>)
    ensures
        r@ == v@.map_values(|c: char| ascii_lower(c)),
{
    let mut r: Vec<char> = Vec::new();
    let mut i: usize = 0;
    while i < v.len()
        invariant
            i <= v@.len(),
            r@ == v@.subrange(0, i as int).map_values(|c: char| ascii_lower(c)),
        decreases v@.len() - i,
    {
        r.push(char_ascii_lower(v[i]));
        i = i + 1;
        assert(r@ =~= v@.subrange(0, i as int).map_values(|c: char| ascii_lower(c)));
    }
    assert(v@.subrange(0, v@.len() as int) =~= v@);
    r
}

/// Parses a `--device` value `SIDE,AUTO_OR_BLUETOOTH_ADDRESS,OSC_ADDRESS,ID`.
pub fn parse_device(value: &str) -> (r: Result<DeviceConfig, ConfigError>)
    ensures
        match parse_device_spec(value@) {
            Ok(d) => r matches Ok(c) && c.model() == d,
            Err(m) => r matches Err(e) && e.message@ == m,
        },
{
    let chars = chars_of(value);
    let raw_parts = split_chars(&chars, ',');
    let ghost spec_parts = split_spec(value@, ',').map_values(|p: Seq<char>| trim_spec(p));
    let mut parts: Vec<Vec<char>> = Vec::new();
    let mut i: usize = 0;
    while i < raw_parts.len()
        invariant
            i <= raw_parts@.len(),
            raw_parts@.map_values(|p: Vec<char>| p@) == split_spec(value@, ','),
            parts@.len() == i,
            forall|k: int| 0 <= k < i ==> (#[trigger] parts@[k])@ == trim_spec(raw_parts@[k]@),
        decreases raw_parts@.len() - i,
    {
        let t = trim_chars(&raw_parts[i]);
        parts.push(t);
        i = i + 1;
    }
    assert(spec_parts.len() == parts@.len());
    assert forall|k: int| 0 <= k < parts@.len() implies (#[trigger] parts@[k])@ == spec_parts[k] by {
        assert(raw_parts@.map_values(|p: Vec<char>| p@)[k] == raw_parts@[k]@);
    }
    if parts.len() != 4 {
        return Err(fixed_message("--device must be SIDE,AUTO_OR_BLUETOOTH_ADDRESS,OSC_ADDRESS,ID"));
    }
    let lower = lower_chars(&parts[0]);
    let side = if chars_eq(&lower, &chars_of("left")) || chars_eq(&lower, &chars_of("l")) {
        DeviceSide::Left
    } else if chars_eq(&lower, &chars_of("right")) || chars_eq(&lower, &chars_of("r")) {
        DeviceSide::Right
    } else {
        return Err(fixed_message("device side must be left or right"));
    };
    let address_text = string_of(&parts[1]);
    let bluetooth_address = match normalize_binding_address(address_text.as_str()) {
        Ok(a) => a,
        Err(e) => return Err(e),
    };
    let osc_address = string_of(&parts[2]);
    let id = match parse_unsigned_chars(&parts[3], 255) {
        Some(v) => {
            assert(v <= 255);
            v as u8
        },
        None => return Err(fixed_message("device id must be an integer")),
    };
    Ok(DeviceConfig { side, bluetooth_address, osc_address, id })
}

/// The configuration path the arguments name: the value of the last
/// `--config` scanned, options being skipped in pairs after `--config`.
pub open spec fn find_config_path_spec(args: Seq<Seq<char>>, index: int, path: Seq<char>) -> Result<Seq<char>, Seq<char>>
    decreases args.len() - index,
{
    if index < 0 || index >= args.len() {
        Ok(path)
    } else if args[index] == "--config"@ {
        match value_spec(args, index, "--config"@) {
            Err(m) => Err(m),
            Ok(v) => find_config_path_spec(args, index + 2, v),
        }
    } else {
        find_config_path_spec(args, index + 1, path)
    }
}

/// Finds the configuration file path among the arguments.
pub fn find_config_path(args: &Vec<String>) -> (r: Result<String, ConfigError>)
    requires
        args@.len() + 2 <= usize::MAX,
    ensures
        match find_config_path_spec(args_view(args@), 0, DEFAULT_CONFIG_PATH@) {
            Ok(p) => r matches Ok(s) && s@ == p,
            Err(m) => r matches Err(e) && e.message@ == m,
        },
{
    let ghost view = args_view(args@);
    let mut path = DEFAULT_CONFIG_PATH.to_owned();
    let mut index: usize = 0;
    let config = chars_of("--config");
    while index < args.len()
        invariant
            view == args_view(args@),
            args@.len() + 2 <= usize::MAX,
            config@ == "--config"@,
            find_config_path_spec(view, 0, DEFAULT_CONFIG_PATH@) == find_config_path_spec(view, index as int, path@),
        decreases args@.len() + 2 - index,
    {
        let arg = chars_of(args[index].as_str());
        assert(view[index as int] == args@[index as int]@);
        if chars_eq(&arg, &config) {
            match value(args, index, "--config") {
                Ok(v) => {
                    path = v.clone();
                },
                Err(e) => return Err(e),
            }
            index = index + 2;
        } else {
            index = index + 1;
        }
    }
    Ok(path)
}

/// `devices` with `device` in place of the first binding of the same side, or
/// appended when no binding has that side.
pub open spec fn upsert_device_spec(devices: Seq<DeviceModel>, device: DeviceModel) -> Seq<DeviceModel> {
    match first_with_side(devices, device.side) {
        Some(i) => devices.update(i, device),
        None => devices.push(device),
    }
}

/// The index of the first binding of `side`.
pub open spec fn first_with_side(devices: Seq<DeviceModel>, side: DeviceSide) -> Option<int>
    decreases devices.len(),
{
    if devices.len() == 0 {
        None
    } else if devices[0].side == side {
        Some(0)
    } else {
        match first_with_side(devices.drop_first(), side) {
            Some(k) => Some(k + 1),
            None => None,
        }
    }
}

/// A found binding index is in bounds and has the side.
pub proof fn lemma_first_with_side(devices: Seq<DeviceModel>, side: DeviceSide)
    ensures
        first_with_side(devices, side) matches Some(i) ==> 0 <= i < devices.len() && devices[i].side == side,
        first_with_side(devices, side) is None ==> !has_side(devices, side),
    decreases devices.len(),
{
    if devices.len() > 0 && devices[0].side != side {
        lemma_first_with_side(devices.drop_first(), side);
        if has_side(devices, side) {
            let k = choose|k: int| 0 <= k < devices.len() && #[trigger] devices[k].side == side;
            assert(devices.drop_first()[k - 1].side == side);
        }
    }
}

/// Replaces the binding of the device's side, or adds it.
pub fn upsert_device(devices: &mut Vec<DeviceConfig>, device: DeviceConfig)
    ensures
        devices_model(final(devices)@) == upsert_device_spec(devices_model(old(devices)@), device.model()),
{
    let ghost before = devices_model(devices@);
    let mut i: usize = 0;
    assert(before.subrange(0, before.len() as int) =~= before);
    while i < devices.len()
        invariant
            i <= devices@.len(),
            before == devices_model(devices@),
            before == devices_model(old(devices)@),
            first_with_side(before, device.side) == (match first_with_side(
                before.subrange(i as int, before.len() as int),
                device.side,
            ) {
                Some(k) => Some(k + i),
                None => None::<int>,
            }),
        decreases devices@.len() - i,
    {
        assert(before.subrange(i as int, before.len() as int).drop_first() =~= before.subrange(i + 1, before.len() as int));
        assert(before[i as int] == devices@[i as int].model());
        if devices[i].side == device.side {
            assert(first_with_side(before.subrange(i as int, before.len() as int), device.side) == Some(0int));
            let ghost m = device.model();
            devices.set(i, device);
            assert(devices_model(devices@) =~= before.update(i as int, m));
            return;
        }
        i = i + 1;
    }
    let ghost m = device.model();
    devices.push(device);
    assert(devices_model(devices@) =~= before.push(m));
}

/// The message for a port of zero.
pub open spec fn port_message() -> Seq<char> {
    "listen port must be in 1..65535"@
}

/// The message for a zero heartbeat timeout.
pub open spec fn timeout_message() -> Seq<char> {
    "heartbeat_timeout_ms must be greater than zero"@
}

/// The message for a binding list that is not one left and one right.
pub open spec fn sides_message() -> Seq<char> {
    "config must contain one left and one right device"@
}

/// The message for a player number out of range.
pub open spec fn id_range_message() -> Seq<char> {
    "device id must be in 1..4"@
}

/// The message for two bindings on one channel.
pub open spec fn duplicate_channel_message() -> Seq<char> {
    "left and right device osc_address values must be unique"@
}

/// Checks the bindings from `i` on, normalizing their addresses after `acc`.
pub open spec fn check_devices_spec(devices: Seq<DeviceModel>, i: int, acc: Seq<DeviceModel>) -> Result<Seq<DeviceModel>, Seq<char>>
    decreases devices.len() - i,
{
    if i < 0 || i >= devices.len() {
        Ok(acc)
    } else {
        let d = devices[i];
        match binding_address_spec(d.bluetooth_address) {
            Err(m) => Err(m),
            Ok(a) => if !is_path_segment(d.osc_address) {
                Err(bad_segment_message("device osc_address"@))
            } else if !(1 <= d.id <= 4) {
                Err(id_range_message())
            } else {
                check_devices_spec(devices, i + 1, acc.push(DeviceModel { bluetooth_address: a, ..d }))
            },
        }
    }
}

/// True when some binding has this side.
pub open spec fn has_side(devices: Seq<DeviceModel>, side: DeviceSide) -> bool {
    exists|i: int| 0 <= i < devices.len() && #[trigger] devices[i].side == side
}

/// The checks of a loaded configuration, in order, with the bindings it
/// normalizes on success.
pub open spec fn validate_spec(namespace: Seq<char>, listen_port: u16, heartbeat_timeout_ms: u64, devices: Seq<DeviceModel>) -> Result<Seq<DeviceModel>, Seq<char>> {
    if !is_path_segment(namespace) {
        Err(bad_segment_message("namespace"@))
    } else if listen_port == 0 {
        Err(port_message())
    } else if heartbeat_timeout_ms == 0 {
        Err(timeout_message())
    } else if devices.len() != 2 || !has_side(devices, DeviceSide::Left) || !has_side(devices, DeviceSide::Right) {
        Err(sides_message())
    } else {
        match check_devices_spec(devices, 0, seq![]) {
            Err(m) => Err(m),
            Ok(normalized) => if normalized[0].osc_address == normalized[1].osc_address {
                Err(duplicate_channel_message())
            } else {
                Ok(normalized)
            },
        }
    }
}

/// Dropping separators leaves a text without separators unchanged.
proof fn lemma_drop_separators_noop(s: Seq<char>)
    requires
        forall|i: int| 0 <= i < s.len() ==> !is_address_separator(#[trigger] s[i]),
    ensures
        drop_separators(s) == s,
    decreases s.len(),
{
    if s.len() > 0 {
        let d = s.drop_last();
        assert forall|i: int| 0 <= i < d.len() implies !is_address_separator(#[trigger] d[i]) by {
            assert(d[i] == s[i]);
        }
        lemma_drop_separators_noop(d);
        assert(d.push(s.last()) =~= s);
    }
}

/// A normalized binding address normalizes to itself.
pub proof fn lemma_binding_address_idempotent(s: Seq<char>)
    ensures
        binding_address_spec(s) matches Ok(a) ==> binding_address_spec(a) == Ok::<Seq<char>, Seq<char>>(a),
{
    reveal_strlit("auto");
    if binding_address_spec(s) is Ok && !is_auto(s) {
        let d = drop_separators(s);
        let a = d.map_values(|c: char| ascii_lower(c));
        assert(a.len() == 12);
        assert forall|i: int| 0 <= i < 12 implies is_ascii_hexdigit(#[trigger] a[i]) && ascii_lower(a[i]) == a[i]
            && !is_address_separator(a[i]) by {
            assert(is_ascii_hexdigit(d[i]));
            assert(a[i] == ascii_lower(d[i]));
        }
        lemma_drop_separators_noop(a);
        assert(a.map_values(|c: char| ascii_lower(c)) =~= a);
        assert(!is_auto(a));
    }
}

/// A configuration that passed validation passes again unchanged: what was
/// normalized and saved loads back as the same bindings.
pub proof fn lemma_validate_idempotent(namespace: Seq<char>, listen_port: u16, heartbeat_timeout_ms: u64, devices: Seq<DeviceModel>)
    ensures
        validate_spec(namespace, listen_port, heartbeat_timeout_ms, devices) matches Ok(n)
            ==> validate_spec(namespace, listen_port, heartbeat_timeout_ms, n) == Ok::<Seq<DeviceModel>, Seq<char>>(n),
{
    reveal_with_fuel(check_devices_spec, 3);
    if let Ok(n) = validate_spec(namespace, listen_port, heartbeat_timeout_ms, devices) {
        let d0 = devices[0];
        let d1 = devices[1];
        lemma_binding_address_idempotent(d0.bluetooth_address);
        lemma_binding_address_idempotent(d1.bluetooth_address);
        let a0 = binding_address_spec(d0.bluetooth_address)->Ok_0;
        let a1 = binding_address_spec(d1.bluetooth_address)->Ok_0;
        let n0 = DeviceModel { bluetooth_address: a0, ..d0 };
        let n1 = DeviceModel { bluetooth_address: a1, ..d1 };
        assert(n == seq![n0, n1]);
        assert(has_side(n, d0.side) && has_side(n, d1.side)) by {
            assert(n[0].side == d0.side && n[1].side == d1.side);
        }
        assert(has_side(n, DeviceSide::Left) && has_side(n, DeviceSide::Right)) by {
            let kl = choose|k: int| 0 <= k < devices.len() && #[trigger] devices[k].side == DeviceSide::Left;
            let kr = choose|k: int| 0 <= k < devices.len() && #[trigger] devices[k].side == DeviceSide::Right;
            assert(n[kl].side == DeviceSide::Left);
            assert(n[kr].side == DeviceSide::Right);
        }
        assert(DeviceModel { bluetooth_address: a0, ..n0 } == n0);
        assert(DeviceModel { bluetooth_address: a1, ..n1 } == n1);
        assert(check_devices_spec(n, 0, seq![]) == Ok::<Seq<DeviceModel>, Seq<char>>(seq![n0, n1]));
    }
}

/// Checks a configuration and normalizes the Bluetooth addresses of its bindings.
pub fn validate_config(namespace: &str, listen_port: u16, heartbeat_timeout_ms: u64, devices: &mut Vec<DeviceConfig>) -> (r: Result<(), ConfigError>)
    ensures
        match validate_spec(namespace@, listen_port, heartbeat_timeout_ms, devices_model(old(devices)@)) {
            Ok(n) => r is Ok && devices_model(final(devices)@) == n,
            Err(m) => r matches Err(e) && e.message@ == m,
        },
{
    let ghost before = devices_model(devices@);
    match validate_path_segment(namespace, "namespace") {
        Ok(()) => {},
        Err(e) => return Err(e),
    }
    if listen_port == 0 {
        return Err(fixed_message("listen port must be in 1..65535"));
    }
    if heartbeat_timeout_ms == 0 {
        return Err(fixed_message("heartbeat_timeout_ms must be greater than zero"));
    }
    if devices.len() != 2 {
        return Err(fixed_message("config must contain one left and one right device"));
    }
    let s0 = devices[0].side;
    let s1 = devices[1].side;
    assert(before[0].side == s0 && before[1].side == s1);
    let has_left = s0 == DeviceSide::Left || s1 == DeviceSide::Left;
    let has_right = s0 == DeviceSide::Right || s1 == DeviceSide::Right;
    if !has_left || !has_right {
        assert(!has_side(before, DeviceSide::Left) || !has_side(before, DeviceSide::Right));
        return Err(fixed_message("config must contain one left and one right device"));
    }
    assert(has_side(before, if s0 == DeviceSide::Left { s0 } else { s1 }));
    assert(has_side(before, DeviceSide::Left) && has_side(before, DeviceSide::Right));
    let ghost overall = validate_spec(namespace@, listen_port, heartbeat_timeout_ms, before);
    assert(overall == (match check_devices_spec(before, 0, seq![]) {
        Err(m) => Err(m),
        Ok(n) => if n[0].osc_address == n[1].osc_address {
            Err(duplicate_channel_message())
        } else {
            Ok(n)
        },
    }));
    let mut i: usize = 0;
    assert(devices_model(devices@).subrange(0, 0) =~= seq![]);
    while i < 2
        invariant
            i <= 2,
            before == devices_model(old(devices)@),
            overall == validate_spec(namespace@, listen_port, heartbeat_timeout_ms, before),
            overall == (match check_devices_spec(before, 0, seq![]) {
                Err(m) => Err(m),
                Ok(n) => if n[0].osc_address == n[1].osc_address {
                    Err(duplicate_channel_message())
                } else {
                    Ok(n)
                },
            }),
            devices@.len() == 2,
            before.len() == 2,
            forall|k: int| i <= k < 2 ==> #[trigger] devices_model(devices@)[k] == before[k],
            check_devices_spec(before, 0, seq![]) == check_devices_spec(
                before,
                i as int,
                devices_model(devices@).subrange(0, i as int),
            ),
        decreases 2 - i,
    {
        assert(devices_model(devices@)[i as int] == before[i as int]);
        let address = match normalize_binding_address(devices[i].bluetooth_address.as_str()) {
            Ok(a) => a,
            Err(e) => return Err(e),
        };
        assert(before[i as int].bluetooth_address == devices@[i as int].bluetooth_address@);
        assert(before[i as int].osc_address == devices@[i as int].osc_address@);
        assert(before[i as int].id == devices@[i as int].id);
        match validate_path_segment(devices[i].osc_address.as_str(), "device osc_address") {
            Ok(()) => {},
            Err(e) => return Err(e),
        }
        if !(1 <= devices[i].id && devices[i].id <= 4) {
            return Err(fixed_message("device id must be in 1..4"));
        }
        let ghost prefix = devices_model(devices@).subrange(0, i as int);
        let updated = DeviceConfig {
            side: devices[i].side,
            bluetooth_address: address,
            osc_address: devices[i].osc_address.clone(),
            id: devices[i].id,
        };
        let ghost m = updated.model();
        let ghost prev = devices@;
        devices.set(i, updated);
        assert(devices_model(devices@).subrange(0, i + 1) =~= prefix.push(m));
        assert forall|k: int| i + 1 <= k < 2 implies #[trigger] devices_model(devices@)[k] == before[k] by {
            assert(devices@[k] == prev[k]);
            assert(devices_model(prev)[k] == prev[k].model());
            assert(devices_model(devices@)[k] == devices@[k].model());
        }
        i = i + 1;
    }
    assert(devices_model(devices@).subrange(0, 2) =~= devices_model(devices@));
    let same = chars_eq(&chars_of(devices[0].osc_address.as_str()), &chars_of(devices[1].osc_address.as_str()));
    assert(devices_model(devices@)[0].osc_address == devices@[0].osc_address@);
    assert(devices_model(devices@)[1].osc_address == devices@[1].osc_address@);
    if same {
        return Err(fixed_message("left and right device osc_address values must be unique"));
    }
    Ok(())
}

/// The bindings used when no configuration file exists: left on channel `left`
/// as player 1, right on channel `right` as player 2, both `auto`.
pub fn default_devices() -> (r: Vec<DeviceConfig>)
    ensures
        devices_model(r@) == seq![
            DeviceModel { side: DeviceSide::Left, bluetooth_address: "auto"@, osc_address: "left"@, id: 1 },
            DeviceModel { side: DeviceSide::Right, bluetooth_address: "auto"@, osc_address: "right"@, id: 2 },
        ],
{
    let mut r: Vec<DeviceConfig> = Vec::new();
    r.push(DeviceConfig {
        side: DeviceSide::Left,
        bluetooth_address: "auto".to_owned(),
        osc_address: "left".to_owned(),
        id: 1,
    });
    r.push(DeviceConfig {
        side: DeviceSide::Right,
        bluetooth_address: "auto".to_owned(),
        osc_address: "right".to_owned(),
        id: 2,
    });
    assert(devices_model(r@) =~= seq![
        DeviceModel { side: DeviceSide::Left, bluetooth_address: "auto"@, osc_address: "left"@, id: 1 },
        DeviceModel { side: DeviceSide::Right, bluetooth_address: "auto"@, osc_address: "right"@, id: 2 },
    ]);
    r
}

/// One recognized command-line option, with its value already checked where
/// the value is text, an integer, or a binding.
#[derive(Debug, Clone, PartialEq, Eq)]
pub enum CliOption {
    /// `--config PATH`: already taken by [`find_config_path`].
    Config,
    /// `--listen HOST:PORT`, as written.
    Listen(String),
    ListenPort(u16),
    Namespace(String),
    HeartbeatTimeoutMs(u64),
    /// `--low-freq HZ`, as written.
    LowFreq(String),
    /// `--high-freq HZ`, as written.
    HighFreq(String),
    ImuProfile(String),
    Device(DeviceConfig),
    DryRun,
    TraceCsv(String),
    SaveConfig,
    Help,
}

/// The value of an option.
pub enum CliModel {
    Config,
    Listen(Seq<char>),
    ListenPort(u16),
    Namespace(Seq<char>),
    HeartbeatTimeoutMs(u64),
    LowFreq(Seq<char>),
    HighFreq(Seq<char>),
    ImuProfile(Seq<char>),
    Device(DeviceModel),
    DryRun,
    TraceCsv(Seq<char>),
    SaveConfig,
    Help,
}

impl CliOption {
    pub open spec fn model(self) -> CliModel {
        match self {
            CliOption::Config => CliModel::Config,
            CliOption::Listen(v) => CliModel::Listen(v@),
            CliOption::ListenPort(p) => CliModel::ListenPort(p),
            CliOption::Namespace(v) => CliModel::Namespace(v@),
            CliOption::HeartbeatTimeoutMs(t) => CliModel::HeartbeatTimeoutMs(t),
            CliOption::LowFreq(v) => CliModel::LowFreq(v@),
            CliOption::HighFreq(v) => CliModel::HighFreq(v@),
            CliOption::ImuProfile(v) => CliModel::ImuProfile(v@),
            CliOption::Device(d) => CliModel::Device(d.model()),
            CliOption::DryRun => CliModel::DryRun,
            CliOption::TraceCsv(v) => CliModel::TraceCsv(v@),
            CliOption::SaveConfig => CliModel::SaveConfig,
            CliOption::Help => CliModel::Help,
        }
    }
}

/// An option followed by a text value.
pub open spec fn text_option(args: Seq<Seq<char>>, index: int, name: Seq<char>, make: spec_fn(Seq<char>) -> CliModel) -> Result<(CliModel, int), Seq<char>> {
    match value_spec(args, index, name) {
        Ok(v) => Ok((make(v), index + 2)),
        Err(m) => Err(m),
    }
}

/// The option at `index` and the index of the argument after it.
pub open spec fn cli_option_spec(args: Seq<Seq<char>>, index: int) -> Result<(CliModel, int), Seq<char>> {
    let a = args[index];
    if a == "--config"@ {
        Ok((CliModel::Config, index + 2))
    } else if a == "--listen"@ {
        text_option(args, index, "--listen"@, |v: Seq<char>| CliModel::Listen(v))
    } else if a == "--listen-port"@ {
        match value_spec(args, index, "--listen-port"@) {
            Err(m) => Err(m),
            Ok(v) => match parse_number_spec(v, u16::MAX as int, "--listen-port"@, not_port_text()) {
                Err(m) => Err(m),
                Ok(p) => Ok((CliModel::ListenPort(p as u16), index + 2)),
            },
        }
    } else if a == "--namespace"@ {
        text_option(args, index, "--namespace"@, |v: Seq<char>| CliModel::Namespace(v))
    } else if a == "--heartbeat-timeout-ms"@ {
        match value_spec(args, index, "--heartbeat-timeout-ms"@) {
            Err(m) => Err(m),
            Ok(v) => match parse_number_spec(v, u64::MAX as int, "--heartbeat-timeout-ms"@, not_integer_text()) {
                Err(m) => Err(m),
                Ok(t) => Ok((CliModel::HeartbeatTimeoutMs(t as u64), index + 2)),
            },
        }
    } else if a == "--low-freq"@ {
        text_option(args, index, "--low-freq"@, |v: Seq<char>| CliModel::LowFreq(v))
    } else if a == "--high-freq"@ {
        text_option(args, index, "--high-freq"@, |v: Seq<char>| CliModel::HighFreq(v))
    } else if a == "--imu-profile"@ {
        text_option(args, index, "--imu-profile"@, |v: Seq<char>| CliModel::ImuProfile(v))
    } else if a == "--device"@ {
        match value_spec(args, index, "--device"@) {
            Err(m) => Err(m),
            Ok(v) => match parse_device_spec(v) {
                Err(m) => Err(m),
                Ok(d) => Ok((CliModel::Device(d), index + 2)),
            },
        }
    } else if a == "--dry-run"@ {
        Ok((CliModel::DryRun, index + 1))
    } else if a == "--trace-csv"@ {
        text_option(args, index, "--trace-csv"@, |v: Seq<char>| CliModel::TraceCsv(v))
    } else if a == "--save-config"@ {
        Ok((CliModel::SaveConfig, index + 1))
    } else if a == "--help"@ || a == "-h"@ {
        Ok((CliModel::Help, index + 1))
    } else {
        Err("unknown argument: "@ + a)
    }
}

/// Reads the option at `index`: what it sets and where the next option starts.
pub fn parse_cli_option(args: &Vec<String>, index: usize) -> (r: Result<(CliOption, usize), ConfigError>)
    requires
        index < args@.len(),
        args@.len() + 2 <= usize::MAX,
    ensures
        match cli_option_spec(args_view(args@), index as int) {
            Ok((option, next)) => r matches Ok((o, n)) && o.model() == option && n == next,
            Err(m) => r matches Err(e) && e.message@ == m,
        },
{
    let ghost view = args_view(args@);
    assert(view[index as int] == args@[index as int]@);
    let a = chars_of(args[index].as_str());
    if chars_eq(&a, &chars_of("--config")) {
        return Ok((CliOption::Config, index + 2));
    }
    if chars_eq(&a, &chars_of("--listen")) {
        return match value(args, index, "--listen") {
            Ok(v) => Ok((CliOption::Listen(v.clone()), index + 2)),
            Err(e) => Err(e),
        };
    }
    if chars_eq(&a, &chars_of("--listen-port")) {
        return match value(args, index, "--listen-port") {
            Ok(v) => match parse_u16(v.as_str(), "--listen-port") {
                Ok(p) => Ok((CliOption::ListenPort(p), index + 2)),
                Err(e) => Err(e),
            },
            Err(e) => Err(e),
        };
    }
    if chars_eq(&a, &chars_of("--namespace")) {
        return match value(args, index, "--namespace") {
            Ok(v) => Ok((CliOption::Namespace(v.clone()), index + 2)),
            Err(e) => Err(e),
        };
    }
    if chars_eq(&a, &chars_of("--heartbeat-timeout-ms")) {
        return match value(args, index, "--heartbeat-timeout-ms") {
            Ok(v) => match parse_u64(v.as_str(), "--heartbeat-timeout-ms") {
                Ok(t) => Ok((CliOption::HeartbeatTimeoutMs(t), index + 2)),
                Err(e) => Err(e),
            },
            Err(e) => Err(e),
        };
    }
    if chars_eq(&a, &chars_of("--low-freq")) {
        return match value(args, index, "--low-freq") {
            Ok(v) => Ok((CliOption::LowFreq(v.clone()), index + 2)),
            Err(e) => Err(e),
        };
    }
    if chars_eq(&a, &chars_of("--high-freq")) {
        return match value(args, index, "--high-freq") {
            Ok(v) => Ok((CliOption::HighFreq(v.clone()), index + 2)),
            Err(e) => Err(e),
        };
    }
    if chars_eq(&a, &chars_of("--imu-profile")) {
        return match value(args, index, "--imu-profile") {
            Ok(v) => Ok((CliOption::ImuProfile(v.clone()), index + 2)),
            Err(e) => Err(e),
        };
    }
    if chars_eq(&a, &chars_of("--device")) {
        return match value(args, index, "--device") {
            Ok(v) => match parse_device(v.as_str()) {
                Ok(d) => Ok((CliOption::Device(d), index + 2)),
                Err(e) => Err(e),
            },
            Err(e) => Err(e),
        };
    }
    if chars_eq(&a, &chars_of("--dry-run")) {
        return Ok((CliOption::DryRun, index + 1));
    }
    if chars_eq(&a, &chars_of("--trace-csv")) {
        return match value(args, index, "--trace-csv") {
            Ok(v) => Ok((CliOption::TraceCsv(v.clone()), index + 2)),
            Err(e) => Err(e),
        };
    }
    if chars_eq(&a, &chars_of("--save-config")) {
        return Ok((CliOption::SaveConfig, index + 1));
    }
    if chars_eq(&a, &chars_of("--help")) || chars_eq(&a, &chars_of("-h")) {
        return Ok((CliOption::Help, index + 1));
    }
    let mut m = "unknown argument: ".to_owned();
    m.append(args[index].as_str());
    Err(ConfigError { message: m })
}

/// What the command line sets on top of the configuration file. Addresses
/// and frequencies are kept as written; the caller reads them.
#[derive(Debug, Clone, PartialEq, Eq)]
pub struct CliSettings {
    /// The last `--listen` address; `None` keeps the file's address.
    pub listen: Option<String>,
    /// The port of the last `--listen-port` given after that address: it
    /// replaces the port and keeps the host.
    pub listen_port: Option<u16>,
    pub namespace: Option<String>,
    pub heartbeat_timeout_ms: Option<u64>,
    pub low_freq: Option<String>,
    pub high_freq: Option<String>,
    pub imu_profile: Option<String>,
    pub dry_run: bool,
    pub trace_csv: Option<String>,
    pub save_config: bool,
}

/// The value of the command-line settings.
pub struct CliSettingsModel {
    pub listen: Option<Seq<char>>,
    pub listen_port: Option<u16>,
    pub namespace: Option<Seq<char>>,
    pub heartbeat_timeout_ms: Option<u64>,
    pub low_freq: Option<Seq<char>>,
    pub high_freq: Option<Seq<char>>,
    pub imu_profile: Option<Seq<char>>,
    pub dry_run: bool,
    pub trace_csv: Option<Seq<char>>,
    pub save_config: bool,
}

/// The view of an optional text.
pub open spec fn text_view(t: Option<String>) -> Option<Seq<char>> {
    match t {
        Some(s) => Some(s@),
        None => None,
    }
}

impl View for CliSettings {
    type V = CliSettingsModel;

    open spec fn view(&self) -> CliSettingsModel {
        CliSettingsModel {
            listen: text_view(self.listen),
            listen_port: self.listen_port,
            namespace: text_view(self.namespace),
            heartbeat_timeout_ms: self.heartbeat_timeout_ms,
            low_freq: text_view(self.low_freq),
            high_freq: text_view(self.high_freq),
            imu_profile: text_view(self.imu_profile),
            dry_run: self.dry_run,
            trace_csv: text_view(self.trace_csv),
            save_config: self.save_config,
        }
    }
}

/// Settings before any option: nothing overridden.
pub open spec fn no_settings() -> CliSettingsModel {
    CliSettingsModel {
        listen: None,
        listen_port: None,
        namespace: None,
        heartbeat_timeout_ms: None,
        low_freq: None,
        high_freq: None,
        imu_profile: None,
        dry_run: false,
        trace_csv: None,
        save_config: false,
    }
}

/// What one option does to the settings and the bindings: a later value of
/// an option replaces an earlier one, `--listen` drops an earlier
/// `--listen-port`, and `--device` replaces the binding of its side.
pub open spec fn apply_option_spec(m: CliSettingsModel, devices: Seq<DeviceModel>, option: CliModel) -> (CliSettingsModel, Seq<DeviceModel>) {
    match option {
        CliModel::Listen(t) => (CliSettingsModel { listen: Some(t), listen_port: None, ..m }, devices),
        CliModel::ListenPort(p) => (CliSettingsModel { listen_port: Some(p), ..m }, devices),
        CliModel::Namespace(t) => (CliSettingsModel { namespace: Some(t), ..m }, devices),
        CliModel::HeartbeatTimeoutMs(t) => (CliSettingsModel { heartbeat_timeout_ms: Some(t), ..m }, devices),
        CliModel::LowFreq(t) => (CliSettingsModel { low_freq: Some(t), ..m }, devices),
        CliModel::HighFreq(t) => (CliSettingsModel { high_freq: Some(t), ..m }, devices),
        CliModel::ImuProfile(t) => (CliSettingsModel { imu_profile: Some(t), ..m }, devices),
        CliModel::Device(d) => (m, upsert_device_spec(devices, d)),
        CliModel::DryRun => (CliSettingsModel { dry_run: true, ..m }, devices),
        CliModel::TraceCsv(t) => (CliSettingsModel { trace_csv: Some(t), ..m }, devices),
        CliModel::SaveConfig => (CliSettingsModel { save_config: true, ..m }, devices),
        CliModel::Config => (m, devices),
        CliModel::Help => (m, devices),
    }
}

impl CliSettings {
    /// Settings with nothing overridden.
    pub fn new() -> (r: Self)
        ensures
            r@ == no_settings(),
    {
        CliSettings {
            listen: None,
            listen_port: None,
            namespace: None,
            heartbeat_timeout_ms: None,
            low_freq: None,
            high_freq: None,
            imu_profile: None,
            dry_run: false,
            trace_csv: None,
            save_config: false,
        }
    }

    /// Applies one option, in argument order.
    pub fn apply(&mut self, devices: &mut Vec<DeviceConfig>, option: CliOption)
        ensures
            (final(self)@, devices_model(final(devices)@)) == apply_option_spec(
                old(self)@,
                devices_model(old(devices)@),
                option.model(),
            ),
    {
        match option {
            CliOption::Listen(t) => {
                self.listen = Some(t);
                self.listen_port = None;
            },
            CliOption::ListenPort(p) => self.listen_port = Some(p),
            CliOption::Namespace(t) => self.namespace = Some(t),
            CliOption::HeartbeatTimeoutMs(t) => self.heartbeat_timeout_ms = Some(t),
            CliOption::LowFreq(t) => self.low_freq = Some(t),
            CliOption::HighFreq(t) => self.high_freq = Some(t),
            CliOption::ImuProfile(t) => self.imu_profile = Some(t),
            CliOption::Device(d) => upsert_device(devices, d),
            CliOption::DryRun => self.dry_run = true,
            CliOption::TraceCsv(t) => self.trace_csv = Some(t),
            CliOption::SaveConfig => self.save_config = true,
            CliOption::Config => {},
            CliOption::Help => {},
        }
    }
}

/// The settings that hold text, in a fixed order: listen host, namespace,
/// low frequency, high frequency, IMU profile and trace file.
pub open spec fn text_settings(m: CliSettingsModel) -> Seq<Option<Seq<char>>> {
    seq![m.listen, m.namespace, m.low_freq, m.high_freq, m.imu_profile, m.trace_csv]
}

/// An option that carries text sets the setting of its own name to that
/// text and no other text setting; it leaves the numbers, the flags and the
/// bindings as they were, except that a listen host drops an earlier port.
pub proof fn lemma_apply_sets_own_setting(m: CliSettingsModel, devices: Seq<DeviceModel>, t: Seq<char>)
    ensures
        text_settings(apply_option_spec(m, devices, CliModel::Listen(t)).0) == text_settings(m).update(0, Some(t)),
        text_settings(apply_option_spec(m, devices, CliModel::Namespace(t)).0) == text_settings(m).update(1, Some(t)),
        text_settings(apply_option_spec(m, devices, CliModel::LowFreq(t)).0) == text_settings(m).update(2, Some(t)),
        text_settings(apply_option_spec(m, devices, CliModel::HighFreq(t)).0) == text_settings(m).update(3, Some(t)),
        text_settings(apply_option_spec(m, devices, CliModel::ImuProfile(t)).0) == text_settings(m).update(4, Some(t)),
        text_settings(apply_option_spec(m, devices, CliModel::TraceCsv(t)).0) == text_settings(m).update(5, Some(t)),
        forall|o: CliModel|
            (o is Listen || o is Namespace || o is LowFreq || o is HighFreq || o is ImuProfile || o is TraceCsv) ==> {
                let r = #[trigger] apply_option_spec(m, devices, o);
                &&& r.1 == devices
                &&& r.0.heartbeat_timeout_ms == m.heartbeat_timeout_ms
                &&& r.0.dry_run == m.dry_run
                &&& r.0.save_config == m.save_config
                &&& r.0.listen_port == (if o is Listen { None } else { m.listen_port })
            },
{
    assert(text_settings(apply_option_spec(m, devices, CliModel::Listen(t)).0) =~= text_settings(m).update(0, Some(t)));
    assert(text_settings(apply_option_spec(m, devices, CliModel::Namespace(t)).0) =~= text_settings(m).update(1, Some(t)));
    assert(text_settings(apply_option_spec(m, devices, CliModel::LowFreq(t)).0) =~= text_settings(m).update(2, Some(t)));
    assert(text_settings(apply_option_spec(m, devices, CliModel::HighFreq(t)).0) =~= text_settings(m).update(3, Some(t)));
    assert(text_settings(apply_option_spec(m, devices, CliModel::ImuProfile(t)).0) =~= text_settings(m).update(4, Some(t)));
    assert(text_settings(apply_option_spec(m, devices, CliModel::TraceCsv(t)).0) =~= text_settings(m).update(5, Some(t)));
}

/// A `--listen-port` keeps the host of the address before it, and a later
/// `--listen` replaces both host and port.
pub proof fn lemma_listen_port_keeps_host(m: CliSettingsModel, devices: Seq<DeviceModel>, port: u16, text: Seq<char>)
    ensures
        apply_option_spec(m, devices, CliModel::ListenPort(port)).0.listen == m.listen,
        apply_option_spec(m, devices, CliModel::ListenPort(port)).0.listen_port == Some(port),
        apply_option_spec(apply_option_spec(m, devices, CliModel::ListenPort(port)).0, devices, CliModel::Listen(text)).0.listen_port
            is None,
{
}

/// Each option is read as the option of its own name: a value option carries
/// the argument that follows it and the next option starts after that value,
/// a flag carries nothing and the next option follows it, and a value option
/// at the end reports that its value is missing.
pub proof fn lemma_cli_option_by_name(args: Seq<Seq<char>>, index: int)
    requires
        0 <= index < args.len(),
    ensures
        args[index] == "--listen"@ && index + 1 < args.len() ==> cli_option_spec(args, index) == Ok::<(CliModel, int), Seq<char>>((CliModel::Listen(args[index + 1]), index + 2)),
        args[index] == "--namespace"@ && index + 1 < args.len() ==> cli_option_spec(args, index) == Ok::<(CliModel, int), Seq<char>>((CliModel::Namespace(args[index + 1]), index + 2)),
        args[index] == "--low-freq"@ && index + 1 < args.len() ==> cli_option_spec(args, index) == Ok::<(CliModel, int), Seq<char>>((CliModel::LowFreq(args[index + 1]), index + 2)),
        args[index] == "--high-freq"@ && index + 1 < args.len() ==> cli_option_spec(args, index) == Ok::<(CliModel, int), Seq<char>>((CliModel::HighFreq(args[index + 1]), index + 2)),
        args[index] == "--imu-profile"@ && index + 1 < args.len() ==> cli_option_spec(args, index) == Ok::<(CliModel, int), Seq<char>>((CliModel::ImuProfile(args[index + 1]), index + 2)),
        args[index] == "--trace-csv"@ && index + 1 < args.len() ==> cli_option_spec(args, index) == Ok::<(CliModel, int), Seq<char>>((CliModel::TraceCsv(args[index + 1]), index + 2)),
        args[index] == "--listen-port"@ && index + 1 < args.len() && parse_unsigned_spec(args[index + 1], 65535) is Some
            ==> cli_option_spec(args, index) == Ok::<(CliModel, int), Seq<char>>(
            (CliModel::ListenPort(parse_unsigned_spec(args[index + 1], 65535)->Some_0 as u16), index + 2),
        ),
        args[index] == "--heartbeat-timeout-ms"@ && index + 1 < args.len() && parse_unsigned_spec(args[index + 1], u64::MAX as int) is Some
            ==> cli_option_spec(args, index) == Ok::<(CliModel, int), Seq<char>>(
            (CliModel::HeartbeatTimeoutMs(parse_unsigned_spec(args[index + 1], u64::MAX as int)->Some_0 as u64), index + 2),
        ),
        args[index] == "--device"@ && index + 1 < args.len() && parse_device_spec(args[index + 1]) is Ok
            ==> cli_option_spec(args, index) == Ok::<(CliModel, int), Seq<char>>(
            (CliModel::Device(parse_device_spec(args[index + 1])->Ok_0), index + 2),
        ),
        args[index] == "--config"@ ==> cli_option_spec(args, index) == Ok::<(CliModel, int), Seq<char>>((CliModel::Config, index + 2)),
        args[index] == "--dry-run"@ ==> cli_option_spec(args, index) == Ok::<(CliModel, int), Seq<char>>((CliModel::DryRun, index + 1)),
        args[index] == "--save-config"@ ==> cli_option_spec(args, index) == Ok::<(CliModel, int), Seq<char>>((CliModel::SaveConfig, index + 1)),
        args[index] == "--help"@ ==> cli_option_spec(args, index) == Ok::<(CliModel, int), Seq<char>>((CliModel::Help, index + 1)),
        args[index] == "-h"@ ==> cli_option_spec(args, index) == Ok::<(CliModel, int), Seq<char>>((CliModel::Help, index + 1)),
        index + 1 >= args.len() && (args[index] == "--listen"@ || args[index] == "--listen-port"@ || args[index] == "--namespace"@
            || args[index] == "--heartbeat-timeout-ms"@ || args[index] == "--low-freq"@ || args[index] == "--high-freq"@
            || args[index] == "--imu-profile"@ || args[index] == "--device"@ || args[index] == "--trace-csv"@)
            ==> cli_option_spec(args, index) == Err::<(CliModel, int), Seq<char>>(args[index] + " requires a value"@),
{
    reveal_strlit("--config");
    reveal_strlit("--listen");
    reveal_strlit("--listen-port");
    reveal_strlit("--namespace");
    reveal_strlit("--heartbeat-timeout-ms");
    reveal_strlit("--low-freq");
    reveal_strlit("--high-freq");
    reveal_strlit("--imu-profile");
    reveal_strlit("--device");
    reveal_strlit("--dry-run");
    reveal_strlit("--trace-csv");
    reveal_strlit("--save-config");
    reveal_strlit("--help");
    reveal_strlit("-h");
    reveal_strlit(" requires a value");
    assert("--config"@.len() == 8);
    assert("--listen"@.len() == 8);
    assert("--listen-port"@.len() == 13);
    assert("--namespace"@.len() == 11);
    assert("--heartbeat-timeout-ms"@.len() == 22);
    assert("--low-freq"@.len() == 10);
    assert("--high-freq"@.len() == 11);
    assert("--imu-profile"@.len() == 13);
    assert("--device"@.len() == 8);
    assert("--dry-run"@.len() == 9);
    assert("--trace-csv"@.len() == 11);
    assert("--save-config"@.len() == 13);
    assert("--help"@.len() == 6);
    assert("-h"@.len() == 2);
    assert("--listen"@[2] != "--config"@[2]);
    assert("--high-freq"@[2] != "--namespace"@[2]);
    assert("--imu-profile"@[2] != "--listen-port"@[2]);
    assert("--device"@[2] != "--config"@[2]);
    assert("--device"@[2] != "--listen"@[2]);
    assert("--trace-csv"@[2] != "--namespace"@[2]);
    assert("--trace-csv"@[2] != "--high-freq"@[2]);
    assert("--save-config"@[2] != "--listen-port"@[2]);
    assert("--save-config"@[2] != "--imu-profile"@[2]);
    if args[index] == "--listen"@ && index + 1 < args.len() {
        assert(value_spec(args, index, "--listen"@) == Ok::<Seq<char>, Seq<char>>(args[index + 1]));
    }
    if args[index] == "--namespace"@ && index + 1 < args.len() {
        assert(value_spec(args, index, "--namespace"@) == Ok::<Seq<char>, Seq<char>>(args[index + 1]));
    }
    if args[index] == "--low-freq"@ && index + 1 < args.len() {
        assert(value_spec(args, index, "--low-freq"@) == Ok::<Seq<char>, Seq<char>>(args[index + 1]));
    }
    if args[index] == "--high-freq"@ && index + 1 < args.len() {
        assert(value_spec(args, index, "--high-freq"@) == Ok::<Seq<char>, Seq<char>>(args[index + 1]));
    }
    if args[index] == "--imu-profile"@ && index + 1 < args.len() {
        assert(value_spec(args, index, "--imu-profile"@) == Ok::<Seq<char>, Seq<char>>(args[index + 1]));
    }
    if args[index] == "--trace-csv"@ && index + 1 < args.len() {
        assert(value_spec(args, index, "--trace-csv"@) == Ok::<Seq<char>, Seq<char>>(args[index + 1]));
    }
}

} // verus!
