//! Open Sound Control packet decoding and encoding.
//!
//! Float arguments are carried as their IEEE-754 bit patterns, so the decoder
//! never interprets them and the bits round-trip unchanged.
use vstd::prelude::*;
use vstd::utf8::*;

use crate::text::{chars_of, push_char};

verus! {

broadcast use vstd::string::group_string_axioms;

/// One decoded OSC argument.
#[derive(Debug, Clone, PartialEq)]
pub enum OscArgument {
    /// A 32-bit float, held as its IEEE-754 bit pattern.
    Float(u32),
    Int(i32),
    Bool(bool),
    String(String),
}

/// A decoded OSC message: its address pattern and arguments.
#[derive(Debug, Clone, PartialEq)]
pub struct OscPacket {
    pub address: String,
    pub arguments: Vec<OscArgument>,
}

/// Why a packet could not be decoded or encoded.
#[derive(Debug, Clone, Copy, PartialEq, Eq)]
pub enum OscErrorKind {
    UnexpectedEnd,
    UnterminatedString,
    NotUtf8,
    AddressWithoutSlash,
    TypeTagWithoutComma,
    UnsupportedTag(char),
}

/// A decoding or encoding failure.
#[derive(Debug, Clone, PartialEq, Eq)]
pub struct OscError {
    pub kind: OscErrorKind,
}

/// The mathematical value of one argument.
pub enum ArgModel {
    Float(u32),
    Int(i32),
    Bool(bool),
    Text(Seq<char>),
}

impl OscArgument {
    pub open spec fn model(self) -> ArgModel {
        match self {
            OscArgument::Float(bits) => ArgModel::Float(bits),
            OscArgument::Int(v) => ArgModel::Int(v),
            OscArgument::Bool(b) => ArgModel::Bool(b),
            OscArgument::String(s) => ArgModel::Text(s@),
        }
    }
}

/// The models of a list of arguments.
pub open spec fn args_model(args: Seq<OscArgument>) -> Seq<ArgModel> {
    args.map_values(|a: OscArgument| a.model())
}

/// `v` rounded up to a multiple of four.
pub open spec fn align4_spec(v: int) -> int {
    ((v + 3) / 4) * 4
}

/// The index of the first zero byte at or after `off`, if any.
pub open spec fn first_nul_from(b: Seq<u8>, off: int) -> Option<int>
    decreases b.len() - off,
{
    if off < 0 || off >= b.len() {
        None
    } else if b[off] == 0 {
        Some(off)
    } else {
        first_nul_from(b, off + 1)
    }
}

/// A zero byte found by [`first_nul_from`] lies in bounds, after `off`, and is
/// the first one.
pub proof fn lemma_first_nul_from(b: Seq<u8>, off: int)
    ensures
        first_nul_from(b, off) matches Some(e) ==> {
            &&& 0 <= off <= e < b.len()
            &&& b[e] == 0
            &&& forall|j: int| off <= j < e ==> b[j] != 0
        },
        first_nul_from(b, off) is None ==> forall|j: int| 0 <= off <= j < b.len() ==> b[j] != 0,
    decreases b.len() - off,
{
    if off >= 0 && off < b.len() && b[off] != 0 {
        lemma_first_nul_from(b, off + 1);
    }
}

/// Reads a NUL-terminated, 4-byte aligned UTF-8 string at `off`: the string and
/// the offset just past its padding.
pub open spec fn read_string_spec(b: Seq<u8>, off: int) -> Result<(Seq<char>, int), OscErrorKind> {
    if off >= b.len() {
        Err(OscErrorKind::UnexpectedEnd)
    } else {
        match first_nul_from(b, off) {
            None => Err(OscErrorKind::UnterminatedString),
            Some(end) => if valid_utf8(b.subrange(off, end)) {
                Ok((decode_utf8(b.subrange(off, end)), align4_spec(end + 1)))
            } else {
                Err(OscErrorKind::NotUtf8)
            },
        }
    }
}

/// The big-endian 32-bit word at `off`.
pub open spec fn be_word(b: Seq<u8>, off: int) -> u32 {
    (b[off] as int * 16777216 + b[off + 1] as int * 65536 + b[off + 2] as int * 256
        + b[off + 3] as int) as u32
}

/// Decodes the arguments named by `tags[i..]`, starting at byte `off`, after
/// the already decoded `acc`.
pub open spec fn parse_args_spec(
    b: Seq<u8>,
    tags: Seq<char>,
    i: int,
    off: int,
    acc: Seq<ArgModel>,
) -> Result<Seq<ArgModel>, OscErrorKind>
    decreases tags.len() - i,
{
    if i < 0 || i >= tags.len() {
        Ok(acc)
    } else {
        let tag = tags[i];
        if tag == 'f' || tag == 'i' {
            if off + 4 > b.len() {
                Err(OscErrorKind::UnexpectedEnd)
            } else {
                let word = be_word(b, off);
                let arg = if tag == 'f' {
                    ArgModel::Float(word)
                } else {
                    ArgModel::Int(word as i32)
                };
                parse_args_spec(b, tags, i + 1, off + 4, acc.push(arg))
            }
        } else if tag == 's' {
            match read_string_spec(b, off) {
                Err(e) => Err(e),
                Ok((s, next)) => parse_args_spec(b, tags, i + 1, next, acc.push(ArgModel::Text(s))),
            }
        } else if tag == 'T' {
            parse_args_spec(b, tags, i + 1, off, acc.push(ArgModel::Bool(true)))
        } else if tag == 'F' {
            parse_args_spec(b, tags, i + 1, off, acc.push(ArgModel::Bool(false)))
        } else {
            Err(OscErrorKind::UnsupportedTag(tag))
        }
    }
}

/// The decoding of a whole packet: its address and arguments, or why it fails.
pub open spec fn parse_packet_spec(b: Seq<u8>) -> Result<(Seq<char>, Seq<ArgModel>), OscErrorKind> {
    match read_string_spec(b, 0) {
        Err(e) => Err(e),
        Ok((address, off)) => if !(address.len() > 0 && address[0] == '/') {
            Err(OscErrorKind::AddressWithoutSlash)
        } else {
            match read_string_spec(b, off) {
                Err(e) => Err(e),
                Ok((types, off2)) => if !(types.len() > 0 && types[0] == ',') {
                    Err(OscErrorKind::TypeTagWithoutComma)
                } else {
                    match parse_args_spec(b, types, 1, off2, seq![]) {
                        Err(e) => Err(e),
                        Ok(args) => Ok((address, args)),
                    }
                }
            }
        }
    }
}

/// Decodes UTF-8 bytes (std `str::from_utf8`): `Some` exactly when the bytes
/// are valid UTF-8, holding the characters they encode.
#[verifier::external_body]
fn str_from_utf8(bytes: &[u8]) -> (r: Option<&str>)
    ensures
        r is Some <==> valid_utf8(bytes@),
        r matches Some(s) ==> s@ == decode_utf8(bytes@),
{
    std::str::from_utf8(bytes).ok()
}

impl OscError {
    /// The human-readable description of this failure.
    pub fn message(&self) -> (m: String)
        ensures
            m@ == error_message(self.kind),
    {
        match self.kind {
            OscErrorKind::UnexpectedEnd => "unexpected end of packet".to_owned(),
            OscErrorKind::UnterminatedString => "unterminated OSC string".to_owned(),
            OscErrorKind::NotUtf8 => "OSC string is not UTF-8".to_owned(),
            OscErrorKind::AddressWithoutSlash => "OSC address must start with /".to_owned(),
            OscErrorKind::TypeTagWithoutComma => "OSC type tag must start with ,".to_owned(),
            OscErrorKind::UnsupportedTag(tag) => {
                let mut m = "unsupported OSC type tag: ".to_owned();
                push_char(&mut m, tag);
                m
            },
        }
    }
}

/// The text of each failure.
pub open spec fn error_message(kind: OscErrorKind) -> Seq<char> {
    match kind {
        OscErrorKind::UnexpectedEnd => "unexpected end of packet"@,
        OscErrorKind::UnterminatedString => "unterminated OSC string"@,
        OscErrorKind::NotUtf8 => "OSC string is not UTF-8"@,
        OscErrorKind::AddressWithoutSlash => "OSC address must start with /"@,
        OscErrorKind::TypeTagWithoutComma => "OSC type tag must start with ,"@,
        OscErrorKind::UnsupportedTag(tag) => "unsupported OSC type tag: "@.push(tag),
    }
}

/// Rounds up to the next multiple of four.
pub fn align4(value: usize) -> (r: usize)
    requires
        value + 3 <= usize::MAX,
    ensures
        r == align4_spec(value as int),
{
    let s = value + 3;
    let r = s & !3usize;
    assert(s & !3usize == s - s % 4) by (bit_vector);
    r
}

/// Reads the OSC string at `offset`.
pub fn read_osc_string(bytes: &[u8], offset: usize) -> (r: Result<(String, usize), OscError>)
    requires
        bytes@.len() + 8 <= usize::MAX,
    ensures
        match (r, read_string_spec(bytes@, offset as int)) {
            (Ok((s, next)), Ok((model, next_model))) => s@ == model && next == next_model
                && next <= bytes@.len() + 3,
            (Err(e), Err(kind)) => e.kind == kind,
            _ => false,
        },
{
    if offset >= bytes.len() {
        return Err(OscError { kind: OscErrorKind::UnexpectedEnd });
    }
    let mut end = offset;
    while end < bytes.len() && bytes[end] != 0
        invariant
            offset <= end <= bytes@.len(),
            first_nul_from(bytes@, offset as int) == first_nul_from(bytes@, end as int),
        decreases bytes@.len() - end,
    {
        end = end + 1;
    }
    if end >= bytes.len() {
        return Err(OscError { kind: OscErrorKind::UnterminatedString });
    }
    proof {
        lemma_first_nul_from(bytes@, offset as int);
    }
    let slice = &bytes[offset..end];
    match str_from_utf8(slice) {
        None => Err(OscError { kind: OscErrorKind::NotUtf8 }),
        Some(s) => Ok((s.to_owned(), align4(end + 1))),
    }
}

/// The big-endian word at `offset`.
fn read_4(bytes: &[u8], offset: usize) -> (r: Result<u32, OscError>)
    requires
        offset + 4 <= usize::MAX,
    ensures
        offset + 4 <= bytes@.len() ==> r == Ok::<u32, OscError>(be_word(bytes@, offset as int)),
        offset + 4 > bytes@.len() ==> r == Err::<u32, OscError>(OscError { kind: OscErrorKind::UnexpectedEnd }),
{
    if offset + 4 > bytes.len() {
        return Err(OscError { kind: OscErrorKind::UnexpectedEnd });
    }
    let w = bytes[offset] as u32 * 16777216 + bytes[offset + 1] as u32 * 65536
        + bytes[offset + 2] as u32 * 256 + bytes[offset + 3] as u32;
    Ok(w)
}

/// Reads a big-endian two's complement integer at `offset`.
pub fn read_i32(bytes: &[u8], offset: usize) -> (r: Result<(i32, usize), OscError>)
    requires
        offset + 4 <= usize::MAX,
    ensures
        offset + 4 <= bytes@.len() ==> r == Ok::<(i32, usize), OscError>((be_word(bytes@, offset as int) as i32, (offset + 4) as usize)),
        offset + 4 > bytes@.len() ==> r == Err::<(i32, usize), OscError>(OscError { kind: OscErrorKind::UnexpectedEnd }),
{
    match read_4(bytes, offset) {
        Ok(w) => Ok((w as i32, offset + 4)),
        Err(e) => Err(e),
    }
}

/// Reads the bit pattern of a big-endian float at `offset`.
pub fn read_f32_bits(bytes: &[u8], offset: usize) -> (r: Result<(u32, usize), OscError>)
    requires
        offset + 4 <= usize::MAX,
    ensures
        offset + 4 <= bytes@.len() ==> r == Ok::<(u32, usize), OscError>((be_word(bytes@, offset as int), (offset + 4) as usize)),
        offset + 4 > bytes@.len() ==> r == Err::<(u32, usize), OscError>(OscError { kind: OscErrorKind::UnexpectedEnd }),
{
    match read_4(bytes, offset) {
        Ok(w) => Ok((w, offset + 4)),
        Err(e) => Err(e),
    }
}

/// Decodes one OSC message.
pub fn parse_packet(bytes: &[u8]) -> (r: Result<OscPacket, OscError>)
    requires
        bytes@.len() + 8 <= usize::MAX,
    ensures
        match (r, parse_packet_spec(bytes@)) {
            (Ok(p), Ok((address, args))) => p.address@ == address && args_model(p.arguments@) == args,
            (Err(e), Err(kind)) => e.kind == kind,
            _ => false,
        },
{
    let (address, mut offset) = match read_osc_string(bytes, 0) {
        Ok(v) => v,
        Err(e) => return Err(e),
    };
    let address_chars = chars_of(address.as_str());
    if !(address_chars.len() > 0 && address_chars[0] == '/') {
        return Err(OscError { kind: OscErrorKind::AddressWithoutSlash });
    }
    let (types, next_offset) = match read_osc_string(bytes, offset) {
        Ok(v) => v,
        Err(e) => return Err(e),
    };
    offset = next_offset;
    let tags = chars_of(types.as_str());
    if !(tags.len() > 0 && tags[0] == ',') {
        return Err(OscError { kind: OscErrorKind::TypeTagWithoutComma });
    }
    let ghost b = bytes@;
    let ghost first_arg = offset;
    let mut arguments: Vec<OscArgument> = Vec::new();
    assert(args_model(arguments@) =~= seq![]);
    let mut i: usize = 1;
    while i < tags.len()
        invariant
            b == bytes@,
            bytes@.len() + 8 <= usize::MAX,
            1 <= i <= tags@.len(),
            offset <= bytes@.len() + 4,
            parse_args_spec(b, tags@, 1, first_arg as int, seq![])
                == parse_args_spec(b, tags@, i as int, offset as int, args_model(arguments@)),
            parse_packet_spec(b) == (match parse_args_spec(b, tags@, 1, first_arg as int, seq![]) {
                Err(e) => Err(e),
                Ok(args) => Ok((address@, args)),
            }),
        decreases tags@.len() - i,
    {
        let tag = tags[i];
        let ghost before = args_model(arguments@);
        if tag == 'f' {
            match read_f32_bits(bytes, offset) {
                Ok((value, next)) => {
                    offset = next;
                    arguments.push(OscArgument::Float(value));
                },
                Err(e) => return Err(e),
            }
        } else if tag == 'i' {
            match read_i32(bytes, offset) {
                Ok((value, next)) => {
                    offset = next;
                    arguments.push(OscArgument::Int(value));
                },
                Err(e) => return Err(e),
            }
        } else if tag == 's' {
            match read_osc_string(bytes, offset) {
                Ok((value, next)) => {
                    offset = next;
                    arguments.push(OscArgument::String(value));
                },
                Err(e) => return Err(e),
            }
        } else if tag == 'T' {
            arguments.push(OscArgument::Bool(true));
        } else if tag == 'F' {
            arguments.push(OscArgument::Bool(false));
        } else {
            return Err(OscError { kind: OscErrorKind::UnsupportedTag(tag) });
        }
        assert(args_model(arguments@) == before.push(arguments@.last().model()));
        i = i + 1;
    }
    Ok(OscPacket { address, arguments })
}

/// `s` followed by the zero bytes that bring its length to a multiple of four.
pub open spec fn pad4(s: Seq<u8>) -> Seq<u8> {
    s + Seq::new(((4 - s.len() % 4) % 4) as nat, |i: int| 0u8)
}

/// `buf` with the OSC string `text` appended: its UTF-8 bytes, a terminating
/// zero, and zero padding to a four-byte boundary.
pub open spec fn append_osc_string(buf: Seq<u8>, text: Seq<char>) -> Seq<u8> {
    pad4(buf + encode_utf8(text) + seq![0u8])
}

/// The big-endian bytes of a 32-bit word.
pub open spec fn be_bytes(w: u32) -> Seq<u8> {
    seq![(w / 16777216) as u8, ((w / 65536) % 256) as u8, ((w / 256) % 256) as u8, (w % 256) as u8]
}

/// The type tag string of a message with one integer argument.
pub open spec fn int_type_tag() -> Seq<char> {
    seq![',', 'i']
}

/// The encoding of a message to `address` with the single integer `value`.
pub open spec fn int_message_spec(address: Seq<char>, value: i32) -> Seq<u8> {
    append_osc_string(append_osc_string(seq![], address), int_type_tag()) + be_bytes(value as u32)
}

/// True when a character sequence starts with `/`.
pub open spec fn starts_with_slash(s: Seq<char>) -> bool {
    s.len() > 0 && s[0] == '/'
}

/// The UTF-8 bytes of the integer type tag `,i`.
pub proof fn lemma_int_type_tag_bytes()
    ensures
        encode_utf8(int_type_tag()) == seq![0x2cu8, 0x69u8],
{
    let t = int_type_tag();
    assert(t.drop_first().drop_first() =~= Seq::<char>::empty());
    assert(t.drop_first() =~= seq!['i']);
    assert(((0x2cu32) & 0x7f) as u8 == 0x2cu8) by (bit_vector);
    assert(((0x69u32) & 0x7f) as u8 == 0x69u8) by (bit_vector);
    assert(',' as u32 == 0x2cu32);
    assert('i' as u32 == 0x69u32);
    reveal_with_fuel(encode_utf8, 3);
    assert(encode_utf8(t) =~= seq![0x2cu8, 0x69u8]);
}

/// Appends an OSC string: the UTF-8 bytes, a zero, and padding to a multiple of four.
pub fn write_osc_string(bytes: &mut Vec<u8>, value: &str)
    requires
        old(bytes)@.len() + encode_utf8(value@).len() + 8 <= usize::MAX,
    ensures
        final(bytes)@ == append_osc_string(old(bytes)@, value@),
{
    let ghost start = bytes@;
    bytes.extend_from_slice(value.as_bytes());
    assert(bytes@ =~= start + encode_utf8(value@));
    bytes.push(0);
    let ghost unpadded = bytes@;
    while bytes.len() % 4 != 0
        invariant
            unpadded.len() <= bytes@.len() <= unpadded.len() + 3,
            unpadded.len() + 7 <= usize::MAX,
            bytes@ =~= unpadded + Seq::new((bytes@.len() - unpadded.len()) as nat, |i: int| 0u8),
            bytes@.len() % 4 != 0 ==> (bytes@.len() - unpadded.len()) < (4 - unpadded.len() % 4) % 4,
            bytes@.len() % 4 == 0 ==> (bytes@.len() - unpadded.len()) == (4 - unpadded.len() % 4) % 4,
        decreases unpadded.len() + 3 - bytes@.len(),
    {
        bytes.push(0);
    }
}

/// Encodes a message to `address` carrying one integer.
pub fn encode_int_message(address: &str, value: i32) -> (r: Result<Vec<u8>, OscError>)
    requires
        encode_utf8(address@).len() + 32 <= usize::MAX,
    ensures
        starts_with_slash(address@) ==> (r matches Ok(bytes) && bytes@ == int_message_spec(address@, value)),
        !starts_with_slash(address@) ==> r == Err::<Vec<u8>, OscError>(
            OscError { kind: OscErrorKind::AddressWithoutSlash },
        ),
        ({
            let no_nul = forall|i: int| 0 <= i < address@.len() ==> address@[i] != '\0';
            starts_with_slash(address@) && no_nul ==> (r matches Ok(bytes) && bytes@.len() % 4 == 0
                && parse_packet_spec(bytes@) == Ok::<(Seq<char>, Seq<ArgModel>), OscErrorKind>(
                (address@, seq![ArgModel::Int(value)]),
            ))
        }),
{
    let address_chars = chars_of(address);
    if !(address_chars.len() > 0 && address_chars[0] == '/') {
        return Err(OscError { kind: OscErrorKind::AddressWithoutSlash });
    }
    let mut bytes: Vec<u8> = Vec::new();
    write_osc_string(&mut bytes, address);
    let tag = ",i";
    proof {
        reveal_strlit(",i");
        assert(tag@ =~= int_type_tag());
    }
    proof {
        lemma_int_type_tag_bytes();
    }
    write_osc_string(&mut bytes, tag);
    let w = #[verifier::truncate] (value as u32);
    bytes.push((w / 16777216) as u8);
    bytes.push(((w / 65536) % 256) as u8);
    bytes.push(((w / 256) % 256) as u8);
    bytes.push((w % 256) as u8);
    assert(bytes@ =~= int_message_spec(address@, value));
    proof {
        let first = append_osc_string(seq![], address@);
        lemma_pad4_len(Seq::<u8>::empty() + encode_utf8(address@) + seq![0u8]);
        lemma_pad4_len(first + encode_utf8(int_type_tag()) + seq![0u8]);
        if forall|i: int| 0 <= i < address@.len() ==> address@[i] != '\0' {
            lemma_int_message_roundtrip(address@, value);
        }
    }
    Ok(bytes)
}

/// The UTF-8 encoding of a character other than NUL holds no zero byte.
pub proof fn lemma_encode_scalar_nonzero(c: char)
    requires
        c != '\0',
    ensures
        forall|j: int| 0 <= j < encode_scalar(c as u32).len() ==> #[trigger] encode_scalar(c as u32)[j] != 0,
{
    let v = c as u32;
    assert(0 < v <= 0x7f ==> (v & 0x7f) as u8 != 0) by (bit_vector);
    assert(0xc0u8 | (((v >> 6) & 0x1f) as u8) != 0) by (bit_vector);
    assert(0xe0u8 | (((v >> 12) & 0x0f) as u8) != 0) by (bit_vector);
    assert(0xf0u8 | (((v >> 18) & 0x7) as u8) != 0) by (bit_vector);
    assert(0x80u8 | ((v & 0x3f) as u8) != 0) by (bit_vector);
    assert(0x80u8 | (((v >> 6) & 0x3f) as u8) != 0) by (bit_vector);
    assert(0x80u8 | (((v >> 12) & 0x3f) as u8) != 0) by (bit_vector);
}

/// Characters without NUL encode to bytes without zero.
pub proof fn lemma_encode_utf8_nonzero(chars: Seq<char>)
    requires
        forall|i: int| 0 <= i < chars.len() ==> chars[i] != '\0',
    ensures
        forall|j: int| 0 <= j < encode_utf8(chars).len() ==> encode_utf8(chars)[j] != 0,
    decreases chars.len(),
{
    if chars.len() > 0 {
        lemma_encode_scalar_nonzero(chars[0]);
        lemma_encode_utf8_nonzero(chars.drop_first());
        let head = encode_scalar(chars[0] as u32);
        let tail = encode_utf8(chars.drop_first());
        assert forall|j: int| 0 <= j < encode_utf8(chars).len() implies encode_utf8(chars)[j] != 0 by {
            if j < head.len() {
                assert(encode_utf8(chars)[j] == head[j]);
            } else {
                assert(encode_utf8(chars)[j] == tail[j - head.len()]);
            }
        }
    }
}

/// The first zero at or after `off` is at `e` when `e` holds a zero and nothing
/// between them does.
pub proof fn lemma_first_nul_at(b: Seq<u8>, off: int, e: int)
    requires
        0 <= off <= e < b.len(),
        b[e] == 0,
        forall|j: int| off <= j < e ==> b[j] != 0,
    ensures
        first_nul_from(b, off) == Some(e),
    decreases e - off,
{
    if off < e {
        lemma_first_nul_at(b, off + 1, e);
    }
}

/// Padding to four bytes is rounding the length up.
pub proof fn lemma_pad4_len(s: Seq<u8>)
    ensures
        pad4(s).len() == align4_spec(s.len() as int),
        pad4(s).len() % 4 == 0,
        forall|j: int| 0 <= j < s.len() ==> pad4(s)[j] == s[j],
        forall|j: int| s.len() <= j < pad4(s).len() ==> pad4(s)[j] == 0,
{
}

/// Big-endian bytes read back as the same word.
pub proof fn lemma_be_bytes_word(prefix: Seq<u8>, w: u32)
    ensures
        be_word(prefix + be_bytes(w), prefix.len() as int) == w,
{
    let b = prefix + be_bytes(w);
    let n = prefix.len() as int;
    let w0 = w / 16777216;
    let w1 = (w / 65536) % 256;
    let w2 = (w / 256) % 256;
    let w3 = w % 256;
    assert(w0 * 16777216 + w1 * 65536 + w2 * 256 + w3 == w) by (nonlinear_arith)
        requires
            w0 == w / 16777216,
            w1 == (w / 65536) % 256,
            w2 == (w / 256) % 256,
            w3 == w % 256,
    ;
    assert(w0 < 256) by (nonlinear_arith)
        requires
            w0 == w / 16777216,
            w <= 0xffff_ffff,
    ;
    assert(b[n] == w0 as u8);
    assert(b[n + 1] == w1 as u8);
    assert(b[n + 2] == w2 as u8);
    assert(b[n + 3] == w3 as u8);
}

/// Decoding an encoded integer message gives back its address and its one
/// integer argument, for every address that starts with `/` and holds no NUL.
pub proof fn lemma_int_message_roundtrip(address: Seq<char>, value: i32)
    requires
        starts_with_slash(address),
        forall|i: int| 0 <= i < address.len() ==> address[i] != '\0',
    ensures
        parse_packet_spec(int_message_spec(address, value)) == Ok::<(Seq<char>, Seq<ArgModel>), OscErrorKind>(
            (address, seq![ArgModel::Int(value)]),
        ),
{
    let e = encode_utf8(address);
    let t = encode_utf8(int_type_tag());
    lemma_int_type_tag_bytes();
    let u1 = Seq::<u8>::empty() + e + seq![0u8];
    let part1 = pad4(u1);
    let u2 = part1 + t + seq![0u8];
    let part2 = pad4(u2);
    let w = #[verifier::truncate] (value as u32);
    let b = part2 + be_bytes(w);
    assert(b == int_message_spec(address, value));
    lemma_pad4_len(u1);
    lemma_pad4_len(u2);
    let l1 = part1.len() as int;
    let l2 = part2.len() as int;
    assert(l2 == l1 + 4);
    // The address.
    lemma_encode_utf8_nonzero(address);
    assert forall|j: int| 0 <= j < e.len() implies b[j] != 0 by {
        assert(b[j] == e[j]);
    }
    assert(b[e.len() as int] == 0);
    lemma_first_nul_at(b, 0, e.len() as int);
    assert(b.subrange(0, e.len() as int) =~= e);
    vstd::utf8::encode_utf8_valid_utf8(address);
    vstd::utf8::encode_utf8_decode_utf8(address);
    assert(read_string_spec(b, 0) == Ok::<(Seq<char>, int), OscErrorKind>((address, l1)));
    // The type tag.
    assert(b[l1] == 0x2cu8);
    assert(b[l1 + 1] == 0x69u8);
    assert(b[l1 + 2] == 0u8);
    lemma_first_nul_at(b, l1, l1 + 2);
    assert(b.subrange(l1, l1 + 2) =~= t);
    vstd::utf8::encode_utf8_valid_utf8(int_type_tag());
    vstd::utf8::encode_utf8_decode_utf8(int_type_tag());
    assert(read_string_spec(b, l1) == Ok::<(Seq<char>, int), OscErrorKind>((int_type_tag(), l2)));
    // The integer.
    lemma_be_bytes_word(part2, w);
    assert((w as i32) == value) by (bit_vector)
        requires
            w == #[verifier::truncate] (value as u32),
    ;
    let tags = int_type_tag();
    assert(parse_args_spec(b, tags, 2, l2 + 4, seq![ArgModel::Int(value)]) == Ok::<Seq<ArgModel>, OscErrorKind>(
        seq![ArgModel::Int(value)],
    ));
    assert(seq![].push(ArgModel::Int(value)) == seq![ArgModel::Int(value)]);
    assert(parse_args_spec(b, tags, 1, l2, seq![]) == Ok::<Seq<ArgModel>, OscErrorKind>(
        seq![ArgModel::Int(value)],
    ));
}

} // verus!
