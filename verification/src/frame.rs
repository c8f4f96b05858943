//! The recurring payload: one frame of readings.

use vstd::prelude::*;
use vstd::slice::slice_subrange;
use vstd::string::StringExecFns;
use vstd::utf8::{
    encode_utf8, encode_utf8_decode_utf8, encode_utf8_valid_utf8, is_ascii_chars_encode_utf8,
    valid_utf8,
};
use crate::buffer::{
    bytes_to_words, bytes_words, fitted, lemma_words_round_trip, words_bytes, words_to_bytes,
    write_into_buffer, BUFFER_SIZE,
};
use crate::error::ConverterError;
use crate::sendable::{supported_version, Sendable};
use crate::text::{field_text, lemma_encode_utf8_concat, lossy_string, text_bytes};

verus! {

/// One frame of readings.
///
/// Each element of `data` is the bit pattern of one 32-bit IEEE 754 reading,
/// so a frame holds exactly what travels on the wire and compares bit for
/// bit. `units` and `location` describe the whole frame; a server that knows
/// the sender from its handshake takes both from there instead.
#[derive(Debug, PartialEq)]
pub struct NetworkPacket {
    pub version: String,
    pub units: String,
    pub location: String,
    pub data: Vec<u32>,
}

/// The mathematical content of a `NetworkPacket`.
pub struct NetworkPacketView {
    pub version: Seq<char>,
    pub units: Seq<char>,
    pub location: Seq<char>,
    pub data: Seq<u32>,
}

impl View for NetworkPacket {
    type V = NetworkPacketView;

    open spec fn view(&self) -> NetworkPacketView {
        NetworkPacketView {
            version: self.version@,
            units: self.units@,
            location: self.location@,
            data: self.data@,
        }
    }
}

/// Where the units start in a measurement frame. The version tag fills the
/// two bytes before them.
pub const UNITS_OFFSET: usize = 2;

/// The width of the units field.
pub const UNITS_WIDTH: usize = 10;

/// Where the location starts in a measurement frame.
pub const LOCATION_OFFSET: usize = 12;

/// The width of the location field.
pub const LOCATION_WIDTH: usize = 52;

/// Where the readings start in a measurement frame. They run to its end.
pub const VALUES_OFFSET: usize = 64;

/// How many readings fit into one measurement frame.
pub const MAX_VALUES: usize = 240;

impl Default for NetworkPacket {
    /// An empty frame of the supported version.
    fn default() -> (packet: Self)
        ensures
            packet@ == (NetworkPacketView {
                version: supported_version(),
                units: Seq::empty(),
                location: Seq::empty(),
                data: Seq::empty(),
            }),
    {
        NetworkPacket {
            version: String::from_str("0.0"),
            units: String::new(),
            location: String::new(),
            data: Vec::new(),
        }
    }
}

/// The two bytes that open a frame of the supported version: its major and
/// its minor digit.
pub open spec fn version_tag() -> Seq<u8> {
    seq![0x30u8, 0x30u8]
}

/// The measurement frame of `packet`: the version tag, then units, location
/// and readings, each fitted into its field.
pub open spec fn frame_bytes(packet: NetworkPacketView) -> Seq<u8> {
    version_tag() + fitted(encode_utf8(packet.units), UNITS_WIDTH as nat) + fitted(
        encode_utf8(packet.location),
        LOCATION_WIDTH as nat,
    ) + fitted(words_bytes(packet.data), (BUFFER_SIZE - VALUES_OFFSET) as nat)
}

/// The message for a packet that cannot be encoded because its version is
/// not the supported one.
pub open spec fn unencodable_version_message() -> Seq<char> {
    "version not existing"@
}

/// The message for a frame that opens with the bytes `major` and `minor`,
/// which are not the tag of a supported version. It names both.
pub open spec fn unsupported_tag_message(major: u8, minor: u8) -> Seq<char> {
    "version not existing: "@ + seq![major as char, '.', minor as char]
}

/// The message for a frame that ends before its fixed fields do.
pub open spec fn cut_short_message() -> Seq<char> {
    "Frame is cut short"@
}

/// What encoding makes of `packet`.
pub open spec fn encode_frame(packet: NetworkPacketView) -> Result<Seq<u8>, Seq<char>> {
    if packet.version == supported_version() {
        Ok(frame_bytes(packet))
    } else {
        Err(unencodable_version_message())
    }
}

/// What the bytes of a measurement frame say.
///
/// The version tag is read first and tested first; a frame with the right
/// tag and all its fixed fields is never refused. The text fields come back
/// at their full width, zero bytes included, each read as `field_text` says.
/// Everything behind the fixed fields is readings, four bytes each.
pub open spec fn decode_frame(bytes: Seq<u8>) -> Result<NetworkPacketView, Seq<char>> {
    let units = bytes.subrange(UNITS_OFFSET as int, LOCATION_OFFSET as int);
    let location = bytes.subrange(LOCATION_OFFSET as int, VALUES_OFFSET as int);
    if bytes.len() < UNITS_OFFSET {
        Err(cut_short_message())
    } else if bytes[0] != 0x30u8 || bytes[1] != 0x30u8 {
        Err(unsupported_tag_message(bytes[0], bytes[1]))
    } else if bytes.len() < VALUES_OFFSET {
        Err(cut_short_message())
    } else {
        Ok(
            NetworkPacketView {
                version: supported_version(),
                units: field_text(units),
                location: field_text(location),
                data: bytes_words(bytes.skip(VALUES_OFFSET as int)),
            },
        )
    }
}

/// `count` characters of code zero.
pub open spec fn nuls(count: nat) -> Seq<char> {
    Seq::new(count, |i: int| '\0')
}

/// `text` with as many characters of code zero behind it as bring its bytes
/// to `width`.
pub open spec fn padded_text(text: Seq<char>, width: nat) -> Seq<char> {
    text + nuls((width - encode_utf8(text).len()) as nat)
}

/// Whether a frame holds all of `packet`: it is of the supported version,
/// and neither its texts nor its readings are wider than their fields.
pub open spec fn fits_frame(packet: NetworkPacketView) -> bool {
    &&& packet.version == supported_version()
    &&& encode_utf8(packet.units).len() <= UNITS_WIDTH
    &&& encode_utf8(packet.location).len() <= LOCATION_WIDTH
    &&& packet.data.len() <= MAX_VALUES
}

/// Whether `packet` fills its frame: it fits, and every field is used to its
/// last byte.
pub open spec fn fills_frame(packet: NetworkPacketView) -> bool {
    &&& packet.version == supported_version()
    &&& encode_utf8(packet.units).len() == UNITS_WIDTH
    &&& encode_utf8(packet.location).len() == LOCATION_WIDTH
    &&& packet.data.len() == MAX_VALUES
}

/// `packet` as it comes back from its frame: each text followed by
/// characters of code zero up to the width of its field, the readings by
/// zero words up to `MAX_VALUES`.
pub open spec fn padded(packet: NetworkPacketView) -> NetworkPacketView {
    NetworkPacketView {
        version: packet.version,
        units: padded_text(packet.units, UNITS_WIDTH as nat),
        location: padded_text(packet.location, LOCATION_WIDTH as nat),
        data: packet.data + Seq::new((MAX_VALUES - packet.data.len()) as nat, |i: int| 0u32),
    }
}

/// A text field that is not full reads back as the text with characters of
/// code zero behind it.
proof fn lemma_field_reads_padded(text: Seq<char>, width: nat)
    requires
        encode_utf8(text).len() <= width,
    ensures
        fitted(encode_utf8(text), width) == encode_utf8(padded_text(text, width)),
        valid_utf8(fitted(encode_utf8(text), width)),
        field_text(fitted(encode_utf8(text), width)) == padded_text(text, width),
{
    let fill = nuls((width - encode_utf8(text).len()) as nat);
    is_ascii_chars_encode_utf8(fill);
    lemma_encode_utf8_concat(text, fill);
    assert(fitted(encode_utf8(text), width) =~= encode_utf8(text) + encode_utf8(fill));
    encode_utf8_valid_utf8(padded_text(text, width));
    encode_utf8_decode_utf8(padded_text(text, width));
}

/// Readings that do not fill the payload read back with zero words behind
/// them.
proof fn lemma_payload_reads_padded(data: Seq<u32>)
    requires
        data.len() <= MAX_VALUES,
    ensures
        bytes_words(fitted(words_bytes(data), (4 * MAX_VALUES) as nat)) == data + Seq::new(
            (MAX_VALUES - data.len()) as nat,
            |i: int| 0u32,
        ),
{
    let full = data + Seq::new((MAX_VALUES - data.len()) as nat, |i: int| 0u32);
    let payload = fitted(words_bytes(data), (4 * MAX_VALUES) as nat);
    assert((0u32 & 0xff) as u8 == 0 && ((0u32 >> 8) & 0xff) as u8 == 0 && ((0u32 >> 16) & 0xff) as u8
        == 0 && ((0u32 >> 24) & 0xff) as u8 == 0) by (bit_vector);
    assert forall|i: int| 0 <= i < 4 * MAX_VALUES implies payload[i] == words_bytes(full)[i] by {}
    lemma_words_round_trip(full);
}

/// Round trip of the measurement frame, for every packet that fits: decoding
/// what encoding made gives the packet back with each field padded to its
/// width.
pub proof fn lemma_frame_round_trip_padded(packet: NetworkPacketView)
    requires
        fits_frame(packet),
    ensures
        encode_frame(packet) == Ok::<Seq<u8>, Seq<char>>(frame_bytes(packet)),
        decode_frame(frame_bytes(packet)) == Ok::<NetworkPacketView, Seq<char>>(padded(packet)),
{
    let frame = frame_bytes(packet);
    let units = fitted(encode_utf8(packet.units), UNITS_WIDTH as nat);
    let location = fitted(encode_utf8(packet.location), LOCATION_WIDTH as nat);
    let payload = fitted(words_bytes(packet.data), (BUFFER_SIZE - VALUES_OFFSET) as nat);
    assert(frame.subrange(UNITS_OFFSET as int, LOCATION_OFFSET as int) =~= units);
    assert(frame.subrange(LOCATION_OFFSET as int, VALUES_OFFSET as int) =~= location);
    assert(frame.skip(VALUES_OFFSET as int) =~= payload);
    lemma_field_reads_padded(packet.units, UNITS_WIDTH as nat);
    lemma_field_reads_padded(packet.location, LOCATION_WIDTH as nat);
    lemma_payload_reads_padded(packet.data);
}

/// Round trip of the measurement frame: decoding what encoding made gives
/// the packet back as it was, for every packet that fills its frame.
pub proof fn lemma_frame_round_trip(packet: NetworkPacketView)
    requires
        fills_frame(packet),
    ensures
        encode_frame(packet) == Ok::<Seq<u8>, Seq<char>>(frame_bytes(packet)),
        decode_frame(frame_bytes(packet)) == Ok::<NetworkPacketView, Seq<char>>(packet),
{
    lemma_frame_round_trip_padded(packet);
}

/// A frame that does not open with the tag of the supported version is
/// refused, whatever else it holds and however long it is, and the error
/// names the two bytes it opens with.
pub proof fn lemma_unknown_tag_is_refused(bytes: Seq<u8>)
    requires
        bytes.len() >= 2,
        bytes.subrange(0, 2) != version_tag(),
    ensures
        decode_frame(bytes) == Err::<NetworkPacketView, Seq<char>>(
            unsupported_tag_message(bytes[0], bytes[1]),
        ),
{
    if bytes[0] == 0x30u8 && bytes[1] == 0x30u8 {
        assert(bytes.subrange(0, 2) =~= version_tag());
    }
}

/// Bytes too few to hold a version tag are refused as well.
pub proof fn lemma_no_tag_is_refused(bytes: Seq<u8>)
    requires
        bytes.len() < 2,
    ensures
        decode_frame(bytes) == Err::<NetworkPacketView, Seq<char>>(cut_short_message()),
{
}

/// Every frame is `BUFFER_SIZE` bytes long and opens with the version tag,
/// however many readings the packet holds and however wide its texts are.
pub proof fn lemma_frame_size(packet: NetworkPacketView)
    ensures
        frame_bytes(packet).len() == BUFFER_SIZE,
        frame_bytes(packet).subrange(0, UNITS_OFFSET as int) == version_tag(),
{
}

/// What a text field of a frame holds: the bytes of the text as far as they
/// fit, and zero bytes behind them where the text is shorter.
pub proof fn lemma_frame_text_fields(packet: NetworkPacketView)
    ensures
        frame_bytes(packet).subrange(UNITS_OFFSET as int, LOCATION_OFFSET as int) == fitted(
            encode_utf8(packet.units),
            UNITS_WIDTH as nat,
        ),
        frame_bytes(packet).subrange(LOCATION_OFFSET as int, VALUES_OFFSET as int) == fitted(
            encode_utf8(packet.location),
            LOCATION_WIDTH as nat,
        ),
        frame_bytes(packet).skip(VALUES_OFFSET as int) == fitted(
            words_bytes(packet.data),
            (BUFFER_SIZE - VALUES_OFFSET) as nat,
        ),
{
}

/// The packet of the supported version with these texts, and with the
/// readings that `payload` holds, four bytes each.
pub fn packet_of_fields(units: String, location: String, payload: &[u8]) -> (packet: NetworkPacket)
    ensures
        packet@ == (NetworkPacketView {
            version: supported_version(),
            units: units@,
            location: location@,
            data: bytes_words(payload@),
        }),
{
    NetworkPacket {
        version: String::from_str("0.0"),
        units,
        location,
        data: bytes_to_words(payload),
    }
}

/// A frame is read exactly when it opens with the tag of the supported
/// version and holds all its fixed fields; whatever its text fields hold is
/// no reason to refuse it. It then has one reading for every four bytes
/// behind the fixed fields.
pub proof fn lemma_tagged_frame_is_read(bytes: Seq<u8>)
    ensures
        decode_frame(bytes) is Ok <==> bytes.len() >= VALUES_OFFSET && bytes[0] == 0x30u8
            && bytes[1] == 0x30u8,
        decode_frame(bytes) matches Ok(packet) ==> {
            &&& packet.version == supported_version()
            &&& packet.data == bytes_words(bytes.skip(VALUES_OFFSET as int))
            &&& packet.data.len() == (bytes.len() - VALUES_OFFSET) / 4
        },
{
}

impl Sendable for NetworkPacket {
    type Item = NetworkPacket;

    open spec fn encoded(&self) -> Result<Seq<u8>, Seq<char>> {
        encode_frame(self@)
    }

    open spec fn decoded(bytes: Seq<u8>) -> Result<NetworkPacketView, Seq<char>> {
        decode_frame(bytes)
    }

    /// The measurement frame of this packet: always `BUFFER_SIZE` bytes.
    /// Text that is wider than its field is cut, and so are readings beyond
    /// `MAX_VALUES`; neither is an error. Only a packet of another version
    /// than the supported one has no frame.
    fn to_bytes(self) -> (frame: Result<Vec<u8>, ConverterError>)
        ensures
            frame matches Ok(bytes) ==> bytes.len() == BUFFER_SIZE,
    {
        if !(self.version == String::from_str("0.0")) {
            return Err(
                ConverterError::BytesConvertError(String::from_str("version not existing")),
            );
        }
        let mut bytes = vec![0u8; BUFFER_SIZE];
        bytes.set(0, 0x30u8);
        bytes.set(1, 0x30u8);
        let units = text_bytes(self.units.as_str());
        write_into_buffer(&mut bytes, units.as_slice(), UNITS_OFFSET, Some(UNITS_WIDTH));
        let location = text_bytes(self.location.as_str());
        write_into_buffer(&mut bytes, location.as_slice(), LOCATION_OFFSET, Some(LOCATION_WIDTH));
        let payload = words_to_bytes(&self.data, MAX_VALUES);
        write_into_buffer(&mut bytes, payload.as_slice(), VALUES_OFFSET, None);
        assert(bytes@ =~= frame_bytes(self@));
        Ok(bytes)
    }

    /// Reads a measurement frame. Only a frame of another version, or one
    /// too short for its fixed fields, is refused.
    fn from_bytes(bytes: &[u8]) -> (value: Result<NetworkPacket, ConverterError>) {
        if bytes.len() < UNITS_OFFSET {
            return Err(ConverterError::BytesConvertError(String::from_str("Frame is cut short")));
        }
        let major = bytes[0];
        let minor = bytes[1];
        if major != 0x30u8 || minor != 0x30u8 {
            let mut message = String::from_str("version not existing: ");
            message.push(major as char);
            message.push('.');
            message.push(minor as char);
            assert(message@ =~= unsupported_tag_message(major, minor));
            return Err(ConverterError::BytesConvertError(message));
        }
        if bytes.len() < VALUES_OFFSET {
            return Err(ConverterError::BytesConvertError(String::from_str("Frame is cut short")));
        }
        let units = lossy_string(slice_subrange(bytes, UNITS_OFFSET, LOCATION_OFFSET));
        let location = lossy_string(slice_subrange(bytes, LOCATION_OFFSET, VALUES_OFFSET));
        Ok(packet_of_fields(units, location, slice_subrange(bytes, VALUES_OFFSET, bytes.len())))
    }
}

} // verus!
