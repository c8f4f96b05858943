//! The handshake: what a device says of itself, once, before it starts to
//! report, and what the server answers.

use vstd::prelude::*;
use vstd::slice::slice_to_vec;
use vstd::string::StringExecFns;
use vstd::utf8::{
    decode_utf8, encode_utf8, encode_utf8_decode_utf8, encode_utf8_valid_utf8, valid_utf8,
};
use crate::error::ConverterError;
use crate::sendable::{supported_version, Sendable};
use crate::text::{
    first_line, free_of, join, join_text, lemma_join_free_of, lemma_line_of, lemma_split_cons,
    lemma_split_join, lemma_split_single, line_of, split, split_text, text_bytes, utf8_string,
};

verus! {

/// What a device announces in its handshake.
///
/// `measurands[i]` is reported in `units[i]`; the readings of each later
/// measurement frame are matched to them by position.
#[derive(Debug, PartialEq)]
pub struct InitializationPacket {
    pub version: String,
    pub location: String,
    pub measurands: Vec<String>,
    pub units: Vec<String>,
}

/// The mathematical content of an `InitializationPacket`.
pub struct InitializationPacketView {
    pub version: Seq<char>,
    pub location: Seq<char>,
    pub measurands: Seq<Seq<char>>,
    pub units: Seq<Seq<char>>,
}

impl View for InitializationPacket {
    type V = InitializationPacketView;

    open spec fn view(&self) -> InitializationPacketView {
        InitializationPacketView {
            version: self.version@,
            location: self.location@,
            measurands: self.measurands.deep_view(),
            units: self.units.deep_view(),
        }
    }
}

impl InitializationPacketView {
    /// Every measurand has its unit and every unit its measurand.
    pub open spec fn well_formed(self) -> bool {
        self.measurands.len() == self.units.len()
    }
}

/// A copy of a list of strings.
fn clone_strings(strings: &Vec<String>) -> (copy: Vec<String>)
    ensures
        copy.deep_view() == strings.deep_view(),
{
    let mut copy: Vec<String> = Vec::new();
    let mut i: usize = 0;
    while i < strings.len()
        invariant
            i <= strings.len(),
            copy.len() == i,
            forall|k: int| 0 <= k < i ==> copy[k]@ == strings[k]@,
        decreases strings.len() - i,
    {
        copy.push(strings[i].clone());
        i += 1;
    }
    copy
}

impl Clone for InitializationPacket {
    fn clone(&self) -> (copy: Self)
        ensures
            copy@ == self@,
    {
        InitializationPacket {
            version: self.version.clone(),
            location: self.location.clone(),
            measurands: clone_strings(&self.measurands),
            units: clone_strings(&self.units),
        }
    }
}

impl InitializationPacket {
    /// Whether every measurand has its unit and every unit its measurand.
    pub fn is_well_formed(&self) -> (yes: bool)
        ensures
            yes == self@.well_formed(),
    {
        self.measurands.len() == self.units.len()
    }
}

/// The text of the handshake frame of `metadata`: version, location, the
/// measurands and the units, set apart by semicolons, the members of each list
/// by commas, and a line feed at the end.
pub open spec fn metadata_text(metadata: InitializationPacketView) -> Seq<char> {
    metadata.version + seq![';'] + metadata.location + seq![';'] + join(metadata.measurands, ',')
        + seq![';'] + join(metadata.units, ',') + seq!['\n']
}

/// The message for a handshake frame whose first field is `version`, which is
/// not the supported one.
pub open spec fn unknown_version_message(version: Seq<char>) -> Seq<char> {
    "Version does not exist: "@ + version
}

/// The message for a handshake frame with fewer than four fields.
pub open spec fn missing_fields_message() -> Seq<char> {
    "Frame has fewer than four fields"@
}

/// The message for a handshake frame that is not text.
pub open spec fn not_text_message() -> Seq<char> {
    "Frame is not valid UTF-8"@
}

/// What the text of a handshake frame says. Only its first line counts. The
/// version comes first and is tested first; then the frame needs its four
/// fields, and any further ones are passed over.
pub open spec fn parse_metadata(text: Seq<char>) -> Result<InitializationPacketView, Seq<char>> {
    let fields = split(line_of(text), ';');
    if fields[0] != supported_version() {
        Err(unknown_version_message(fields[0]))
    } else if fields.len() < 4 {
        Err(missing_fields_message())
    } else {
        Ok(
            InitializationPacketView {
                version: fields[0],
                location: fields[1],
                measurands: split(fields[2], ','),
                units: split(fields[3], ','),
            },
        )
    }
}

/// What the bytes of a handshake frame say. They have to be text from the
/// first to the last, though only the first line of it counts.
pub open spec fn decode_metadata(bytes: Seq<u8>) -> Result<InitializationPacketView, Seq<char>> {
    if valid_utf8(bytes) {
        parse_metadata(decode_utf8(bytes))
    } else {
        Err(not_text_message())
    }
}

/// Whether `text` holds none of the characters that set fields, list
/// members and frames apart.
pub open spec fn plain(text: Seq<char>) -> bool {
    free_of(text, ';') && free_of(text, ',') && free_of(text, '\n')
}

/// Whether a handshake frame gives `metadata` back as it was: it is of the
/// supported version, its location holds neither semicolon nor line feed,
/// each list has a member, and no member holds a separator.
pub open spec fn survives_framing(metadata: InitializationPacketView) -> bool {
    &&& metadata.version == supported_version()
    &&& free_of(metadata.location, ';')
    &&& free_of(metadata.location, '\n')
    &&& metadata.measurands.len() > 0
    &&& metadata.units.len() > 0
    &&& forall|i: int| 0 <= i < metadata.measurands.len() ==> plain(#[trigger] metadata.measurands[i])
    &&& forall|i: int| 0 <= i < metadata.units.len() ==> plain(#[trigger] metadata.units[i])
}

/// Round trip of the handshake frame: decoding what encoding made gives the
/// metadata back, for every metadata that `survives_framing`. Whether the two
/// lists are equally long does not matter here.
pub proof fn lemma_metadata_round_trip(metadata: InitializationPacketView)
    requires
        survives_framing(metadata),
    ensures
        decode_metadata(encode_utf8(metadata_text(metadata))) == Ok::<
            InitializationPacketView,
            Seq<char>,
        >(metadata),
{
    let measurands = join(metadata.measurands, ',');
    let units = join(metadata.units, ',');
    let behind_location = measurands + seq![';'] + units;
    let behind_version = metadata.location + seq![';'] + behind_location;
    let line = metadata.version + seq![';'] + behind_version;
    let text = metadata_text(metadata);
    reveal_strlit("0.0");

    lemma_join_free_of(metadata.measurands, ',', '\n');
    lemma_join_free_of(metadata.units, ',', '\n');
    assert(text =~= line + seq!['\n'] + Seq::<char>::empty());
    lemma_line_of(line, Seq::empty());

    lemma_join_free_of(metadata.measurands, ',', ';');
    lemma_join_free_of(metadata.units, ',', ';');
    lemma_split_single(units, ';');
    lemma_split_cons(measurands, units, ';');
    lemma_split_cons(metadata.location, behind_location, ';');
    lemma_split_cons(metadata.version, behind_version, ';');

    lemma_split_join(metadata.measurands, ',');
    lemma_split_join(metadata.units, ',');

    encode_utf8_valid_utf8(text);
    encode_utf8_decode_utf8(text);
}

/// A handshake frame of another version than the supported one is refused,
/// whatever else it holds, and the error names the version it claims.
pub proof fn lemma_unknown_version_is_refused(text: Seq<char>)
    requires
        split(line_of(text), ';')[0] != supported_version(),
    ensures
        decode_metadata(encode_utf8(text)) == Err::<InitializationPacketView, Seq<char>>(
            unknown_version_message(split(line_of(text), ';')[0]),
        ),
{
    encode_utf8_valid_utf8(text);
    encode_utf8_decode_utf8(text);
}

impl Sendable for InitializationPacket {
    type Item = InitializationPacket;

    open spec fn encoded(&self) -> Result<Seq<u8>, Seq<char>> {
        Ok(encode_utf8(metadata_text(self@)))
    }

    open spec fn decoded(bytes: Seq<u8>) -> Result<InitializationPacketView, Seq<char>> {
        decode_metadata(bytes)
    }

    /// The handshake frame of this metadata. Every value has one.
    fn to_bytes(self) -> (frame: Result<Vec<u8>, ConverterError>)
        ensures
            frame is Ok,
    {
        let mut text = String::new();
        text.append(self.version.as_str());
        text.push(';');
        text.append(self.location.as_str());
        text.push(';');
        let measurands = join_text(&self.measurands, ',');
        text.append(measurands.as_str());
        text.push(';');
        let units = join_text(&self.units, ',');
        text.append(units.as_str());
        text.push('\n');
        assert(text@ =~= metadata_text(self@));
        Ok(text_bytes(text.as_str()))
    }

    /// Reads a handshake frame.
    fn from_bytes(bytes: &[u8]) -> (value: Result<InitializationPacket, ConverterError>) {
        let text = match utf8_string(slice_to_vec(bytes)) {
            Some(text) => text,
            None => {
                return Err(
                    ConverterError::BytesConvertError(
                        String::from_str("Frame is not valid UTF-8"),
                    ),
                );
            },
        };
        proof {
            encode_utf8_decode_utf8(text@);
        }
        let line = first_line(text.as_str());
        let fields = split_text(line.as_str(), ';');
        assert(fields.deep_view() == split(line_of(text@), ';'));
        if !(fields[0] == String::from_str("0.0")) {
            let mut message = String::from_str("Version does not exist: ");
            message.append(fields[0].as_str());
            return Err(ConverterError::BytesConvertError(message));
        }
        if fields.len() < 4 {
            return Err(
                ConverterError::BytesConvertError(
                    String::from_str("Frame has fewer than four fields"),
                ),
            );
        }
        let measurands = split_text(fields[2].as_str(), ',');
        let units = split_text(fields[3].as_str(), ',');
        Ok(
            InitializationPacket {
                version: fields[0].clone(),
                location: fields[1].clone(),
                measurands,
                units,
            },
        )
    }
}

/// The token with which the server acknowledges a handshake: the three
/// characters `200`.
pub open spec fn ack_token() -> Seq<u8> {
    seq![0x32u8, 0x30u8, 0x30u8]
}

/// The acknowledgment token, to be written back on the control connection.
pub fn acknowledgment() -> (token: Vec<u8>)
    ensures
        token@ == ack_token(),
{
    vec![0x32u8, 0x30u8, 0x30u8]
}

/// Whether `reply` is the acknowledgment token, no more and no less.
pub fn is_ack(reply: &[u8]) -> (yes: bool)
    ensures
        yes == (reply@ == ack_token()),
{
    if reply.len() == 3 && reply[0] == 0x32u8 && reply[1] == 0x30u8 && reply[2] == 0x30u8 {
        assert(reply@ =~= ack_token());
        true
    } else {
        false
    }
}

} // verus!
