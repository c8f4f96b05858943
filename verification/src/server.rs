//! What the ingestion server decides between its network reads and its
//! storage writes.

use vstd::prelude::*;
use crate::error::{ConfigError, ConverterError};
use crate::frame::{decode_frame, NetworkPacket, NetworkPacketView};
use crate::metadata::{
    ack_token, acknowledgment, decode_metadata, InitializationPacket, InitializationPacketView,
};
use crate::registry::{IpAddress, Registry};
use crate::sendable::Sendable;

verus! {

/// One row for the storage sink: a reading, with the site it was taken at,
/// the quantity it measures and the unit it is given in. `value` is the bit
/// pattern of the reading, as in the frame it came in.
#[derive(Debug, PartialEq)]
pub struct StorageWrite {
    pub location: String,
    pub measurand: String,
    pub value: u32,
    pub unit: String,
}

/// The mathematical content of a `StorageWrite`.
pub struct StorageWriteView {
    pub location: Seq<char>,
    pub measurand: Seq<char>,
    pub value: u32,
    pub unit: Seq<char>,
}

impl View for StorageWrite {
    type V = StorageWriteView;

    open spec fn view(&self) -> StorageWriteView {
        StorageWriteView {
            location: self.location@,
            measurand: self.measurand@,
            value: self.value,
            unit: self.unit@,
        }
    }
}

impl DeepView for StorageWrite {
    type V = StorageWriteView;

    open spec fn deep_view(&self) -> StorageWriteView {
        self@
    }
}

/// What to store for one accepted datagram.
#[derive(Debug, PartialEq)]
pub struct IngestPlan {
    /// The rows to write, in the order of the readings.
    pub writes: Vec<StorageWrite>,
    /// Whether the frame held more or fewer readings than the sender
    /// announced, or the sender announced unequal lists. The rows that could
    /// be paired are written all the same; this is to be reported. A frame
    /// of full size always holds `MAX_VALUES` readings, padding included.
    pub length_mismatch: bool,
}

/// The mathematical content of an `IngestPlan`.
pub struct IngestPlanView {
    pub writes: Seq<StorageWriteView>,
    pub length_mismatch: bool,
}

impl View for IngestPlan {
    type V = IngestPlanView;

    open spec fn view(&self) -> IngestPlanView {
        IngestPlanView { writes: self.writes.deep_view(), length_mismatch: self.length_mismatch }
    }
}

/// The least of three lengths.
pub open spec fn least(a: nat, b: nat, c: nat) -> nat {
    if a <= b && a <= c {
        a
    } else if b <= c {
        b
    } else {
        c
    }
}

/// The rows that pair the readings `data` with what `metadata` announced,
/// each stored under `location`: reading `i` with measurand `i` and unit `i`,
/// as far as all three lists reach.
pub open spec fn paired_writes(
    location: Seq<char>,
    metadata: InitializationPacketView,
    data: Seq<u32>,
) -> Seq<StorageWriteView> {
    Seq::new(
        least(data.len(), metadata.measurands.len(), metadata.units.len()),
        |i: int|
            StorageWriteView {
                location,
                measurand: metadata.measurands[i],
                value: data[i],
                unit: metadata.units[i],
            },
    )
}

/// Whether `paired_writes` leaves something out: the sender announced
/// unequal lists, or the frame holds another number of readings than it
/// announced.
pub open spec fn lengths_differ(metadata: InitializationPacketView, data: Seq<u32>) -> bool {
    !metadata.well_formed() || data.len() != metadata.measurands.len()
}

/// The plan for the readings `data` of a sender that announced `metadata`,
/// stored under `location`.
pub open spec fn ingest_plan(
    location: Seq<char>,
    metadata: InitializationPacketView,
    data: Seq<u32>,
) -> IngestPlanView {
    IngestPlanView {
        writes: paired_writes(location, metadata, data),
        length_mismatch: lengths_differ(metadata, data),
    }
}

/// Readings beyond what the sender announced change no row: a frame may be
/// padded, or hold more than was announced, and the rows are those of the
/// announced readings alone.
pub proof fn lemma_surplus_readings_add_no_rows(
    location: Seq<char>,
    metadata: InitializationPacketView,
    data: Seq<u32>,
    surplus: Seq<u32>,
)
    requires
        metadata.measurands.len() <= data.len() || metadata.units.len() <= data.len(),
    ensures
        paired_writes(location, metadata, data + surplus) == paired_writes(
            location,
            metadata,
            data,
        ),
{
}

/// Pairs the readings of `packet` with what their sender announced in
/// `metadata`, each row to be stored under `location`.
pub fn pair_readings(
    location: &String,
    metadata: &InitializationPacket,
    packet: &NetworkPacket,
) -> (plan: IngestPlan)
    ensures
        plan@ == ingest_plan(location@, metadata@, packet@.data),
{
    let count = packet.data.len();
    let count = if metadata.measurands.len() < count { metadata.measurands.len() } else { count };
    let count = if metadata.units.len() < count { metadata.units.len() } else { count };
    let mut writes: Vec<StorageWrite> = Vec::new();
    let mut i: usize = 0;
    while i < count
        invariant
            i <= count,
            count == least(
                packet@.data.len(),
                metadata@.measurands.len(),
                metadata@.units.len(),
            ),
            writes.len() == i,
            forall|k: int|
                0 <= k < i ==> writes[k]@ == paired_writes(location@, metadata@, packet@.data)[k],
        decreases count - i,
    {
        writes.push(
            StorageWrite {
                location: location.clone(),
                measurand: metadata.measurands[i].clone(),
                value: packet.data[i],
                unit: metadata.units[i].clone(),
            },
        );
        i += 1;
    }
    assert(writes.deep_view() =~= paired_writes(location@, metadata@, packet@.data));
    let length_mismatch = !(packet.data.len() == metadata.measurands.len() && packet.data.len()
        == metadata.units.len());
    IngestPlan { writes, length_mismatch }
}

/// What the server does with a decoded measurement from `address`.
///
/// A sender without a session is refused, and nothing is to be stored for it.
/// For a sender with a session, the readings are paired with the metadata of
/// that session and stored under its location, as it was announced.
pub fn handle_data(address: &IpAddress, packet: &NetworkPacket, registry: &Registry) -> (outcome:
    Result<IngestPlan, ConfigError>)
    ensures
        outcome is Ok <==> registry@.contains_key(*address),
        match outcome {
            Ok(plan) => plan@ == ingest_plan(
                registry@[*address].location,
                registry@[*address],
                packet@.data,
            ),
            Err(refusal) => refusal == ConfigError::NotConfigured(*address),
        },
{
    match registry.lookup(address) {
        Some(metadata) => {
            Ok(pair_readings(&metadata.location, &metadata, packet))
        },
        None => Err(ConfigError::NotConfigured(*address)),
    }
}

/// What the server does with one datagram.
#[derive(Debug, PartialEq)]
pub enum DatagramOutcome {
    /// The datagram is a frame from a configured sender: store this.
    Accepted(IngestPlan),
    /// The datagram is no frame. It is dropped.
    Undecodable(ConverterError),
    /// The datagram is a frame, but its sender has no session. It is dropped.
    Unconfigured(ConfigError),
}

/// Decides what becomes of the `datagram` that arrived from `address`.
///
/// It is decoded first, so a datagram that is no frame is dropped as such
/// whoever sent it. A frame is then handled as `handle_data` says. Rows are
/// planned for a frame from a configured sender and for nothing else. A
/// caller that guards the registry with a lock may decode before it takes the
/// lock and call `handle_data` under it, to the same end.
pub fn handle_datagram(address: &IpAddress, datagram: &[u8], registry: &Registry) -> (outcome:
    DatagramOutcome)
    ensures
        outcome is Undecodable <==> decode_frame(datagram@) is Err,
        outcome is Accepted <==> decode_frame(datagram@) is Ok && registry@.contains_key(*address),
        match outcome {
            DatagramOutcome::Accepted(plan) => {
                &&& decode_frame(datagram@) is Ok
                &&& registry@.contains_key(*address)
                &&& plan@ == ingest_plan(
                    registry@[*address].location,
                    registry@[*address],
                    decode_frame(datagram@)->Ok_0.data,
                )
            },
            DatagramOutcome::Undecodable(error) => decode_frame(datagram@) == Err::<
                NetworkPacketView,
                Seq<char>,
            >(error@),
            DatagramOutcome::Unconfigured(refusal) => {
                &&& decode_frame(datagram@) is Ok
                &&& !registry@.contains_key(*address)
                &&& refusal == ConfigError::NotConfigured(*address)
            },
        },
{
    match NetworkPacket::from_bytes(datagram) {
        Ok(packet) => match handle_data(address, &packet, registry) {
            Ok(plan) => DatagramOutcome::Accepted(plan),
            Err(refusal) => DatagramOutcome::Unconfigured(refusal),
        },
        Err(error) => DatagramOutcome::Undecodable(error),
    }
}

/// What the server does next while it reads a handshake frame.
#[derive(Debug, PartialEq, Eq, Structural, Clone, Copy)]
pub enum ReadStep {
    /// The frame has not ended yet: read on.
    Continue,
    /// The frame is complete: decode it.
    Complete,
    /// The stream ended before the frame did: give the handshake up.
    Abort,
}

/// What follows from `received`, all that was read so far, and `bytes_read`,
/// the size of the last read: a frame is complete once it ends in a line
/// feed, and a read of nothing before that is the end of the stream.
pub open spec fn read_step(received: Seq<u8>, bytes_read: nat) -> ReadStep {
    if received.len() > 0 && received.last() == 0x0au8 {
        ReadStep::Complete
    } else if bytes_read == 0 {
        ReadStep::Abort
    } else {
        ReadStep::Continue
    }
}

/// Decides after each read of a handshake whether to read on, to decode or
/// to give up.
pub fn after_read(received: &[u8], bytes_read: usize) -> (step: ReadStep)
    ensures
        step == read_step(received@, bytes_read as nat),
{
    if received.len() > 0 && received[received.len() - 1] == 0x0au8 {
        ReadStep::Complete
    } else if bytes_read == 0 {
        ReadStep::Abort
    } else {
        ReadStep::Continue
    }
}

/// Takes the handshake `frame` that arrived from `address`.
///
/// A frame that decodes becomes the session of `address`, in place of any
/// earlier one, and the acknowledgment token is returned for the device. A
/// frame that does not decode changes nothing.
pub fn handle_initialization(address: IpAddress, frame: &[u8], registry: &mut Registry) -> (reply:
    Result<Vec<u8>, ConverterError>)
    ensures
        reply is Ok <==> decode_metadata(frame@) is Ok,
        match reply {
            Ok(token) => {
                &&& decode_metadata(frame@) is Ok
                &&& token@ == ack_token()
                &&& final(registry)@ == old(registry)@.insert(
                    address,
                    decode_metadata(frame@)->Ok_0,
                )
            },
            Err(error) => {
                &&& decode_metadata(frame@) == Err::<InitializationPacketView, Seq<char>>(error@)
                &&& final(registry)@ == old(registry)@
            },
        },
{
    match InitializationPacket::from_bytes(frame) {
        Ok(metadata) => {
            registry.register(address, metadata);
            Ok(acknowledgment())
        },
        Err(error) => Err(error),
    }
}

} // verus!
