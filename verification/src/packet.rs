//! Raw packets and where they came from.
use vstd::prelude::*;

verus! {

/// A capture time, in nanoseconds since the Unix epoch.
#[derive(Debug, Clone, Copy, PartialEq, Eq, Structural)]
pub struct Timestamp {
    /// Nanoseconds since the epoch.
    pub nanos: i128,
}

/// The later of a time seen so far and a new one.
pub open spec fn later(seen: Option<Timestamp>, t: Timestamp) -> Timestamp {
    match seen {
        Some(s) => if t.nanos > s.nanos {
            t
        } else {
            s
        },
        None => t,
    }
}

/// The newest capture time seen so far. The sweep at the end of a run measures
/// against it, so that a result is a function of the bytes rather than of how
/// fast they were read.
#[derive(Debug, Clone, Copy, PartialEq, Eq, Structural)]
pub struct SweepClock {
    /// The newest time observed, `None` before the first.
    pub latest: Option<Timestamp>,
}

impl SweepClock {
    /// A clock that has observed nothing.
    pub fn new() -> (r: Self)
        ensures
            r.latest is None,
    {
        SweepClock { latest: None }
    }

    /// Observe one capture time; only the maximum is kept.
    pub fn observe(&mut self, t: Timestamp)
        ensures
            final(self).latest == Some(later(old(self).latest, t)),
    {
        self.latest = match self.latest {
            Some(s) => if t.nanos > s.nanos {
                Some(t)
            } else {
                Some(s)
            },
            None => Some(t),
        };
    }
}

/// Which frame of its file a packet is.
#[derive(Debug, Clone, Copy, PartialEq, Eq, Structural)]
pub struct FrameOrigin {
    /// Position in the file, counted from zero.
    pub ordinal: u64,
    /// Digest of the frame's bytes, once it has been computed.
    pub digest: Option<u64>,
}

/// One raw packet of a capture.
#[derive(Debug, Clone)]
pub struct Packet {
    /// When it was captured.
    pub timestamp: Timestamp,
    /// The captured bytes.
    pub data: Vec<u8>,
    /// How many bytes were captured.
    pub caplen: usize,
    /// How many bytes were on the wire.
    pub origlen: usize,
    /// The file or interface it was read from.
    pub source: Option<String>,
    /// The capture's datalink number.
    pub link_type: i32,
    /// Which frame of its file it is; `None` where it came from no file.
    pub origin: Option<FrameOrigin>,
}

/// First value of the FNV-1a hash in 64 bits.
pub const FNV_OFFSET: u64 = 0xcbf2_9ce4_8422_2325;

/// Multiplier of the FNV-1a hash in 64 bits.
pub const FNV_PRIME: u64 = 0x100_0000_01b3;

/// The FNV-1a hash of a run of bytes, in 64 bits.
pub open spec fn fnv1a(bytes: Seq<u8>) -> u64
    decreases bytes.len(),
{
    if bytes.len() == 0 {
        FNV_OFFSET
    } else {
        (fnv1a(bytes.drop_last()) ^ bytes.last() as u64).wrapping_mul(FNV_PRIME)
    }
}

/// The digest that names a frame's bytes.
pub fn frame_digest(bytes: &[u8]) -> (r: u64)
    ensures
        r == fnv1a(bytes@),
{
    let mut h: u64 = FNV_OFFSET;
    let mut i: usize = 0;
    while i < bytes.len()
        invariant
            i <= bytes.len(),
            h == fnv1a(bytes@.take(i as int)),
        decreases bytes.len() - i,
    {
        h = (h ^ bytes[i] as u64).wrapping_mul(FNV_PRIME);
        i += 1;
        assert(bytes@.take(i as int).drop_last() =~= bytes@.take(i - 1));
    }
    assert(bytes@.take(i as int) =~= bytes@);
    h
}

/// A packet with its frame's digest filled in where the reader left it empty.
pub open spec fn digested(packet: Packet) -> Packet {
    Packet {
        origin: match packet.origin {
            Some(o) => Some(
                FrameOrigin {
                    ordinal: o.ordinal,
                    digest: if o.digest is Some {
                        o.digest
                    } else {
                        Some(fnv1a(packet.data@))
                    },
                },
            ),
            None => None,
        },
        ..packet
    }
}

/// Fill in the frame digest that the reader left empty.
///
/// A packet that came from no file is left alone rather than given an origin,
/// and a digest already present is not computed again.
pub fn stamp_digest(packet: &mut Packet)
    ensures
        *final(packet) == digested(*old(packet)),
{
    if let Some(o) = packet.origin {
        if o.digest.is_none() {
            let digest: u64 = frame_digest(&packet.data);
            packet.origin = Some(FrameOrigin { ordinal: o.ordinal, digest: Some(digest) });
        }
    }
}

/// Filling in a digest a second time changes nothing, and a packet without an
/// origin is never given one.
pub proof fn a_digest_is_filled_in_once(packet: Packet)
    ensures
        digested(digested(packet)) == digested(packet),
        packet.origin is None ==> digested(packet) == packet,
{
}

} // verus!
