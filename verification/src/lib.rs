//! Codec for unnumbered LLC frames with the SNAP extension.
//!
//! A SNAP-LLC frame starts with a fixed eight-byte header — DSAP and SSAP
//! (both `0xaa`), an "unnumbered" control octet, a three-byte OUI and a
//! little-endian 16-bit protocol identifier — followed by an opaque payload
//! that runs to the end of the enclosing buffer.

use vstd::prelude::*;

verus! {

/// The value DSAP and SSAP carry when the SNAP extension is in use.
pub const SNAP_CODE: u8 = 0xaa;

/// The control octet written on encode: the two low bits set, marking the
/// frame as unnumbered, all other bits zero.
pub const UNNUMBERED_CONTROL: u8 = 0x03;

/// Bytes of fixed header before the payload: DSAP, SSAP, control, three
/// bytes of OUI and two bytes of protocol identifier.
pub const HEADER_LEN: usize = 8;

/// The header field whose fixed-value check failed during decoding.
#[derive(Clone, Copy, Debug, PartialEq, Eq)]
pub enum LlcField {
    Dsap,
    Ssap,
    Control,
}

/// Why a buffer failed to decode as a SNAP-LLC frame.
#[derive(Clone, Copy, Debug, PartialEq, Eq)]
pub enum DecodeError {
    /// The buffer is shorter than the fixed header.
    Truncated,
    /// A fixed field did not hold its required value.
    BadConstant(LlcField),
}

/// Why a frame failed to encode.
#[derive(Clone, Copy, Debug, PartialEq, Eq)]
pub enum EncodeError {
    /// The output buffer cannot hold the encoded frame.
    BufferTooSmall,
}

/// An unnumbered LLC frame, with the SNAP extension.
///
/// DSAP and SSAP are fixed to [`SNAP_CODE`] and the two low bits of the
/// control field are set; neither is stored here, since decoding rejects
/// any other value and encoding always writes the fixed pattern.
#[derive(Clone, Debug, PartialEq, Eq)]
pub struct SnapLlcFrame {
    /// The organizationally unique identifier.
    ///
    /// In most cases this is just all zeroes.
    pub oui: [u8; 3],
    /// The identifier of the protocol carried in the payload, as the raw
    /// 16-bit value found on the wire (little-endian there). When the OUI
    /// is all zeroes this is an EtherType-style protocol number; resolving
    /// it to a named protocol is the caller's concern.
    pub protocol_id: u16,
    /// The payload of the LLC frame: the bytes after the fixed header.
    pub payload: Vec<u8>,
}

/// The mathematical content of a [`SnapLlcFrame`].
#[verifier::ext_equal]
pub struct FrameModel {
    pub oui: Seq<u8>,
    pub protocol_id: u16,
    pub payload: Seq<u8>,
}

impl View for SnapLlcFrame {
    type V = FrameModel;

    open spec fn view(&self) -> FrameModel {
        FrameModel { oui: self.oui@, protocol_id: self.protocol_id, payload: self.payload@ }
    }
}

/// The two bytes of a 16-bit value in little-endian order.
pub open spec fn le16_bytes(v: u16) -> Seq<u8> {
    seq![(v % 256) as u8, (v / 256) as u8]
}

/// The 16-bit value read from two bytes in little-endian order.
pub open spec fn le16_value(lo: u8, hi: u8) -> u16 {
    (lo + 256 * (hi as u16)) as u16
}

/// The exact byte sequence that encodes a frame: the fixed header followed
/// by the payload.
pub open spec fn spec_encoding(m: FrameModel) -> Seq<u8> {
    seq![SNAP_CODE, SNAP_CODE, UNNUMBERED_CONTROL] + m.oui + le16_bytes(m.protocol_id)
        + m.payload
}

/// A well-formed frame model: the OUI is exactly three bytes, as it is for
/// the view of every [`SnapLlcFrame`].
pub open spec fn wf(m: FrameModel) -> bool {
    m.oui.len() == 3
}

/// What decoding a byte sequence yields: the frame and the number of bytes
/// consumed, or the first error the sequential field checks hit.
///
/// The whole tail after the fixed header becomes the payload, so a
/// successful decode always consumes the entire buffer; the caller must
/// have trimmed the buffer to the frame's true extent.
pub open spec fn spec_decode(b: Seq<u8>) -> Result<(FrameModel, int), DecodeError> {
    if b.len() < HEADER_LEN {
        Err(DecodeError::Truncated)
    } else if b[0] != SNAP_CODE {
        Err(DecodeError::BadConstant(LlcField::Dsap))
    } else if b[1] != SNAP_CODE {
        Err(DecodeError::BadConstant(LlcField::Ssap))
    } else if b[2] & UNNUMBERED_CONTROL != UNNUMBERED_CONTROL {
        Err(DecodeError::BadConstant(LlcField::Control))
    } else {
        Ok(
            (
                FrameModel {
                    oui: b.subrange(3, 6),
                    protocol_id: le16_value(b[6], b[7]),
                    payload: b.skip(HEADER_LEN as int),
                },
                b.len() as int,
            ),
        )
    }
}

impl SnapLlcFrame {
    /// Decode a SNAP-LLC frame from `from`, returning the frame and the
    /// number of bytes consumed.
    ///
    /// The fixed header is validated field by field: DSAP and SSAP must be
    /// [`SNAP_CODE`] and the two low bits of the control octet must both be
    /// set (any further control bits are accepted). The three OUI bytes are
    /// copied verbatim, the protocol identifier is read little-endian, and
    /// every remaining byte becomes the payload.
    pub fn try_from_ctx(from: &[u8]) -> (r: Result<(Self, usize), DecodeError>)
        ensures
            match r {
                Ok((f, n)) => spec_decode(from@) == Ok::<_, DecodeError>((f@, n as int)),
                Err(e) => spec_decode(from@) == Err::<(FrameModel, int), _>(e),
            },
    {
        let n = from.len();
        if n < HEADER_LEN {
            return Err(DecodeError::Truncated);
        }
        if from[0] != SNAP_CODE {
            return Err(DecodeError::BadConstant(LlcField::Dsap));
        }
        if from[1] != SNAP_CODE {
            return Err(DecodeError::BadConstant(LlcField::Ssap));
        }
        if from[2] & UNNUMBERED_CONTROL != UNNUMBERED_CONTROL {
            return Err(DecodeError::BadConstant(LlcField::Control));
        }
        let oui = [from[3], from[4], from[5]];
        let protocol_id: u16 = from[6] as u16 + 256 * (from[7] as u16);
        let mut payload: Vec<u8> = Vec::new();
        let mut i: usize = HEADER_LEN;
        while i < n
            invariant
                HEADER_LEN <= i <= n,
                n == from@.len(),
                payload@ == from@.subrange(HEADER_LEN as int, i as int),
            decreases n - i,
        {
            payload.push(from[i]);
            i = i + 1;
        }
        proof {
            assert(payload@ =~= from@.skip(HEADER_LEN as int));
            assert(oui@ =~= from@.subrange(3, 6));
        }
        let frame = SnapLlcFrame { oui, protocol_id, payload };
        Ok((frame, n))
    }

    /// Encode this frame into the front of `buf`, returning the number of
    /// bytes written.
    ///
    /// The capacity check comes first: if `buf` is shorter than the encoded
    /// frame, nothing is written at all. On success the encoding occupies
    /// `buf[..r]` and every byte past it keeps its old value.
    pub fn try_into_ctx(&self, buf: &mut Vec<u8>) -> (r: Result<usize, EncodeError>)
        requires
            self.payload@.len() <= usize::MAX - HEADER_LEN,
        ensures
            match r {
                Ok(n) => {
                    &&& n == spec_encoding(self@).len()
                    &&& old(buf)@.len() >= n
                    &&& final(buf)@ == spec_encoding(self@) + old(buf)@.skip(n as int)
                },
                Err(e) => {
                    &&& e == EncodeError::BufferTooSmall
                    &&& old(buf)@.len() < spec_encoding(self@).len()
                    &&& final(buf)@ == old(buf)@
                },
            },
    {
        let total = HEADER_LEN + self.payload.len();
        if buf.len() < total {
            return Err(EncodeError::BufferTooSmall);
        }
        buf[0] = SNAP_CODE;
        buf[1] = SNAP_CODE;
        buf[2] = UNNUMBERED_CONTROL;
        buf[3] = self.oui[0];
        buf[4] = self.oui[1];
        buf[5] = self.oui[2];
        buf[6] = (self.protocol_id % 256) as u8;
        buf[7] = (self.protocol_id / 256) as u8;
        let mut i: usize = 0;
        while i < self.payload.len()
            invariant
                i <= self.payload@.len(),
                self.payload@.len() <= usize::MAX - HEADER_LEN,
                buf@.len() == old(buf)@.len(),
                buf@.len() >= HEADER_LEN + self.payload@.len(),
                forall|j: int|
                    0 <= j < buf@.len() ==> #[trigger] buf@[j] == if j < HEADER_LEN + i {
                        spec_encoding(self@)[j]
                    } else {
                        old(buf)@[j]
                    },
            decreases self.payload@.len() - i,
        {
            buf[HEADER_LEN + i] = self.payload[i];
            i = i + 1;
        }
        proof {
            assert(buf@ =~= spec_encoding(self@) + old(buf)@.skip(total as int));
        }
        Ok(total)
    }

    /// The number of bytes [`Self::try_into_ctx`] writes for this frame:
    /// the fixed header plus the payload.
    pub fn measure_with(&self) -> (r: usize)
        requires
            self.payload@.len() <= usize::MAX - HEADER_LEN,
        ensures
            r == HEADER_LEN + self.payload@.len(),
            r == spec_encoding(self@).len(),
    {
        HEADER_LEN + self.payload.len()
    }
}

impl Default for SnapLlcFrame {
    /// The all-zero frame: zero OUI, protocol identifier `0`, empty payload.
    fn default() -> (r: Self)
        ensures
            r@.oui == seq![0u8, 0u8, 0u8],
            r@.protocol_id == 0,
            r@.payload == Seq::<u8>::empty(),
    {
        let r = SnapLlcFrame { oui: [0; 3], protocol_id: 0, payload: Vec::new() };
        proof {
            assert(r.oui@ =~= seq![0u8, 0u8, 0u8]);
            assert(r.payload@ =~= Seq::<u8>::empty());
        }
        r
    }
}

/// Law: encoding is lossless. The encoding of any well-formed frame decodes
/// back to the very same frame — OUI, protocol identifier and payload bytes
/// all bit-exact — and decoding consumes the whole encoding.
pub proof fn lemma_round_trip(m: FrameModel)
    requires
        wf(m),
    ensures
        spec_decode(spec_encoding(m)) == Ok::<_, DecodeError>((m, spec_encoding(m).len() as int)),
{
    let b = spec_encoding(m);
    assert(UNNUMBERED_CONTROL & UNNUMBERED_CONTROL == UNNUMBERED_CONTROL) by (bit_vector);
    assert(b.subrange(3, 6) =~= m.oui);
    assert(b.skip(HEADER_LEN as int) =~= m.payload);
    assert(m.protocol_id % 256 + 256 * (m.protocol_id / 256) == m.protocol_id) by (nonlinear_arith);
    let d = spec_decode(b);
    assert(d is Ok);
    assert(d->Ok_0.0 =~= m);
    assert(d->Ok_0 == (m, b.len() as int));
}

/// Law: a buffer that cuts a frame's encoding off anywhere inside the fixed
/// eight-byte header is rejected as truncated.
pub proof fn lemma_truncated_prefix(m: FrameModel, n: int)
    requires
        wf(m),
        0 <= n < HEADER_LEN,
    ensures
        n <= spec_encoding(m).len(),
        spec_decode(spec_encoding(m).take(n)) == Err::<(FrameModel, int), _>(
            DecodeError::Truncated,
        ),
{
}

} // verus!
