//! CAN frames in can2040's raw layout: an id word with flag bits, a data
//! length code, and eight data bytes.

use vstd::prelude::*;

verus! {

/// Flag bit of the raw id word marking a remote transmission request.
pub const ID_RTR: u32 = 0x4000_0000;

/// Flag bit of the raw id word marking an extended (29-bit) identifier.
pub const ID_EFF: u32 = 0x8000_0000;

/// Bits of the raw id word that hold a 29-bit extended identifier.
pub const EXTENDED_ID_MASK: u32 = 0x1FFF_FFFF;

/// Bits of the raw id word that hold an 11-bit standard identifier.
pub const STANDARD_ID_MASK: u32 = 0x7FF;

/// `embedded_can::StandardId::new`, whose result is read back with
/// `StandardId::as_raw`. The crate's source returns `Some` exactly when
/// `raw <= 0x7FF`, and `as_raw` hands back the value it was made from.
#[verifier::external_body]
fn checked_standard_id(raw: u16) -> (r: Option<u16>)
    ensures
        r == (if raw <= 0x7FF { Some(raw) } else { None::<u16> }),
{
    match embedded_can::StandardId::new(raw) {
        Some(id) => Some(id.as_raw()),
        None => None,
    }
}

/// `embedded_can::ExtendedId::new`, whose result is read back with
/// `ExtendedId::as_raw`. The crate's source returns `Some` exactly when
/// `raw <= 0x1FFF_FFFF`, and `as_raw` hands back the value it was made from.
#[verifier::external_body]
fn checked_extended_id(raw: u32) -> (r: Option<u32>)
    ensures
        r == (if raw <= 0x1FFF_FFFF { Some(raw) } else { None::<u32> }),
{
    match embedded_can::ExtendedId::new(raw) {
        Some(id) => Some(id.as_raw()),
        None => None,
    }
}

/// A CAN identifier, standard (11-bit) or extended (29-bit), as its raw value.
#[derive(Clone, Copy, Debug, PartialEq, Eq, Structural)]
pub enum FrameId {
    Standard(u16),
    Extended(u32),
}

impl FrameId {
    /// The raw value lies in the identifier's range.
    pub open spec fn wf(self) -> bool {
        match self {
            FrameId::Standard(raw) => raw <= 0x7FF,
            FrameId::Extended(raw) => raw <= 0x1FFF_FFFF,
        }
    }

    /// Tries to make a standard identifier; `None` if `raw > 0x7FF`.
    pub fn standard(raw: u16) -> (r: Option<FrameId>)
        ensures
            r == (if raw <= 0x7FF { Some(FrameId::Standard(raw)) } else { None::<FrameId> }),
    {
        match checked_standard_id(raw) {
            Some(v) => Some(FrameId::Standard(v)),
            None => None,
        }
    }

    /// Tries to make an extended identifier; `None` if `raw > 0x1FFF_FFFF`.
    pub fn extended(raw: u32) -> (r: Option<FrameId>)
        ensures
            r == (if raw <= 0x1FFF_FFFF { Some(FrameId::Extended(raw)) } else { None::<FrameId> }),
    {
        match checked_extended_id(raw) {
            Some(v) => Some(FrameId::Extended(v)),
            None => None,
        }
    }
}

/// The raw id word of a data frame with identifier `id`: a standard ID as is,
/// an extended ID with bit 31 (`ID_EFF`) set.
pub open spec fn data_id_word(id: FrameId) -> u32 {
    match id {
        FrameId::Standard(raw) => raw as u32,
        FrameId::Extended(raw) => (raw % 0x8000_0000 + 0x8000_0000) as u32,
    }
}

/// The raw id word of a remote frame with identifier `id`: the data frame's
/// word with bit 30 (`ID_RTR`) set as well.
pub open spec fn remote_id_word(id: FrameId) -> u32 {
    match id {
        FrameId::Standard(raw) => (raw + 0x4000_0000) as u32,
        FrameId::Extended(raw) => (raw % 0x4000_0000 + 0xC000_0000) as u32,
    }
}

/// The identifier that a raw id word holds.
pub open spec fn spec_frame_id(id: u32) -> FrameId {
    if spec_is_extended(id) {
        FrameId::Extended((id % 0x2000_0000) as u32)
    } else {
        FrameId::Standard((id % 0x800) as u16)
    }
}

/// What masking the id word with the flag bits and the identifier masks
/// yields, in arithmetic terms.
proof fn lemma_id_word_masks(id: u32)
    ensures
        (id & ID_EFF != 0) == (id >= 0x8000_0000u32),
        (id & ID_RTR != 0) == ((id / 0x4000_0000u32) % 2 == 1),
        id & EXTENDED_ID_MASK == id % 0x2000_0000u32,
        id & STANDARD_ID_MASK == id % 0x800u32,
{
    assert(id & 0x8000_0000u32 != 0 <==> id >= 0x8000_0000u32) by (bit_vector);
    assert(id & 0x4000_0000u32 != 0 <==> (id / 0x4000_0000u32) % 2 == 1) by (bit_vector);
    assert(id & 0x1FFF_FFFFu32 == id % 0x2000_0000u32) by (bit_vector);
    assert(id & 0x7FFu32 == id % 0x800u32) by (bit_vector);
}

/// Abstract value of a frame: the raw id word, the raw DLC field and all
/// eight bytes of the data array.
pub struct FrameModel {
    pub id: u32,
    pub dlc: u32,
    pub data: Seq<u8>,
}

/// A CAN bus frame.
///
/// The raw `id` word follows the can2040 convention:
/// - bit 31 (`ID_EFF`): set for extended (29-bit) frames;
/// - bit 30 (`ID_RTR`): set for remote frames;
/// - bits 28–0: the 29-bit extended ID, or bits 10–0: the 11-bit standard ID.
#[derive(Clone, Copy)]
pub struct CanFrame {
    id: u32,
    dlc: u32,
    data: [u8; 8],
}

impl View for CanFrame {
    type V = FrameModel;

    closed spec fn view(&self) -> FrameModel {
        FrameModel { id: self.id, dlc: self.dlc, data: self.data@ }
    }
}

/// Whether the raw id word marks an extended frame (bit 31).
pub open spec fn spec_is_extended(id: u32) -> bool {
    id >= 0x8000_0000
}

/// Whether the raw id word marks a remote frame (bit 30).
pub open spec fn spec_is_remote(id: u32) -> bool {
    (id / 0x4000_0000) % 2 == 1
}

/// The arbitration ID held by a raw id word: its low 29 bits for an extended
/// frame, its low 11 bits otherwise.
pub open spec fn spec_arb_id(id: u32) -> u32 {
    if spec_is_extended(id) {
        (id % 0x2000_0000) as u32
    } else {
        (id % 0x800) as u32
    }
}

/// Number of data bytes that a DLC value stands for: DLC values 8 to 15 all
/// carry eight bytes.
pub open spec fn data_len(dlc: u32) -> nat {
    if dlc < 8 {
        dlc as nat
    } else {
        8
    }
}

/// The bytes that a frame carries: the first `data_len(dlc)` bytes of its array.
pub open spec fn spec_data(f: FrameModel) -> Seq<u8> {
    f.data.subrange(0, data_len(f.dlc) as int)
}

/// `data` followed by zero bytes up to a length of eight.
pub open spec fn zero_padded(data: Seq<u8>) -> Seq<u8> {
    data + Seq::new((8 - data.len()) as nat, |i: int| 0u8)
}

impl CanFrame {
    /// Every frame holds an array of exactly eight data bytes, of which
    /// `data` hands out `min(dlc, 8)`.
    pub proof fn lemma_data_len(&self)
        ensures
            self@.data.len() == 8,
            spec_data(self@).len() == data_len(self@.dlc),
            spec_data(self@).len() <= 8,
    {
    }

    /// A frame made of a raw id word, a raw DLC field and a data array, as
    /// can2040 hands them over.
    pub fn from_parts(id: u32, dlc: u32, data: [u8; 8]) -> (r: CanFrame)
        ensures
            r@ == (FrameModel { id: id, dlc: dlc, data: data@ }),
    {
        CanFrame { id, dlc, data }
    }

    /// The raw id word, the raw DLC field and the whole data array, as
    /// can2040 takes them for transmission.
    pub fn parts(&self) -> (r: (u32, u32, [u8; 8]))
        ensures
            r.0 == self@.id,
            r.1 == self@.dlc,
            r.2@ == self@.data,
    {
        (self.id, self.dlc, self.data)
    }

    /// Constructs a frame from a raw can2040 id word and data payload.
    /// `dlc` is derived from `data.len()`. Returns `None` if `data` exceeds 8 bytes.
    pub fn new(id: u32, data: &[u8]) -> (r: Option<CanFrame>)
        ensures
            r is None <==> data@.len() > 8,
            r matches Some(f) ==> f@ == (FrameModel {
                id: id,
                dlc: data@.len() as u32,
                data: zero_padded(data@),
            }),
    {
        if data.len() > 8 {
            return None;
        }
        let mut arr = [0u8; 8];
        let mut i: usize = 0;
        while i < data.len()
            invariant
                data@.len() <= 8,
                i <= data@.len(),
                forall|j: int| 0 <= j < i ==> arr@[j] == data@[j],
                forall|j: int| i <= j < 8 ==> arr@[j] == 0u8,
            decreases data@.len() - i,
        {
            arr[i] = data[i];
            i = i + 1;
        }
        assert(arr@ =~= zero_padded(data@));
        Some(CanFrame { id, dlc: data.len() as u32, data: arr })
    }

    /// Constructs a frame with an explicit dlc (0–15).
    /// DLC values 8–15 all carry 8 data bytes, so for dlc ≥ 8 exactly 8 data
    /// bytes must be provided; for dlc < 8 exactly `dlc` data bytes must be
    /// provided. Returns `None` on any mismatch.
    pub fn new_with_dlc(id: u32, dlc: u32, data: &[u8]) -> (r: Option<CanFrame>)
        ensures
            r is None <==> (dlc > 15 || data@.len() != data_len(dlc)),
            r matches Some(f) ==> f@ == (FrameModel { id: id, dlc: dlc, data: zero_padded(data@) }),
    {
        if dlc > 15 {
            return None;
        }
        let want: usize = if dlc < 8 { dlc as usize } else { 8 };
        if data.len() != want {
            return None;
        }
        let mut arr = [0u8; 8];
        let mut i: usize = 0;
        while i < data.len()
            invariant
                data@.len() <= 8,
                i <= data@.len(),
                forall|j: int| 0 <= j < i ==> arr@[j] == data@[j],
                forall|j: int| i <= j < 8 ==> arr@[j] == 0u8,
            decreases data@.len() - i,
        {
            arr[i] = data[i];
            i = i + 1;
        }
        assert(arr@ =~= zero_padded(data@));
        Some(CanFrame { id, dlc, data: arr })
    }

    /// Full raw can2040 id word, including EFF/RTR flag bits.
    pub fn raw_id(&self) -> (r: u32)
        ensures
            r == self@.id,
    {
        self.id
    }

    /// Frame arbitration ID with flag bits masked out.
    pub fn arb_id(&self) -> (r: u32)
        ensures
            r == spec_arb_id(self@.id),
    {
        let id = self.id;
        proof {
            lemma_id_word_masks(id);
        }
        if id & ID_EFF != 0 {
            id & EXTENDED_ID_MASK
        } else {
            id & STANDARD_ID_MASK
        }
    }

    /// Returns `true` if this is an extended (29-bit) ID frame.
    pub fn is_extended(&self) -> (r: bool)
        ensures
            r == spec_is_extended(self@.id),
    {
        let id = self.id;
        proof {
            lemma_id_word_masks(id);
        }
        id & ID_EFF != 0
    }

    /// Returns `true` if this is a remote transmission request (RTR) frame.
    pub fn is_remote(&self) -> (r: bool)
        ensures
            r == spec_is_remote(self@.id),
    {
        let id = self.id;
        proof {
            lemma_id_word_masks(id);
        }
        id & ID_RTR != 0
    }

    /// Raw DLC field value (0–15).
    ///
    /// DLC values 9–15 are valid but all carry exactly 8 data bytes.
    /// [`data`](Self::data) always returns `min(dlc, 8)` bytes, so `dlc()` and
    /// `data().len()` may differ for DLC > 8.
    pub fn dlc(&self) -> (r: usize)
        ensures
            r == self@.dlc,
    {
        self.dlc as usize
    }

    /// The data bytes of the frame: the first `min(dlc, 8)` bytes.
    pub fn data(&self) -> (r: &[u8])
        ensures
            r@ == spec_data(self@),
    {
        let len: usize = if self.dlc < 8 { self.dlc as usize } else { 8 };
        &self.data[0..len]
    }

    /// Constructs a data frame for identifier `id`; `None` if `data` exceeds
    /// 8 bytes. The id word gets `ID_EFF` for an extended identifier.
    pub fn from_id(id: FrameId, data: &[u8]) -> (r: Option<CanFrame>)
        requires
            id.wf(),
        ensures
            r is None <==> data@.len() > 8,
            r matches Some(f) ==> f@ == (FrameModel {
                id: data_id_word(id),
                dlc: data@.len() as u32,
                data: zero_padded(data@),
            }),
    {
        let raw_id: u32 = match id {
            FrameId::Standard(raw) => raw as u32,
            FrameId::Extended(raw) => {
                assert(raw | 0x8000_0000u32 == raw % 0x8000_0000u32 + 0x8000_0000u32)
                    by (bit_vector);
                raw | ID_EFF
            },
        };
        CanFrame::new(raw_id, data)
    }

    /// Constructs a remote frame (RTR bit set) for identifier `id` with the
    /// given DLC and zeroed data; `None` if `dlc > 15`.
    pub fn new_remote(id: FrameId, dlc: usize) -> (r: Option<CanFrame>)
        requires
            id.wf(),
        ensures
            r is None <==> dlc > 15,
            r matches Some(f) ==> f@ == (FrameModel {
                id: remote_id_word(id),
                dlc: dlc as u32,
                data: Seq::new(8, |i: int| 0u8),
            }),
    {
        if dlc > 15 {
            return None;
        }
        let raw_id: u32 = match id {
            FrameId::Standard(raw) => {
                let r32 = raw as u32;
                assert(r32 < 0x1_0000 ==> r32 | 0x4000_0000u32 == r32 + 0x4000_0000u32)
                    by (bit_vector);
                r32 | ID_RTR
            },
            FrameId::Extended(raw) => {
                assert(raw | 0x8000_0000u32 | 0x4000_0000u32 == raw % 0x4000_0000u32
                    + 0xC000_0000u32) by (bit_vector);
                raw | ID_EFF | ID_RTR
            },
        };
        let arr = [0u8; 8];
        assert(arr@ =~= Seq::new(8, |i: int| 0u8));
        Some(CanFrame { id: raw_id, dlc: dlc as u32, data: arr })
    }

    /// The frame's identifier: the low 29 bits of the id word for an extended
    /// frame, its low 11 bits otherwise.
    pub fn id(&self) -> (r: FrameId)
        ensures
            r == spec_frame_id(self@.id),
            r.wf(),
    {
        let id = self.id;
        proof {
            lemma_id_word_masks(id);
        }
        if self.is_extended() {
            FrameId::extended(id & EXTENDED_ID_MASK).unwrap()
        } else {
            FrameId::standard((id & STANDARD_ID_MASK) as u16).unwrap()
        }
    }

    /// The frame's payload: no bytes for a remote frame, else [`data`](Self::data).
    pub fn payload(&self) -> (r: &[u8])
        ensures
            r@ == (if spec_is_remote(self@.id) { Seq::<u8>::empty() } else { spec_data(self@) }),
    {
        if self.is_remote() {
            return &[];
        }
        self.data()
    }
}

/// A frame made by `new` gives back the id word it was made with, a DLC
/// equal to the number of bytes, and exactly those bytes.
pub proof fn lemma_new_round_trip(id: u32, data: Seq<u8>)
    requires
        data.len() <= 8,
    ensures
        ({
            let f = FrameModel { id: id, dlc: data.len() as u32, data: zero_padded(data) };
            &&& f.data.len() == 8
            &&& spec_data(f) == data
            &&& f.dlc == data.len()
        }),
{
    let f = FrameModel { id: id, dlc: data.len() as u32, data: zero_padded(data) };
    assert(spec_data(f) =~= data);
}

/// A frame made by `new_with_dlc` keeps the given DLC and gives back exactly
/// the given bytes.
pub proof fn lemma_new_with_dlc_round_trip(id: u32, dlc: u32, data: Seq<u8>)
    requires
        dlc <= 15,
        data.len() == data_len(dlc),
    ensures
        spec_data(FrameModel { id: id, dlc: dlc, data: zero_padded(data) }) == data,
{
    let f = FrameModel { id: id, dlc: dlc, data: zero_padded(data) };
    assert(spec_data(f) =~= data);
}

/// The id word of a data frame made for a valid identifier gives back that
/// identifier, the matching extended flag, and no remote flag.
pub proof fn lemma_data_id_word_round_trip(id: FrameId)
    requires
        id.wf(),
    ensures
        spec_frame_id(data_id_word(id)) == id,
        spec_is_extended(data_id_word(id)) == (id is Extended),
        !spec_is_remote(data_id_word(id)),
{
}

/// The id word of a remote frame made for a valid identifier gives back that
/// identifier, the matching extended flag, and the remote flag.
pub proof fn lemma_remote_id_word_round_trip(id: FrameId)
    requires
        id.wf(),
    ensures
        spec_frame_id(remote_id_word(id)) == id,
        spec_is_extended(remote_id_word(id)) == (id is Extended),
        spec_is_remote(remote_id_word(id)),
{
}

/// A data frame made from an identifier and at most eight bytes has the
/// identifier, the bytes as payload and as data, and a DLC equal to their
/// number.
pub proof fn lemma_from_id_round_trip(id: FrameId, data: Seq<u8>)
    requires
        id.wf(),
        data.len() <= 8,
    ensures
        ({
            let f = FrameModel {
                id: data_id_word(id),
                dlc: data.len() as u32,
                data: zero_padded(data),
            };
            &&& spec_frame_id(f.id) == id
            &&& !spec_is_remote(f.id)
            &&& spec_data(f) == data
            &&& f.dlc == data.len()
        }),
{
    lemma_data_id_word_round_trip(id);
    lemma_new_round_trip(data_id_word(id), data);
}

/// The arbitration ID of an id word is the raw value of the identifier it
/// holds.
pub proof fn lemma_arb_id_is_frame_id(word: u32)
    ensures
        spec_arb_id(word) == (match spec_frame_id(word) {
            FrameId::Standard(raw) => raw as u32,
            FrameId::Extended(raw) => raw,
        }),
        spec_frame_id(word).wf(),
{
}

/// The id word of a frame made for an identifier in range is the identifier
/// plus its flag bits and nothing else: a standard data frame's word is the
/// identifier itself, an extended one's adds bit 31; a remote frame's word
/// adds bit 30 to that.
pub proof fn lemma_id_words_exact(raw_std: u16, raw_ext: u32)
    requires
        raw_std <= 0x7FF,
        raw_ext <= 0x1FFF_FFFF,
    ensures
        data_id_word(FrameId::Standard(raw_std)) == raw_std as int,
        data_id_word(FrameId::Extended(raw_ext)) == raw_ext + 0x8000_0000,
        remote_id_word(FrameId::Standard(raw_std)) == raw_std + 0x4000_0000,
        remote_id_word(FrameId::Extended(raw_ext)) == raw_ext + 0xC000_0000,
{
}

/// Decoding any id word: bit 31 says extended, bit 30 says remote, and the
/// identifier (and arbitration ID) is the word's low 29 bits if extended,
/// its low 11 bits otherwise.
pub proof fn lemma_id_word_decoding(word: u32)
    ensures
        spec_is_extended(word) == (word >= 0x8000_0000),
        spec_is_remote(word) == (word % 0x8000_0000 >= 0x4000_0000),
        word < 0x8000_0000 ==> spec_arb_id(word) == word % 0x800,
        word < 0x8000_0000 ==> spec_frame_id(word) == FrameId::Standard((word % 0x800) as u16),
        word >= 0x8000_0000 ==> spec_arb_id(word) == word % 0x2000_0000,
        word >= 0x8000_0000 ==> spec_frame_id(word) == FrameId::Extended(
            (word % 0x2000_0000) as u32,
        ),
{
}

/// The number of bytes a DLC stands for is `min(dlc, 8)`.
pub proof fn lemma_data_len_is_min(dlc: u32)
    ensures
        dlc <= 8 ==> data_len(dlc) == dlc,
        dlc >= 8 ==> data_len(dlc) == 8,
{
}

/// The data of a frame are the first `min(dlc, 8)` bytes of its array, in
/// order.
pub proof fn lemma_data_is_prefix(f: FrameModel)
    requires
        f.data.len() == 8,
    ensures
        f.dlc <= 8 ==> spec_data(f).len() == f.dlc,
        f.dlc >= 8 ==> spec_data(f).len() == 8,
        forall|i: int| 0 <= i < spec_data(f).len() ==> #[trigger] spec_data(f)[i] == f.data[i],
{
}

/// Padding keeps the bytes in place and fills up to eight with zeros.
pub proof fn lemma_zero_padded_layout(data: Seq<u8>)
    requires
        data.len() <= 8,
    ensures
        zero_padded(data).len() == 8,
        forall|i: int| 0 <= i < data.len() ==> #[trigger] zero_padded(data)[i] == data[i],
        forall|i: int| data.len() <= i < 8 ==> #[trigger] zero_padded(data)[i] == 0,
{
}

} // verus!
