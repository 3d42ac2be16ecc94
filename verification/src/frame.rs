//! Identifiers and frames, and how frames lie in the data registers.

use vstd::prelude::*;

verus! {

/// Largest standard identifier.
pub const MAX_STANDARD_ID: u16 = 0x7FF;

/// Most data bytes in one frame.
pub const MAX_DATA_LENGTH: usize = 8;

/// Standard 11-bit identifier of a frame.
#[derive(Clone, Copy, Debug, PartialEq, Eq)]
pub struct StandardId(u16);

impl View for StandardId {
    type V = u16;

    closed spec fn view(&self) -> u16 {
        self.0
    }
}

impl StandardId {
    #[verifier::type_invariant]
    closed spec fn valid(self) -> bool {
        self.0 <= MAX_STANDARD_ID
    }

    /// The identifier `raw`, unless it takes more than 11 bits.
    pub fn new(raw: u16) -> (id: Option<Self>)
        ensures
            id is Some <==> raw <= MAX_STANDARD_ID,
            id is Some ==> id.unwrap()@ == raw,
    {
        if raw <= MAX_STANDARD_ID {
            Some(StandardId(raw))
        } else {
            None
        }
    }

    /// The identifier as a number.
    pub fn as_raw(&self) -> (raw: u16)
        ensures
            raw == self@,
            raw <= MAX_STANDARD_ID,
    {
        proof {
            use_type_invariant(self);
        }
        self.0
    }
}

/// What a data frame carries: a standard identifier and up to eight bytes.
pub struct Frame {
    pub identifier: u16,
    pub data: Seq<u8>,
}

impl Frame {
    /// Whether the identifier takes 11 bits and the data at most eight bytes.
    pub open spec fn valid(self) -> bool {
        &&& self.identifier <= MAX_STANDARD_ID
        &&& self.data.len() <= MAX_DATA_LENGTH
    }
}

/// Byte `index` of `data`, and zero beyond its end.
pub open spec fn byte_or_zero(data: Seq<u8>, index: int) -> u8 {
    if 0 <= index < data.len() {
        data[index]
    } else {
        0
    }
}

/// The four bytes of `data` that start at `from`, the first in the lowest
/// eight bits, as one data register holds them.
pub open spec fn packed_word(data: Seq<u8>, from: int) -> u32 {
    (byte_or_zero(data, from) as u32) | (byte_or_zero(data, from + 1) as u32) << 8 | (byte_or_zero(
        data,
        from + 2,
    ) as u32) << 16 | (byte_or_zero(data, from + 3) as u32) << 24
}

/// Byte `index` of the eight that the two data registers hold.
pub open spec fn register_byte(low: u32, high: u32, index: int) -> u8 {
    if index == 0 {
        (low & 0xFF) as u8
    } else if index == 1 {
        ((low >> 8) & 0xFF) as u8
    } else if index == 2 {
        ((low >> 16) & 0xFF) as u8
    } else if index == 3 {
        ((low >> 24) & 0xFF) as u8
    } else if index == 4 {
        (high & 0xFF) as u8
    } else if index == 5 {
        ((high >> 8) & 0xFF) as u8
    } else if index == 6 {
        ((high >> 16) & 0xFF) as u8
    } else {
        ((high >> 24) & 0xFF) as u8
    }
}

/// The first `length` bytes that the two data registers hold.
pub open spec fn unpacked(low: u32, high: u32, length: int) -> Seq<u8> {
    Seq::new(length as nat, |index: int| register_byte(low, high, index))
}

/// Four bytes packed into a word come out of it unchanged.
pub proof fn packed_bytes_come_back(b0: u8, b1: u8, b2: u8, b3: u8)
    ensures
        ({
            let word: u32 = (b0 as u32) | (b1 as u32) << 8 | (b2 as u32) << 16 | (b3 as u32) << 24;
            &&& (word & 0xFF) as u8 == b0
            &&& ((word >> 8) & 0xFF) as u8 == b1
            &&& ((word >> 16) & 0xFF) as u8 == b2
            &&& ((word >> 24) & 0xFF) as u8 == b3
        }),
{
    let word: u32 = (b0 as u32) | (b1 as u32) << 8 | (b2 as u32) << 16 | (b3 as u32) << 24;
    assert((word & 0xFF) as u8 == b0 && ((word >> 8) & 0xFF) as u8 == b1 && ((word >> 16) & 0xFF) as u8
        == b2 && ((word >> 24) & 0xFF) as u8 == b3) by (bit_vector)
        requires
            word == (b0 as u32) | (b1 as u32) << 8 | (b2 as u32) << 16 | (b3 as u32) << 24,
    ;
}

/// Data packed into the two data registers and unpacked again, at its own
/// length, is the same data.
pub proof fn unpacking_inverts_packing(data: Seq<u8>)
    requires
        data.len() <= MAX_DATA_LENGTH,
    ensures
        unpacked(packed_word(data, 0), packed_word(data, 4), data.len() as int) == data,
{
    packed_bytes_come_back(
        byte_or_zero(data, 0),
        byte_or_zero(data, 1),
        byte_or_zero(data, 2),
        byte_or_zero(data, 3),
    );
    packed_bytes_come_back(
        byte_or_zero(data, 4),
        byte_or_zero(data, 5),
        byte_or_zero(data, 6),
        byte_or_zero(data, 7),
    );
}

/// A data frame with a standard identifier.
#[derive(Clone, Copy, Debug, PartialEq, Eq)]
pub struct CanFrame {
    id: StandardId,
    length: usize,
    bytes: [u8; 8],
}

impl View for CanFrame {
    type V = Frame;

    closed spec fn view(&self) -> Frame {
        Frame { identifier: self.id@, data: self.bytes@.take(self.length as int) }
    }
}

impl CanFrame {
    #[verifier::type_invariant]
    closed spec fn valid(self) -> bool {
        &&& self.id@ <= MAX_STANDARD_ID
        &&& self.length <= MAX_DATA_LENGTH
        &&& forall|index: int| self.length <= index < 8 ==> self.bytes[index] == 0
    }

    /// The frame with this identifier and these bytes, unless there are more than eight.
    pub fn new(id: StandardId, data: &[u8]) -> (frame: Option<Self>)
        ensures
            frame is Some <==> data@.len() <= MAX_DATA_LENGTH,
            frame is Some ==> frame.unwrap()@ == (Frame { identifier: id@, data: data@ }),
            frame is Some ==> frame.unwrap()@.valid(),
    {
        let length: usize = data.len();
        if length > MAX_DATA_LENGTH {
            return None;
        }
        let raw: u16 = id.as_raw();
        let mut bytes: [u8; 8] = [0u8; 8];
        let mut index: usize = 0;
        while index < length
            invariant
                index <= length <= MAX_DATA_LENGTH,
                length == data@.len(),
                forall|i: int| 0 <= i < index ==> bytes[i] == data@[i],
                forall|i: int| index <= i < 8 ==> bytes[i] == 0,
            decreases length - index,
        {
            bytes[index] = data[index];
            index = index + 1;
        }
        let frame: CanFrame = CanFrame { id, length, bytes };
        assert(frame@.data =~= data@);
        Some(frame)
    }

    /// The frame that the receive registers of a FIFO hold: the identifier
    /// field of `identifier_word`, and as many bytes of the two data words as
    /// the length field of `length_word` says, eight at most.
    pub fn from_registers(identifier_word: u32, length_word: u32, low: u32, high: u32) -> (frame: Self)
        ensures
            frame@ == received_frame(identifier_word, length_word, low, high),
            frame@.valid(),
    {
        let raw: u16 = received_identifier(identifier_word);
        let length: usize = received_length(length_word);
        let all: [u8; 8] = [
            (low & 0xFF) as u8,
            ((low >> 8) & 0xFF) as u8,
            ((low >> 16) & 0xFF) as u8,
            ((low >> 24) & 0xFF) as u8,
            (high & 0xFF) as u8,
            ((high >> 8) & 0xFF) as u8,
            ((high >> 16) & 0xFF) as u8,
            ((high >> 24) & 0xFF) as u8,
        ];
        let mut bytes: [u8; 8] = [0u8; 8];
        let mut index: usize = 0;
        while index < length
            invariant
                index <= length <= MAX_DATA_LENGTH,
                forall|i: int| 0 <= i < 8 ==> all[i] == register_byte(low, high, i),
                forall|i: int| 0 <= i < index ==> bytes[i] == all[i],
                forall|i: int| index <= i < 8 ==> bytes[i] == 0,
            decreases length - index,
        {
            bytes[index] = all[index];
            index = index + 1;
        }
        let frame: CanFrame = CanFrame { id: StandardId(raw), length, bytes };
        assert(frame@.data =~= unpacked(low, high, length as int));
        frame
    }

    /// The identifier.
    pub fn id(&self) -> (id: StandardId)
        ensures
            id@ == self@.identifier,
            self@.valid(),
    {
        proof {
            use_type_invariant(self);
        }
        self.id
    }

    /// Number of data bytes.
    pub fn dlc(&self) -> (length: usize)
        ensures
            length == self@.data.len(),
            self@.valid(),
    {
        proof {
            use_type_invariant(self);
        }
        self.length
    }

    /// The data bytes.
    pub fn data(&self) -> (data: &[u8])
        ensures
            data@ == self@.data,
            self@.valid(),
    {
        proof {
            use_type_invariant(self);
        }
        vstd::slice::slice_subrange(self.bytes.as_slice(), 0, self.length)
    }

    /// Bytes 0 to 3 as the low data register holds them; absent bytes are zero.
    pub fn data_low(&self) -> (word: u32)
        ensures
            word == packed_word(self@.data, 0),
    {
        proof {
            use_type_invariant(self);
        }
        (self.bytes[0] as u32) | (self.bytes[1] as u32) << 8 | (self.bytes[2] as u32) << 16 | (
        self.bytes[3] as u32) << 24
    }

    /// Bytes 4 to 7 as the high data register holds them; absent bytes are zero.
    pub fn data_high(&self) -> (word: u32)
        ensures
            word == packed_word(self@.data, 4),
    {
        proof {
            use_type_invariant(self);
        }
        (self.bytes[4] as u32) | (self.bytes[5] as u32) << 8 | (self.bytes[6] as u32) << 16 | (
        self.bytes[7] as u32) << 24
    }
}

/// The identifier field of a receive identifier register.
pub open spec fn identifier_field(identifier_word: u32) -> u16 {
    ((identifier_word >> 21) & 0x7FF) as u16
}

/// The number of data bytes that a receive length register announces: its
/// length field, and eight where the field says more.
pub open spec fn length_field(length_word: u32) -> int {
    if length_word & 0xF <= 8 {
        (length_word & 0xF) as int
    } else {
        8
    }
}

/// The frame that the four receive registers of a FIFO describe.
pub open spec fn received_frame(identifier_word: u32, length_word: u32, low: u32, high: u32) -> Frame {
    Frame {
        identifier: identifier_field(identifier_word),
        data: unpacked(low, high, length_field(length_word)),
    }
}

/// Computes [`identifier_field`].
pub fn received_identifier(identifier_word: u32) -> (raw: u16)
    ensures
        raw == identifier_field(identifier_word),
        raw <= MAX_STANDARD_ID,
{
    assert((identifier_word >> 21) & 0x7FF <= 0x7FF) by (bit_vector);
    ((identifier_word >> 21) & 0x7FF) as u16
}

/// Computes [`length_field`].
pub fn received_length(length_word: u32) -> (length: usize)
    ensures
        length == length_field(length_word),
        length <= MAX_DATA_LENGTH,
{
    let field: u32 = length_word & 0xF;
    if field <= 8 {
        field as usize
    } else {
        8
    }
}

} // verus!
