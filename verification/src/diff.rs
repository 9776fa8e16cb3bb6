//! The codec: lossless, fixed-width conversion between an edit batch and a
//! flat byte sequence.
//!
//! Each operation occupies exactly three bytes on the wire:
//! `[opcode, operand, position]`. The operand byte `0` is reserved to mean
//! "no operand"; consequently an Insert or Replace whose real operand is the
//! character with code `0` cannot be represented, and operand characters are
//! truncated to their low byte. Both are deliberate protocol limitations.

use vstd::prelude::*;

verus! {

/// Wire code for a Delete operation.
pub const OPCODE_DEL: u8 = 0;

/// Wire code for an Insert operation.
pub const OPCODE_INS: u8 = 1;

/// Wire code for a Replace operation.
pub const OPCODE_REP: u8 = 2;

/// Operand byte reserved to mean "no operand".
pub const NO_OPERAND: u8 = 0;

/// Number of bytes each operation occupies on the wire.
pub const BYTES_PER_DIFF: usize = 3;

/// The kind of an edit operation: a closed set of three variants.
#[derive(Debug, PartialEq, Eq, Structural, Clone, Copy)]
pub enum Operation {
    /// Remove one character at a position; carries no operand.
    Del,
    /// Insert one character before a position.
    Ins,
    /// Replace the character at a position.
    Rep,
}

/// Decoding failure: the whole batch is rejected, nothing partial comes back.
#[derive(Debug, PartialEq, Eq, Structural, Clone, Copy)]
pub enum CodecError {
    /// The byte sequence's length is not a multiple of three.
    MalformedLength,
    /// An opcode byte maps to no known operation kind.
    UnknownOpcode,
}

/// One edit operation: a kind, an optional character operand, and a position
/// into the text measured in characters (not bytes).
#[derive(Debug, PartialEq)]
pub struct Diff {
    /// The operation kind.
    pub opcode: Operation,
    /// The character operand; present if and only if the kind requires one.
    pub operand: Option<char>,
    /// Zero-based character index into the text, capped at one byte.
    pub index: u8,
}

/// An ordered batch of edit operations, applied strictly in sequence order.
#[derive(Debug, PartialEq)]
pub struct MessageBuf {
    /// The operations, in application order.
    pub messages: Vec<Diff>,
}

impl Diff {
    /// The operand/kind invariant: Insert and Replace carry an operand,
    /// Delete carries none.
    pub open spec fn wf(self) -> bool {
        self.operand is Some <==> (self.opcode is Ins || self.opcode is Rep)
    }

    /// The operations the wire format represents losslessly: the
    /// operand/kind invariant holds, and any operand's character code lies
    /// in 1..=255 (it fits the single wire byte, and zero is reserved to
    /// mean "absent").
    pub open spec fn encodable(self) -> bool {
        &&& self.wf()
        &&& (self.operand matches Some(c) ==> 1 <= c as u32 <= 255)
    }
}

/// The wire byte that stands for an optional operand character: `NO_OPERAND`
/// for an absent operand, else the character's code truncated to one byte.
pub open spec fn operand_to_byte(operand: Option<char>) -> u8 {
    match operand {
        Some(c) => ((c as u32) % 256) as u8,
        None => NO_OPERAND,
    }
}

/// The operand an operand byte decodes to: `NO_OPERAND` means absent, any
/// other byte is the character with that code.
pub open spec fn byte_to_operand(byte: u8) -> Option<char> {
    if byte == NO_OPERAND {
        None
    } else {
        Some(byte as char)
    }
}

/// The operation kind a valid opcode byte decodes to.
pub open spec fn byte_to_opcode(byte: u8) -> Operation
    recommends
        byte < 3,
{
    if byte == OPCODE_INS {
        Operation::Ins
    } else if byte == OPCODE_REP {
        Operation::Rep
    } else {
        Operation::Del
    }
}

/// The three wire bytes of one operation.
pub open spec fn diff_bytes(d: Diff) -> Seq<u8> {
    seq![d.opcode.code(), operand_to_byte(d.operand), d.index]
}

/// The wire bytes of a whole batch: the three bytes of each operation, in
/// batch order.
pub open spec fn encoded(msgs: Seq<Diff>) -> Seq<u8>
    decreases msgs.len(),
{
    if msgs.len() == 0 {
        Seq::empty()
    } else {
        encoded(msgs.drop_last()) + diff_bytes(msgs.last())
    }
}

/// Every opcode byte (first byte of each three-byte group) maps to a known
/// operation kind.
pub open spec fn opcodes_valid(data: Seq<u8>) -> bool {
    forall|i: int| 0 <= i < data.len() && i % 3 == 0 ==> #[trigger] data[i] < 3
}

/// The batch a well-formed byte sequence decodes to: one operation per
/// three-byte group.
pub open spec fn decoded(data: Seq<u8>) -> Seq<Diff>
    recommends
        data.len() % 3 == 0,
        opcodes_valid(data),
{
    Seq::new(
        (data.len() / 3) as nat,
        |i: int|
            Diff {
                opcode: byte_to_opcode(data[3 * i]),
                operand: byte_to_operand(data[3 * i + 1]),
                index: data[3 * i + 2],
            },
    )
}

/// The wire encoding of a batch is exactly three bytes per operation.
pub proof fn lemma_encoded_len(msgs: Seq<Diff>)
    ensures
        encoded(msgs).len() == 3 * msgs.len(),
    decreases msgs.len(),
{
    if msgs.len() > 0 {
        lemma_encoded_len(msgs.drop_last());
    }
}

impl Operation {
    /// The numeric wire code of this operation kind.
    pub open spec fn code(self) -> u8 {
        match self {
            Operation::Del => OPCODE_DEL,
            Operation::Ins => OPCODE_INS,
            Operation::Rep => OPCODE_REP,
        }
    }

    /// What decoding an opcode byte yields.
    pub open spec fn from_byte_spec(byte: u8) -> Result<Operation, CodecError> {
        if byte == OPCODE_DEL {
            Ok(Operation::Del)
        } else if byte == OPCODE_INS {
            Ok(Operation::Ins)
        } else if byte == OPCODE_REP {
            Ok(Operation::Rep)
        } else {
            Err(CodecError::UnknownOpcode)
        }
    }

    /// Encode this operation kind as its wire code.
    pub fn to_byte(self) -> (r: u8)
        ensures
            r == self.code(),
    {
        match self {
            Operation::Del => OPCODE_DEL,
            Operation::Ins => OPCODE_INS,
            Operation::Rep => OPCODE_REP,
        }
    }

    /// Decode an opcode byte; bytes outside the known codes are rejected.
    pub fn from_byte(byte: u8) -> (r: Result<Operation, CodecError>)
        ensures
            r == Operation::from_byte_spec(byte),
            r is Ok <==> byte < 3,
    {
        if byte == OPCODE_DEL {
            Ok(Operation::Del)
        } else if byte == OPCODE_INS {
            Ok(Operation::Ins)
        } else if byte == OPCODE_REP {
            Ok(Operation::Rep)
        } else {
            Err(CodecError::UnknownOpcode)
        }
    }
}

/// Decoding one encoded operation gives the operation back, provided it is
/// losslessly representable.
proof fn lemma_diff_bytes_round_trip(d: Diff)
    requires
        d.encodable(),
    ensures
        diff_bytes(d).len() == 3,
        diff_bytes(d)[0] < 3,
        byte_to_opcode(diff_bytes(d)[0]) == d.opcode,
        byte_to_operand(diff_bytes(d)[1]) == d.operand,
        diff_bytes(d)[2] == d.index,
{
    match d.operand {
        Some(c) => {
            let v = c as u32;
            assert(operand_to_byte(d.operand) == (v % 256) as u8);
            assert(v % 256 == v);
            vstd::utf8::char_u32_cast(c, v);
            assert((operand_to_byte(d.operand) as char) == c);
        },
        None => {},
    }
}

/// Round-trip: a batch whose operations all satisfy the operand/kind
/// invariant, with operand codes in 1..=255, decodes from its own encoding
/// unchanged. The encoding's length is a multiple of three and all its
/// opcode bytes are valid, so `decode(encode(batch))` succeeds and returns
/// the batch.
pub proof fn lemma_round_trip(msgs: Seq<Diff>)
    requires
        forall|i: int| 0 <= i < msgs.len() ==> (#[trigger] msgs[i]).encodable(),
    ensures
        encoded(msgs).len() % 3 == 0,
        opcodes_valid(encoded(msgs)),
        decoded(encoded(msgs)) == msgs,
    decreases msgs.len(),
{
    lemma_encoded_len(msgs);
    if msgs.len() == 0 {
        assert(decoded(encoded(msgs)) =~= msgs);
    } else {
        let prefix = msgs.drop_last();
        let last = msgs.last();
        let n = prefix.len() as int;
        lemma_round_trip(prefix);
        lemma_encoded_len(prefix);
        lemma_diff_bytes_round_trip(last);
        let whole = encoded(msgs);
        assert(whole == encoded(prefix) + diff_bytes(last));
        assert forall|i: int| 0 <= i < whole.len() && i % 3 == 0 implies #[trigger] whole[i]
            < 3 by {
            if i < 3 * n {
                assert(encoded(prefix)[i] < 3);
            } else {
                assert(i == 3 * n);
                assert(whole[i] == diff_bytes(last)[0]);
            }
        }
        assert forall|k: int| 0 <= k < msgs.len() implies #[trigger] decoded(whole)[k]
            == msgs[k] by {
            if k < n {
                assert(whole[3 * k] == encoded(prefix)[3 * k]);
                assert(whole[3 * k + 1] == encoded(prefix)[3 * k + 1]);
                assert(whole[3 * k + 2] == encoded(prefix)[3 * k + 2]);
                assert(decoded(whole)[k] == decoded(encoded(prefix))[k]);
                assert(decoded(encoded(prefix))[k] == prefix[k]);
            } else {
                assert(k == n);
                assert(whole[3 * k] == diff_bytes(last)[0]);
                assert(whole[3 * k + 1] == diff_bytes(last)[1]);
                assert(whole[3 * k + 2] == diff_bytes(last)[2]);
            }
        }
        assert(decoded(whole) =~= msgs);
    }
}

/// Re-encoding: a well-formed byte sequence (length a multiple of three,
/// every opcode byte valid) is reproduced exactly by encoding the batch it
/// decodes to.
pub proof fn lemma_reencode(data: Seq<u8>)
    requires
        data.len() % 3 == 0,
        opcodes_valid(data),
    ensures
        encoded(decoded(data)) == data,
    decreases data.len(),
{
    if data.len() == 0 {
        assert(encoded(decoded(data)) =~= data);
    } else {
        let prefix = data.take(data.len() - 3);
        assert(prefix.len() % 3 == 0) by {
            assert(data.len() >= 3);
        }
        assert(opcodes_valid(prefix));
        lemma_reencode(prefix);
        let msgs = decoded(data);
        let n = msgs.len() as int;
        assert(data.len() == 3 * n);
        assert(msgs.drop_last() =~= decoded(prefix));
        let last = msgs.last();
        assert(encoded(msgs) == encoded(decoded(prefix)) + diff_bytes(last));
        assert(diff_bytes(last)[0] == data[3 * (n - 1)]) by {
            assert(data[3 * (n - 1)] < 3);
        }
        assert(diff_bytes(last)[1] == data[3 * (n - 1) + 1]) by {
            let b = data[3 * (n - 1) + 1];
            if b != NO_OPERAND {
                let c = b as char;
                assert(c as u32 == b);
                assert(operand_to_byte(Some(c)) == b);
            }
        }
        assert(diff_bytes(last)[2] == data[3 * (n - 1) + 2]);
        assert(encoded(msgs) =~= data);
    }
}

impl MessageBuf {
    /// Serialize the batch to its wire bytes: three bytes per operation, in
    /// batch order. Operand characters above code 255 are truncated to their
    /// low byte, a declared limitation of the wire format.
    pub fn encode(&self) -> (r: Vec<u8>)
        ensures
            r@ == encoded(self.messages@),
            r@.len() == 3 * self.messages@.len(),
    {
        let mut data: Vec<u8> = Vec::new();
        let mut i: usize = 0;
        while i < self.messages.len()
            invariant
                i <= self.messages.len(),
                data@ == encoded(self.messages@.take(i as int)),
            decreases self.messages.len() - i,
        {
            let d = &self.messages[i];
            let operand_byte: u8 = match d.operand {
                Some(c) => ((c as u32) % 256) as u8,
                None => NO_OPERAND,
            };
            data.push(d.opcode.to_byte());
            data.push(operand_byte);
            data.push(d.index);
            proof {
                let taken = self.messages@.take(i + 1);
                assert(taken.drop_last() =~= self.messages@.take(i as int));
                assert(taken.last() == self.messages@[i as int]);
                assert(data@ =~= encoded(taken));
            }
            i = i + 1;
        }
        proof {
            assert(self.messages@.take(self.messages@.len() as int) =~= self.messages@);
            lemma_encoded_len(self.messages@);
        }
        data
    }
}

impl MessageBuf {
    /// Deserialize wire bytes back into a batch. The whole decode fails
    /// atomically: a length that is not a multiple of three yields
    /// `MalformedLength`, and an opcode byte outside the known codes yields
    /// `UnknownOpcode`, with no partial batch in either case.
    pub fn decode(data: &Vec<u8>) -> (r: Result<MessageBuf, CodecError>)
        ensures
            data@.len() % 3 != 0 ==> r == Err::<MessageBuf, CodecError>(CodecError::MalformedLength),
            data@.len() % 3 == 0 && !opcodes_valid(data@) ==> r == Err::<MessageBuf, CodecError>(
                CodecError::UnknownOpcode,
            ),
            data@.len() % 3 == 0 && opcodes_valid(data@) ==> (r matches Ok(m) && m.messages@
                == decoded(data@)),
    {
        if data.len() % BYTES_PER_DIFF != 0 {
            return Err(CodecError::MalformedLength);
        }
        let mut messages: Vec<Diff> = Vec::new();
        let ghost n_groups: int = data@.len() as int / 3;
        let mut i: usize = 0;
        while i < data.len()
            invariant
                data@.len() % 3 == 0,
                data@.len() == 3 * n_groups,
                i % 3 == 0,
                i <= data@.len(),
                3 * messages@.len() == i,
                forall|j: int| 0 <= j < i && j % 3 == 0 ==> #[trigger] data@[j] < 3,
                forall|k: int|
                    0 <= k < messages@.len() ==> #[trigger] messages@[k] == decoded(data@)[k],
            decreases data@.len() - i,
        {
            let opcode = match Operation::from_byte(data[i]) {
                Ok(op) => op,
                Err(e) => {
                    proof {
                        assert(!opcodes_valid(data@)) by {
                            assert(data@[i as int] >= 3 && i % 3 == 0);
                        }
                    }
                    return Err(e);
                },
            };
            let operand_byte = data[i + 1];
            let operand: Option<char> = if operand_byte == NO_OPERAND {
                None
            } else {
                Some(operand_byte as char)
            };
            let index = data[i + 2];
            let ghost k: int = messages@.len() as int;
            messages.push(Diff { opcode, operand, index });
            proof {
                assert(3 * k == i);
                assert(k < n_groups);
                assert(decoded(data@).len() == n_groups);
                assert(messages@[k] == decoded(data@)[k]);
            }
            i = i + BYTES_PER_DIFF;
        }
        proof {
            assert(opcodes_valid(data@));
            assert(messages@ =~= decoded(data@));
        }
        Ok(MessageBuf { messages })
    }
}

} // verus!
