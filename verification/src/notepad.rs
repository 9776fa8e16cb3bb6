//! The document engine: a mutable text buffer and the deterministic
//! application of decoded edit operations to it.

use vstd::prelude::*;

use crate::diff::Diff;
use crate::diff::MessageBuf;
use crate::diff::Operation;

verus! {

/// Failure of applying one edit operation; the buffer is left as it was
/// before that operation.
#[derive(Debug, PartialEq, Eq, Structural, Clone, Copy)]
pub enum ApplyError {
    /// An Insert or Replace arrived without an operand.
    MissingOperand,
    /// The position references no existing character (Delete, Replace), or
    /// lies beyond the end of the text (Insert).
    IndexOutOfRange,
}

/// The shared document: a single mutable text buffer, a sequence of Unicode
/// scalar values, and nothing else.
#[derive(Debug, PartialEq)]
pub struct Notepad {
    /// The current text, one entry per character.
    pub text: Vec<char>,
}

/// The effect of one edit operation on a text: the new text on success, or
/// the failure that leaves the text untouched.
///
/// Delete removes the character at the position; Insert places the operand
/// so that it becomes the character at the position (insertion at the end is
/// legal); Replace exchanges the character at the position for the operand.
/// A missing operand on Insert or Replace is reported before the position is
/// examined.
pub open spec fn apply_op_spec(text: Seq<char>, d: Diff) -> Result<Seq<char>, ApplyError> {
    match d.opcode {
        Operation::Del => {
            if d.index < text.len() {
                Ok(text.remove(d.index as int))
            } else {
                Err(ApplyError::IndexOutOfRange)
            }
        },
        Operation::Ins => {
            match d.operand {
                None => Err(ApplyError::MissingOperand),
                Some(c) => {
                    if d.index <= text.len() {
                        Ok(text.insert(d.index as int, c))
                    } else {
                        Err(ApplyError::IndexOutOfRange)
                    }
                },
            }
        },
        Operation::Rep => {
            match d.operand {
                None => Err(ApplyError::MissingOperand),
                Some(c) => {
                    if d.index < text.len() {
                        Ok(text.update(d.index as int, c))
                    } else {
                        Err(ApplyError::IndexOutOfRange)
                    }
                },
            }
        },
    }
}

/// The effect of a batch on a text: operations are applied strictly in
/// sequence order, each against the text left by its predecessors. The
/// first failure aborts the rest of the batch but keeps every mutation made
/// before it — deliberately non-transactional. The result is the final text
/// together with the failure, if any.
pub open spec fn apply_batch_spec(text: Seq<char>, msgs: Seq<Diff>) -> (Seq<char>, Option<
    ApplyError,
>)
    decreases msgs.len(),
{
    if msgs.len() == 0 {
        (text, None)
    } else {
        match apply_op_spec(text, msgs[0]) {
            Ok(next) => apply_batch_spec(next, msgs.drop_first()),
            Err(e) => (text, Some(e)),
        }
    }
}

impl Default for Notepad {
    /// An empty document.
    fn default() -> (r: Self)
        ensures
            r.text@ == Seq::<char>::empty(),
    {
        Notepad { text: Vec::new() }
    }
}

/// Insert/Delete inverse: for a text and a position within bounds,
/// inserting a character there and then deleting at the same position gives
/// the original text back.
pub proof fn lemma_insert_delete_inverse(text: Seq<char>, p: u8, c: char)
    requires
        p <= text.len(),
    ensures
        apply_op_spec(text, (Diff { opcode: Operation::Ins, operand: Some(c), index: p }))
            == Ok::<Seq<char>, ApplyError>(text.insert(p as int, c)),
        apply_op_spec(
            text.insert(p as int, c),
            (Diff { opcode: Operation::Del, operand: None, index: p }),
        ) == Ok::<Seq<char>, ApplyError>(text),
{
    assert(text.insert(p as int, c).remove(p as int) =~= text);
}

/// Replace equivalence: for a position within bounds, replacing the
/// character there has exactly the effect of deleting at that position and
/// then inserting the new character at the same position.
pub proof fn lemma_replace_equivalence(text: Seq<char>, p: u8, c: char)
    requires
        p < text.len(),
    ensures
        apply_op_spec(text, (Diff { opcode: Operation::Del, operand: None, index: p }))
            == Ok::<Seq<char>, ApplyError>(text.remove(p as int)),
        apply_op_spec(text, (Diff { opcode: Operation::Rep, operand: Some(c), index: p }))
            == apply_op_spec(
            text.remove(p as int),
            (Diff { opcode: Operation::Ins, operand: Some(c), index: p }),
        ),
{
    assert(text.remove(p as int).insert(p as int, c) =~= text.update(p as int, c));
}

impl Notepad {
    /// Insert `value` so that it becomes the character at `index`; whatever
    /// was there before shifts right by one. Insertion at the end of the
    /// text is legal.
    pub fn insert(&mut self, index: usize, value: char)
        requires
            index <= old(self).text@.len(),
        ensures
            final(self).text@ == old(self).text@.insert(index as int, value),
    {
        self.text.insert(index, value);
    }

    /// Remove the character at `index`.
    pub fn remove(&mut self, index: usize)
        requires
            index < old(self).text@.len(),
        ensures
            final(self).text@ == old(self).text@.remove(index as int),
    {
        self.text.remove(index);
    }

    /// Replace the character at `index` with `value`: a removal at `index`
    /// followed at once by an insertion of `value` there.
    pub fn replace(&mut self, index: usize, value: char)
        requires
            index < old(self).text@.len(),
        ensures
            final(self).text@ == old(self).text@.update(index as int, value),
    {
        self.remove(index);
        self.insert(index, value);
        proof {
            assert(final(self).text@ =~= old(self).text@.update(index as int, value));
        }
    }

    /// Apply one edit operation. On failure the text is left exactly as it
    /// was: an Insert or Replace without an operand fails with
    /// `MissingOperand`, and a position past the text's reach fails with
    /// `IndexOutOfRange`.
    pub fn apply_diff(&mut self, diff: &Diff) -> (r: Result<(), ApplyError>)
        ensures
            match apply_op_spec(old(self).text@, *diff) {
                Ok(next) => r == Ok::<(), ApplyError>(()) && final(self).text@ == next,
                Err(e) => r == Err::<(), ApplyError>(e) && final(self).text@ == old(self).text@,
            },
    {
        match diff.opcode {
            Operation::Del => {
                if (diff.index as usize) < self.text.len() {
                    self.remove(diff.index as usize);
                    Ok(())
                } else {
                    Err(ApplyError::IndexOutOfRange)
                }
            },
            Operation::Ins => {
                match diff.operand {
                    None => Err(ApplyError::MissingOperand),
                    Some(c) => {
                        if (diff.index as usize) <= self.text.len() {
                            self.insert(diff.index as usize, c);
                            Ok(())
                        } else {
                            Err(ApplyError::IndexOutOfRange)
                        }
                    },
                }
            },
            Operation::Rep => {
                match diff.operand {
                    None => Err(ApplyError::MissingOperand),
                    Some(c) => {
                        if (diff.index as usize) < self.text.len() {
                            self.replace(diff.index as usize, c);
                            Ok(())
                        } else {
                            Err(ApplyError::IndexOutOfRange)
                        }
                    },
                }
            },
        }
    }

    /// Apply a whole batch, in batch order, each operation against the text
    /// left by its predecessors. The first failure aborts the remaining
    /// operations and is returned, but the mutations already made stay in
    /// place: the batch is deliberately not transactional.
    pub fn apply_message_buf(&mut self, msg: &MessageBuf) -> (r: Result<(), ApplyError>)
        ensures
            final(self).text@ == apply_batch_spec(old(self).text@, msg.messages@).0,
            match r {
                Ok(()) => apply_batch_spec(old(self).text@, msg.messages@).1 is None,
                Err(e) => apply_batch_spec(old(self).text@, msg.messages@).1 == Some(e),
            },
    {
        let mut i: usize = 0;
        proof {
            assert(msg.messages@.skip(0) =~= msg.messages@);
        }
        while i < msg.messages.len()
            invariant
                i <= msg.messages@.len(),
                apply_batch_spec(old(self).text@, msg.messages@) == apply_batch_spec(
                    self.text@,
                    msg.messages@.skip(i as int),
                ),
            decreases msg.messages@.len() - i,
        {
            let ghost rest = msg.messages@.skip(i as int);
            proof {
                assert(rest[0] == msg.messages@[i as int]);
                assert(rest.drop_first() =~= msg.messages@.skip(i as int + 1));
            }
            match self.apply_diff(&msg.messages[i]) {
                Ok(()) => {},
                Err(e) => {
                    return Err(e);
                },
            }
            i = i + 1;
        }
        proof {
            assert(msg.messages@.skip(msg.messages@.len() as int) =~= Seq::<Diff>::empty());
        }
        Ok(())
    }
}

} // verus!
