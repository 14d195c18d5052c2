//! The stream driver: decodes instruction after instruction until the bytes
//! run out or one cannot be decoded.

use crate::cursor::ByteCursor;
use crate::dispatch::{decode_error, disassemble_instruction, instruction_len, instruction_text,
    is_decodable, lemma_instruction_reads_its_own_bytes, DecodeError};
use vstd::prelude::*;

verus! {

/// The first line of every listing: it declares 16-bit mode.
pub const HEADER: &'static str = "bits 16";

/// The result of disassembling a byte stream.
#[derive(Debug)]
pub struct Disassembly {
    /// The header, a blank line, and one line for each instruction that was
    /// decoded, in the order of the bytes.
    pub text: String,
    /// Why decoding stopped before the end of the bytes, if it did.
    pub error: Option<DecodeError>,
}

/// The lines of the instructions at the start of `bytes`, each ended by a
/// newline, up to the end of `bytes` or to the first place where no whole
/// instruction of a known encoding starts.
pub open spec fn listing_text(bytes: Seq<u8>) -> Seq<char>
    decreases bytes.len(),
{
    if is_decodable(bytes) {
        instruction_text(bytes) + "\n"@ + listing_text(bytes.skip(instruction_len(bytes) as int))
    } else {
        Seq::empty()
    }
}

/// The number of bytes that the instructions listed by `listing_text` take up.
pub open spec fn listing_len(bytes: Seq<u8>) -> nat
    decreases bytes.len(),
{
    if is_decodable(bytes) {
        instruction_len(bytes) + listing_len(bytes.skip(instruction_len(bytes) as int))
    } else {
        0
    }
}

/// Why the listing of `bytes`, which start at `offset` in their stream, stops
/// before the end of `bytes`; `None` if it does not.
pub open spec fn listing_error(bytes: Seq<u8>, offset: nat) -> Option<DecodeError>
    decreases bytes.len(),
{
    if bytes.len() == 0 {
        None
    } else if is_decodable(bytes) {
        listing_error(
            bytes.skip(instruction_len(bytes) as int),
            offset + instruction_len(bytes),
        )
    } else {
        Some(decode_error(bytes, offset as usize))
    }
}

/// The whole text for `bytes`: the header, a blank line and the listing.
pub open spec fn disassembly_text(bytes: Seq<u8>) -> Seq<char> {
    HEADER@ + "\n\n"@ + listing_text(bytes)
}

impl Disassembly {
    /// Whether `self` is the disassembly of `bytes`.
    pub open spec fn is_disassembly_of(self, bytes: Seq<u8>) -> bool {
        &&& self.text@ == disassembly_text(bytes)
        &&& self.error == listing_error(bytes, 0)
    }

    /// Whether every byte was decoded.
    pub fn is_complete(&self) -> (complete: bool)
        ensures
            complete == (self.error is None),
    {
        self.error.is_none()
    }
}

/// Disassembles `machine_code` from its first byte on. Decoding stops at the
/// first instruction that cannot be decoded; the lines before it are still
/// returned, together with the error.
pub fn disassemble(machine_code: &[u8]) -> (disassembly: Disassembly)
    ensures
        disassembly.is_disassembly_of(machine_code@),
{
    let mut cursor = ByteCursor::new(machine_code);
    let mut text = String::from_str(HEADER);
    text.append("\n\n");
    let mut error: Option<DecodeError> = None;

    loop
        invariant_except_break
            error is None,
            cursor.stream() == machine_code@,
            disassembly_text(machine_code@) == text@ + listing_text(cursor.remaining()),
            listing_error(machine_code@, 0) == listing_error(
                cursor.remaining(),
                cursor.offset(),
            ),
        ensures
            text@ == disassembly_text(machine_code@),
            error == listing_error(machine_code@, 0),
        decreases machine_code@.len() - cursor.offset(),
    {
        if cursor.peek().is_none() {
            break ;
        }
        let ghost before = cursor;
        match disassemble_instruction(&mut cursor) {
            Ok(line) => {
                text.append(line.as_str());
                text.append("\n");
                assert(cursor.remaining() == before.remaining().skip(
                    instruction_len(before.remaining()) as int,
                ));
            },
            Err(stop) => {
                error = Some(stop);
                break ;
            },
        }
    }
    Disassembly { text, error }
}

/// Disassembly is a function of the bytes alone: two disassemblies of the
/// same bytes have the same text and the same error.
pub proof fn lemma_disassembly_is_deterministic(
    bytes: Seq<u8>,
    first: Disassembly,
    second: Disassembly,
)
    requires
        first.is_disassembly_of(bytes),
        second.is_disassembly_of(bytes),
    ensures
        first.text@ == second.text@,
        first.error == second.error,
{
}

/// A listing stops where its error says: it is complete exactly when its
/// instructions take up every byte, and otherwise the error is the reason why
/// no instruction can be decoded from the bytes that are left, and carries the
/// offset of the first of them.
pub proof fn lemma_listing_stops_at_its_error(bytes: Seq<u8>, offset: nat)
    requires
        offset + bytes.len() <= usize::MAX,
    ensures
        listing_len(bytes) <= bytes.len(),
        listing_error(bytes, offset) is None <==> listing_len(bytes) == bytes.len(),
        listing_error(bytes, offset) matches Some(error) ==> {
            &&& error.offset() == offset + listing_len(bytes)
            &&& error == decode_error(
                bytes.skip(listing_len(bytes) as int),
                (offset + listing_len(bytes)) as usize,
            )
        },
    decreases bytes.len(),
{
    if is_decodable(bytes) {
        let len = instruction_len(bytes);
        let rest = bytes.skip(len as int);
        lemma_listing_stops_at_its_error(rest, offset + len);
        assert(rest.skip(listing_len(rest) as int) =~= bytes.skip(listing_len(bytes) as int));
    } else {
        assert(bytes.skip(0) =~= bytes);
    }
}

/// Instructions are decoded one after the other, each on its own: where
/// `head` is decoded to its end, the listing of `head` followed by `tail` is
/// the listing of `head` followed by the listing of `tail`, and it stops
/// where the listing of `tail` stops.
pub proof fn lemma_listing_of_concatenation(head: Seq<u8>, tail: Seq<u8>, offset: nat)
    requires
        listing_error(head, offset) is None,
    ensures
        listing_text(head + tail) == listing_text(head) + listing_text(tail),
        listing_error(head + tail, offset) == listing_error(tail, offset + head.len()),
    decreases head.len(),
{
    if head.len() == 0 {
        assert(head + tail =~= tail);
    } else {
        let len = instruction_len(head);
        assert((head + tail).take(len as int) =~= head.take(len as int));
        lemma_instruction_reads_its_own_bytes(head, head + tail);
        assert((head + tail).skip(len as int) =~= head.skip(len as int) + tail);
        lemma_listing_of_concatenation(head.skip(len as int), tail, offset + len);
    }
}

} // verus!
