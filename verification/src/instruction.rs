//! The two commands and their wire format: one opcode byte, then the payload
//! that the opcode asks for.

use crate::error::ErrorKind;
use crate::media::{
    decode_media, lemma_media_at_complete, lemma_media_at_sound, lemma_media_encoding_len,
    media_at, Media, MediaView,
};
use crate::wire::{key_at, Pubkey};
use vstd::prelude::*;

verus! {

/// Opcode of the create command.
pub const OPCODE_CREATE: u8 = 0;

/// Opcode of the transfer command.
pub const OPCODE_TRANSFER: u8 = 1;

/// Length of a transfer instruction: the opcode and the new owner.
pub const TRANSFER_LEN: usize = 33;

/// A command, decoded once per call from the instruction bytes.
#[derive(Clone, Debug, PartialEq, Eq)]
pub enum Instruction {
    /// Create a record with these media fields. Owner and flag are not part of
    /// the command: the call derives them.
    CreateVideoNFT { price: u64, url: String, name: String, description: String, blob: Vec<u8> },
    /// Hand the record to `new_owner`.
    TransferVideoNFT { new_owner: Pubkey },
}

/// An [`Instruction`] as mathematical values.
pub enum InstructionView {
    CreateVideoNFT { media: MediaView },
    TransferVideoNFT { new_owner: Seq<u8> },
}

impl View for Instruction {
    type V = InstructionView;

    open spec fn view(&self) -> InstructionView {
        match *self {
            Instruction::CreateVideoNFT {
                price,
                url,
                name,
                description,
                blob,
            } => InstructionView::CreateVideoNFT {
                media: MediaView {
                    price,
                    url: url@,
                    name: name@,
                    description: description@,
                    blob: blob@,
                },
            },
            Instruction::TransferVideoNFT { new_owner } => InstructionView::TransferVideoNFT {
                new_owner: new_owner@,
            },
        }
    }
}

impl InstructionView {
    /// The variable fields fit their length prefixes; the new owner is a
    /// 32-byte identifier.
    pub open spec fn well_formed(self) -> bool {
        match self {
            InstructionView::CreateVideoNFT { media } => media.fits(),
            InstructionView::TransferVideoNFT { new_owner } => new_owner.len() == 32,
        }
    }

    /// The instruction bytes: opcode 0 and the media fields, or opcode 1 and the
    /// new owner.
    pub open spec fn encoding(self) -> Seq<u8> {
        match self {
            InstructionView::CreateVideoNFT { media } => seq![0u8] + media.encoding(),
            InstructionView::TransferVideoNFT { new_owner } => seq![1u8] + new_owner,
        }
    }
}

/// `data` are the bytes of the well-formed instruction `i`.
pub open spec fn spells(data: Seq<u8>, i: InstructionView) -> bool {
    i.well_formed() && i.encoding() == data
}

/// The instruction that `data` spell, if they spell one.
pub open spec fn decoded_instruction(data: Seq<u8>) -> Option<InstructionView> {
    if exists|i: InstructionView| spells(data, i) {
        Some(choose|i: InstructionView| spells(data, i))
    } else {
        None
    }
}

/// The instruction read byte by byte: the opcode, then a payload of exactly
/// the shape that the opcode asks for.
pub open spec fn instruction_at(data: Seq<u8>) -> Option<InstructionView> {
    if data.len() == 0 {
        None
    } else if data[0] == 0 {
        match media_at(data, 1) {
            Some((media, end)) => if end == data.len() {
                Some(InstructionView::CreateVideoNFT { media })
            } else {
                None
            },
            None => None,
        }
    } else if data[0] == 1 {
        if data.len() == 33 {
            Some(InstructionView::TransferVideoNFT { new_owner: data.subrange(1, 33) })
        } else {
            None
        }
    } else {
        None
    }
}

/// What was read byte by byte is an instruction that the bytes spell.
pub proof fn lemma_instruction_at_sound(data: Seq<u8>)
    requires
        instruction_at(data) is Some,
    ensures
        spells(data, instruction_at(data)->0),
{
    if data[0] == 0 {
        lemma_media_at_sound(data, 1);
        assert(data =~= seq![0u8] + data.subrange(1, data.len() as int));
    } else {
        assert(data =~= seq![1u8] + data.subrange(1, 33));
    }
}

/// An instruction that the bytes spell is read back byte by byte.
pub proof fn lemma_instruction_at_complete(data: Seq<u8>, i: InstructionView)
    requires
        spells(data, i),
    ensures
        instruction_at(data) == Some(i),
{
    match i {
        InstructionView::CreateVideoNFT { media } => {
            lemma_media_encoding_len(media);
            assert(data.subrange(1, 1 + media.encoding().len() as int) =~= media.encoding());
            lemma_media_at_complete(data, 1, media);
        },
        InstructionView::TransferVideoNFT { new_owner } => {
            assert(data.subrange(1, 33) =~= new_owner);
        },
    }
}

/// The instruction that bytes spell is the one read byte by byte, and bytes
/// spell at most one.
pub proof fn lemma_decoded_instruction(data: Seq<u8>)
    ensures
        decoded_instruction(data) == instruction_at(data),
        decoded_instruction(data) matches Some(i) ==> spells(data, i),
        forall|i: InstructionView| spells(data, i) ==> decoded_instruction(data) == Some(i),
{
    if instruction_at(data) is Some {
        lemma_instruction_at_sound(data);
        let chosen = choose|i: InstructionView| spells(data, i);
        lemma_instruction_at_complete(data, chosen);
    } else {
        if exists|i: InstructionView| spells(data, i) {
            let chosen = choose|i: InstructionView| spells(data, i);
            lemma_instruction_at_complete(data, chosen);
        }
    }
    assert forall|i: InstructionView| spells(data, i) implies decoded_instruction(data) == Some(
        i,
    ) by {
        lemma_instruction_at_complete(data, i);
    }
}

/// Bytes that are empty or start with an opcode other than 0 and 1 spell no
/// instruction.
pub proof fn lemma_unknown_opcode(data: Seq<u8>)
    requires
        data.len() == 0 || data[0] > 1,
    ensures
        decoded_instruction(data) is None,
{
    lemma_decoded_instruction(data);
}

/// Decodes the instruction bytes. Byte 0 selects the command: 0 creates, and
/// the rest are the media fields; 1 transfers, and the rest are the new
/// owner's 32 bytes. Fails with `InvalidInstructionData` exactly when the
/// bytes spell no instruction: they are empty, the opcode is unknown, or the
/// payload has not exactly the shape that the opcode asks for.
pub fn parse_instruction(instruction_data: &[u8]) -> (r: Result<Instruction, ErrorKind>)
    ensures
        match r {
            Ok(instruction) => spells(instruction_data@, instruction@) && decoded_instruction(
                instruction_data@,
            ) == Some(instruction@),
            Err(e) => e == ErrorKind::InvalidInstructionData && decoded_instruction(
                instruction_data@,
            ) is None && forall|i: InstructionView|
                i.well_formed() ==> #[trigger] i.encoding() != instruction_data@,
        },
        instruction_data@.len() == 0 || instruction_data@[0] > 1 ==> r == Err::<
            Instruction,
            ErrorKind,
        >(ErrorKind::InvalidInstructionData),
{
    proof {
        lemma_decoded_instruction(instruction_data@);
        assert forall|i: InstructionView| i.well_formed() && #[trigger] i.encoding()
            == instruction_data@ implies decoded_instruction(instruction_data@) is Some by {
            assert(spells(instruction_data@, i));
        }
    }
    if instruction_data.len() == 0 {
        return Err(ErrorKind::InvalidInstructionData);
    }
    let opcode = instruction_data[0];
    if opcode == OPCODE_CREATE {
        match decode_media(instruction_data, 1) {
            Some((media, end)) => {
                if end != instruction_data.len() {
                    return Err(ErrorKind::InvalidInstructionData);
                }
                let Media { price, url, name, description, blob } = media;
                Ok(Instruction::CreateVideoNFT { price, url, name, description, blob })
            },
            None => Err(ErrorKind::InvalidInstructionData),
        }
    } else if opcode == OPCODE_TRANSFER {
        if instruction_data.len() != TRANSFER_LEN {
            return Err(ErrorKind::InvalidInstructionData);
        }
        Ok(Instruction::TransferVideoNFT { new_owner: key_at(instruction_data, 1) })
    } else {
        Err(ErrorKind::InvalidInstructionData)
    }
}

} // verus!
