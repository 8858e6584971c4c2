//! The caller's side: the upload request and the instruction bytes it becomes.

use crate::error::ErrorKind;
use crate::instruction::{
    decoded_instruction, lemma_decoded_instruction, spells, InstructionView, OPCODE_CREATE,
};
use crate::media::{encode_media, MediaView};
use crate::rent::RENT_SYSVAR_ID;
use crate::wire::Pubkey;
use vstd::prelude::*;

verus! {

/// A request to create a record for a video: who pays for and holds the
/// record, and what the record says.
#[derive(Clone, Debug, PartialEq, Eq)]
pub struct UploadVideoNFTInstruction {
    pub payer: Pubkey,
    pub video_url: String,
    pub name: String,
    pub description: String,
    pub price: u64,
}

/// What is handed to the network for one call: who signs, the accounts the
/// call names, in order, and the instruction bytes.
#[derive(Clone, Debug, PartialEq, Eq)]
pub struct UploadRequest {
    pub signer: Pubkey,
    pub accounts: Vec<Pubkey>,
    pub data: Vec<u8>,
}

/// The bytes of the create command with these fields and an empty blob, or
/// `FieldTooLarge` when a text is too long for its length prefix.
fn create_instruction_bytes(price: u64, url: &str, name: &str, description: &str) -> (r: Result<
    Vec<u8>,
    ErrorKind,
>)
    ensures
        ({
            let media = MediaView {
                price,
                url: url@,
                name: name@,
                description: description@,
                blob: Seq::empty(),
            };
            match r {
                Ok(bytes) => media.fits() && bytes@ == (InstructionView::CreateVideoNFT {
                    media,
                }).encoding(),
                Err(e) => e == ErrorKind::FieldTooLarge && !media.fits(),
            }
        }),
{
    let mut out: Vec<u8> = Vec::new();
    out.push(OPCODE_CREATE);
    let blob: Vec<u8> = Vec::new();
    match encode_media(&mut out, price, url, name, description, blob.as_slice()) {
        Ok(()) => Ok(out),
        Err(e) => Err(e),
    }
}

impl UploadVideoNFTInstruction {
    /// The media fields of the record that the request asks for. It has no blob.
    pub open spec fn media(&self) -> MediaView {
        MediaView {
            price: self.price,
            url: self.video_url@,
            name: self.name@,
            description: self.description@,
            blob: Seq::empty(),
        }
    }

    /// A request with these fields.
    pub fn new(
        payer: Pubkey,
        video_url: String,
        name: String,
        description: String,
        price: u64,
    ) -> (request: Self)
        ensures
            request == (UploadVideoNFTInstruction { payer, video_url, name, description, price }),
    {
        Self { payer, video_url, name, description, price }
    }

    /// The instruction bytes of the request: the create opcode, then the media
    /// fields with an empty blob. The payer is not part of them. Each text
    /// must fit its 4-byte length prefix.
    pub fn serialize(&self) -> (bytes: Vec<u8>)
        requires
            self.media().fits(),
        ensures
            bytes@ == (InstructionView::CreateVideoNFT { media: self.media() }).encoding(),
            decoded_instruction(bytes@) == Some(
                InstructionView::CreateVideoNFT { media: self.media() },
            ),
    {
        let r = create_instruction_bytes(
            self.price,
            self.video_url.as_str(),
            self.name.as_str(),
            self.description.as_str(),
        );
        proof {
            let spelled = InstructionView::CreateVideoNFT { media: self.media() };
            assert(spells(spelled.encoding(), spelled));
            lemma_decoded_instruction(spelled.encoding());
        }
        match r {
            Ok(bytes) => bytes,
            Err(_) => Vec::new(),
        }
    }
}

/// Prepares the upload of a video's record: the create instruction, signed by
/// `signer`, on the payer's account and the rent oracle, in the order that the
/// create command expects. Fails with `FieldTooLarge` exactly when a text is
/// too long for its length prefix.
pub fn upload_video_nft(signer: &Pubkey, instruction: &UploadVideoNFTInstruction) -> (r: Result<
    UploadRequest,
    ErrorKind,
>)
    ensures
        match r {
            Ok(request) => {
                &&& instruction.media().fits()
                &&& request.signer == *signer
                &&& request.accounts@ == seq![instruction.payer, RENT_SYSVAR_ID]
                &&& request.data@ == (InstructionView::CreateVideoNFT {
                    media: instruction.media(),
                }).encoding()
                &&& decoded_instruction(request.data@) == Some(
                    InstructionView::CreateVideoNFT { media: instruction.media() },
                )
            },
            Err(e) => e == ErrorKind::FieldTooLarge && !instruction.media().fits(),
        },
{
    let data = match create_instruction_bytes(
        instruction.price,
        instruction.video_url.as_str(),
        instruction.name.as_str(),
        instruction.description.as_str(),
    ) {
        Ok(data) => data,
        Err(e) => {
            return Err(e);
        },
    };
    proof {
        let spelled = InstructionView::CreateVideoNFT { media: instruction.media() };
        assert(spells(spelled.encoding(), spelled));
        lemma_decoded_instruction(spelled.encoding());
    }
    let mut accounts: Vec<Pubkey> = Vec::new();
    accounts.push(instruction.payer);
    accounts.push(RENT_SYSVAR_ID);
    assert(accounts@ =~= seq![instruction.payer, RENT_SYSVAR_ID]);
    Ok(UploadRequest { signer: *signer, accounts, data })
}

} // verus!
