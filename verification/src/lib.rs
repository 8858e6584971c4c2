//! On-chain storage of media records: one record per account, created once,
//! transferred only by its owner.
//!
//! A call is a program id, an ordered account list and instruction bytes. It
//! is decoded, then validated, then applied: every check comes before the
//! first byte is written, so a call that fails leaves no trace.

pub mod account;
pub mod client;
pub mod error;
pub mod instruction;
pub mod media;
pub mod processor;
pub mod record;
pub mod rent;
pub mod transfer;
pub mod wire;

pub use account::{create_record, load_video_nft, store_video_nft, Account};
pub use client::{upload_video_nft, UploadRequest, UploadVideoNFTInstruction};
pub use error::ErrorKind;
pub use instruction::{parse_instruction, Instruction};
pub use processor::{create_account, process_instruction, transfer_video_nft};
pub use record::{decode, encode, VideoNFT};
pub use rent::RentConfig;
pub use transfer::{authorize_transfer, transfer_record};
pub use wire::Pubkey;
