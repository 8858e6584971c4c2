//! Transfer of a record: only the owner that the record itself names may hand
//! it over, and nothing but the owner changes.

use crate::account::{lemma_stored_after_write, same_but_data, write_image, Account};
use crate::error::ErrorKind;
use crate::record::{
    decode_prefix, encode, lemma_encode_decode, lemma_encoding_len, stored_record, VideoNFT,
};
use crate::wire::{overwritten, same_key, Pubkey};
use vstd::prelude::*;

verus! {

/// Why a transfer signed by `signer` is refused, if it is: the buffer holds no
/// record, or the record names another owner.
pub open spec fn transfer_refusal(data: Seq<u8>, signer: Seq<u8>) -> Option<ErrorKind> {
    match stored_record(data) {
        None => Some(ErrorKind::MalformedRecord),
        Some(v) => if v.owner != signer {
            Some(ErrorKind::Unauthorized)
        } else {
            None
        },
    }
}

/// A transfer rewrites the owner and nothing else: the new image takes the
/// same bytes as the old one, differs from it in the first 32 bytes alone, and
/// holds the record with its new owner and every other field as before.
pub proof fn lemma_transfer_image(data: Seq<u8>, new_owner: Seq<u8>)
    requires
        stored_record(data) is Some,
        new_owner.len() == 32,
    ensures
        ({
            let v = stored_record(data)->0;
            let after = overwritten(data, v.with_owner(new_owner).encoding());
            &&& v.with_owner(new_owner).well_formed()
            &&& v.with_owner(new_owner).encoding().len() == v.encoding().len()
            &&& after == new_owner + data.skip(32)
            &&& after.len() == data.len()
            &&& stored_record(after) == Some(v.with_owner(new_owner))
        }),
{
    let v = stored_record(data)->0;
    let moved = v.with_owner(new_owner);
    lemma_encode_decode(data);
    lemma_encoding_len(v);
    lemma_encoding_len(moved);
    let after = overwritten(data, moved.encoding());
    assert(after =~= new_owner + data.skip(32)) by {
        assert forall|j: int| 0 <= j < after.len() implies after[j] == (new_owner + data.skip(
            32,
        ))[j] by {
            if 32 <= j < moved.encoding().len() {
                assert(moved.encoding()[j] == v.encoding()[j]);
                assert(v.encoding()[j] == data.subrange(0, v.encoding().len() as int)[j]);
            }
        }
    }
    lemma_stored_after_write(data, moved);
}

/// Authorizes a transfer: the record in `new_owner`'s hands when `signer` is
/// the owner that the record names, `Unauthorized` otherwise.
pub fn authorize_transfer(video_nft: VideoNFT, signer: &Pubkey, new_owner: &Pubkey) -> (r: Result<
    VideoNFT,
    ErrorKind,
>)
    ensures
        match r {
            Ok(moved) => video_nft@.owner == signer@ && moved@ == video_nft@.with_owner(
                new_owner@,
            ),
            Err(e) => e == ErrorKind::Unauthorized && video_nft@.owner != signer@,
        },
{
    if !same_key(&video_nft.owner, signer) {
        return Err(ErrorKind::Unauthorized);
    }
    let mut moved = video_nft;
    moved.owner = *new_owner;
    Ok(moved)
}

/// Hands the record in the account to `new_owner` when `signer` is its owner,
/// and writes it back into the bytes it took before. Fails, and writes
/// nothing, with `MalformedRecord` when the buffer holds no record, else with
/// `Unauthorized` when the record names another owner than `signer`.
pub fn transfer_record(account: &mut Account, signer: &Pubkey, new_owner: &Pubkey) -> (r: Result<
    (),
    ErrorKind,
>)
    ensures
        r is Err ==> *final(account) == *old(account),
        match transfer_refusal(old(account).data@, signer@) {
            Some(e) => r == Err::<(), ErrorKind>(e),
            None => {
                let v = stored_record(old(account).data@)->0;
                &&& r is Ok
                &&& same_but_data(*final(account), *old(account))
                &&& final(account).data@ == new_owner@ + old(account).data@.skip(32)
                &&& stored_record(final(account).data@) == Some(v.with_owner(new_owner@))
            },
        },
{
    let video_nft = match decode_prefix(account.data.as_slice()) {
        Ok((video_nft, _)) => video_nft,
        Err(e) => {
            return Err(e);
        },
    };
    let moved = match authorize_transfer(video_nft, signer, new_owner) {
        Ok(moved) => moved,
        Err(e) => {
            return Err(e);
        },
    };
    proof {
        lemma_transfer_image(account.data@, new_owner@);
    }
    let image = match encode(&moved) {
        Ok(image) => image,
        Err(e) => {
            return Err(e);
        },
    };
    write_image(account, image.as_slice());
    Ok(())
}

} // verus!
