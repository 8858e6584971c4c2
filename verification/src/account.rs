//! Accounts and the lifecycle of the record inside one: it is created once,
//! into a buffer that is large enough and funded, and never resized.

use crate::error::ErrorKind;
use crate::record::{
    decode_prefix, encode, lemma_decode_encode, lemma_encoding_len, stored_record, VideoNFT,
    VideoNFTView, FLAG_OFFSET,
};
use crate::rent::{minimum_balance, rent_exempt_minimum, RentConfig};
use crate::wire::{overwritten, Pubkey};
use vstd::prelude::*;

verus! {

/// An account as the host runtime hands it over: a buffer of fixed capacity, a
/// balance, and who may do what with it.
#[derive(Clone, Debug, PartialEq, Eq)]
pub struct Account {
    /// The account's address.
    pub key: Pubkey,
    /// The program that owns the account.
    pub owner: Pubkey,
    /// The balance.
    pub lamports: u64,
    /// The buffer. Its length is the account's capacity.
    pub data: Vec<u8>,
    /// Whether the account signed the transaction.
    pub is_signer: bool,
    /// Whether the buffer may be written.
    pub is_writable: bool,
}

/// Whether a buffer says that it holds a created record: it reaches the flag at
/// offset 32 and the flag is set.
pub open spec fn initialized_flag(data: Seq<u8>) -> bool {
    data.len() > 32 && data[32] != 0
}

/// Whether `after` is `before` with nothing but the buffer's content changed.
pub open spec fn same_but_data(after: Account, before: Account) -> bool {
    &&& after.key == before.key
    &&& after.owner == before.owner
    &&& after.lamports == before.lamports
    &&& after.is_signer == before.is_signer
    &&& after.is_writable == before.is_writable
    &&& after.data@.len() == before.data@.len()
}

/// Whether a balance reaches the minimum that the oracle gave.
pub open spec fn funded(lamports: u64, minimum: Option<u64>) -> bool {
    minimum matches Some(least) && lamports >= least
}

/// Why an image of `image_len` bytes is not written into an account, if it is
/// not: first for want of funds, then for want of room.
pub open spec fn admit_refusal(
    capacity: nat,
    lamports: u64,
    image_len: nat,
    minimum: Option<u64>,
) -> Option<ErrorKind> {
    if !funded(lamports, minimum) {
        Some(ErrorKind::InsufficientFunds)
    } else if capacity < image_len {
        Some(ErrorKind::BufferTooSmall)
    } else {
        None
    }
}

/// Why a record is not created in an account, if it is not. The checks come in
/// this order: the account is fresh, the record fits its length prefixes, the
/// balance exempts a buffer of the record's size from rent, the buffer has room.
pub open spec fn create_refusal(
    data: Seq<u8>,
    lamports: u64,
    v: VideoNFTView,
    rent: RentConfig,
) -> Option<ErrorKind> {
    if initialized_flag(data) {
        Some(ErrorKind::AccountAlreadyInitialized)
    } else if !v.well_formed() {
        Some(ErrorKind::FieldTooLarge)
    } else {
        admit_refusal(
            data.len(),
            lamports,
            v.encoding().len(),
            rent_exempt_minimum(rent, v.encoding().len()),
        )
    }
}

/// Why a record is not stored in a buffer, if it is not.
pub open spec fn store_refusal(capacity: nat, v: VideoNFTView) -> Option<ErrorKind> {
    if !v.well_formed() {
        Some(ErrorKind::FieldTooLarge)
    } else if capacity < v.encoding().len() {
        Some(ErrorKind::BufferTooSmall)
    } else {
        None
    }
}

/// A created record bars a second creation: once a record has been created in
/// an account, every further creation there is refused with
/// `AccountAlreadyInitialized`, whatever record, balance and rent it comes with.
pub proof fn lemma_create_once(
    data: Seq<u8>,
    lamports: u64,
    v: VideoNFTView,
    rent: RentConfig,
    next_lamports: u64,
    next: VideoNFTView,
    next_rent: RentConfig,
)
    requires
        create_refusal(data, lamports, v, rent) is None,
    ensures
        create_refusal(
            overwritten(data, v.marked_initialized().encoding()),
            next_lamports,
            next,
            next_rent,
        ) == Some(ErrorKind::AccountAlreadyInitialized),
{
    lemma_encoding_len(v.marked_initialized());
}

/// The capacity boundary: of a fresh, funded account and a well-formed record,
/// creation succeeds when the record's image is as long as the buffer or
/// shorter, and is refused with `BufferTooSmall` when it is longer.
pub proof fn lemma_capacity_boundary(
    data: Seq<u8>,
    lamports: u64,
    v: VideoNFTView,
    rent: RentConfig,
)
    requires
        !initialized_flag(data),
        v.well_formed(),
        funded(lamports, rent_exempt_minimum(rent, v.encoding().len())),
    ensures
        v.encoding().len() > data.len() ==> create_refusal(data, lamports, v, rent) == Some(
            ErrorKind::BufferTooSmall,
        ),
        v.encoding().len() <= data.len() ==> create_refusal(data, lamports, v, rent) is None,
{
}

/// A record that was created or stored is the record that the buffer holds
/// afterwards, whatever the buffer held behind it.
pub proof fn lemma_stored_after_write(data: Seq<u8>, v: VideoNFTView)
    requires
        v.well_formed(),
        v.encoding().len() <= data.len(),
    ensures
        stored_record(overwritten(data, v.encoding())) == Some(v),
        overwritten(data, v.encoding()).len() == data.len(),
{
    lemma_decode_encode(v, data.skip(v.encoding().len() as int));
}

/// Whether the account's buffer says that it holds a created record.
pub fn is_initialized(account: &Account) -> (set: bool)
    ensures
        set == initialized_flag(account.data@),
{
    account.data.len() > FLAG_OFFSET && account.data[FLAG_OFFSET] != 0
}

/// Replaces the first bytes of the account's buffer by `image`.
pub(crate) fn write_image(account: &mut Account, image: &[u8])
    requires
        image@.len() <= old(account).data@.len(),
    ensures
        same_but_data(*final(account), *old(account)),
        final(account).data@ == overwritten(old(account).data@, image@),
{
    let ghost before = account.data@;
    let mut i: usize = 0;
    while i < image.len()
        invariant
            i <= image.len() <= account.data@.len(),
            account.data@.len() == before.len(),
            same_but_data(*account, *old(account)),
            forall|j: int| 0 <= j < i ==> account.data@[j] == image@[j],
            forall|j: int| i <= j < before.len() ==> account.data@[j] == before[j],
        decreases image.len() - i,
    {
        account.data[i] = image[i];
        i += 1;
    }
    assert(account.data@ =~= overwritten(before, image@));
}

/// Reads the record that the account's buffer holds. Fails with
/// `MalformedRecord` exactly when the buffer starts with no record.
pub fn load_video_nft(account: &Account) -> (r: Result<VideoNFT, ErrorKind>)
    ensures
        match r {
            Ok(video_nft) => stored_record(account.data@) == Some(video_nft@),
            Err(e) => e == ErrorKind::MalformedRecord && stored_record(account.data@) is None,
        },
{
    match decode_prefix(account.data.as_slice()) {
        Ok((video_nft, _)) => Ok(video_nft),
        Err(e) => Err(e),
    }
}

/// Writes the record's image over the first bytes of the account's buffer and
/// leaves the rest of the account as it is. Fails, and writes nothing, with
/// `FieldTooLarge` when a field is too long for its length prefix, else with
/// `BufferTooSmall` when the image is longer than the buffer.
pub fn store_video_nft(video_nft: &VideoNFT, account: &mut Account) -> (r: Result<(), ErrorKind>)
    ensures
        match store_refusal(old(account).data@.len(), video_nft@) {
            Some(e) => r == Err::<(), ErrorKind>(e) && *final(account) == *old(account),
            None => r is Ok && same_but_data(*final(account), *old(account)) && final(account).data@ == overwritten(old(account).data@, video_nft@.encoding()) && stored_record(
                final(account).data@,
            ) == Some(video_nft@),
        },
{
    let image = match encode(video_nft) {
        Ok(image) => image,
        Err(e) => {
            return Err(e);
        },
    };
    if account.data.len() < image.len() {
        return Err(ErrorKind::BufferTooSmall);
    }
    proof {
        lemma_stored_after_write(account.data@, video_nft@);
    }
    write_image(account, image.as_slice());
    Ok(())
}

/// Writes `image` over the first bytes of the account's buffer once the oracle
/// has given the minimum balance for a buffer of the image's size. Fails, and
/// writes nothing, with `InsufficientFunds` when the oracle gave no minimum or
/// the balance is below it, else with `BufferTooSmall` when the image is longer
/// than the buffer.
pub fn admit_image(account: &mut Account, image: &[u8], minimum: Option<u64>) -> (r: Result<
    (),
    ErrorKind,
>)
    ensures
        match admit_refusal(
            old(account).data@.len(),
            old(account).lamports,
            image@.len(),
            minimum,
        ) {
            Some(e) => r == Err::<(), ErrorKind>(e) && *final(account) == *old(account),
            None => r is Ok && same_but_data(*final(account), *old(account)) && final(account).data@ == overwritten(old(account).data@, image@),
        },
{
    match minimum {
        Some(least) => {
            if account.lamports < least {
                return Err(ErrorKind::InsufficientFunds);
            }
        },
        None => {
            return Err(ErrorKind::InsufficientFunds);
        },
    }
    if account.data.len() < image.len() {
        return Err(ErrorKind::BufferTooSmall);
    }
    write_image(account, image);
    Ok(())
}

/// Creates the record in the account: marks it initialized and writes its
/// image over the first bytes of the buffer, once every check has passed.
/// A failed check leaves the account as it was, byte for byte. The checks
/// and their order are those of [`create_refusal`].
pub fn create_record(account: &mut Account, video_nft: VideoNFT, rent: &RentConfig) -> (r: Result<
    (),
    ErrorKind,
>)
    ensures
        r is Err ==> *final(account) == *old(account),
        match create_refusal(old(account).data@, old(account).lamports, video_nft@, *rent) {
            Some(e) => r == Err::<(), ErrorKind>(e),
            None => r is Ok && same_but_data(*final(account), *old(account)) && final(account).data@ == overwritten(
                old(account).data@,
                video_nft@.marked_initialized().encoding(),
            ) && stored_record(final(account).data@) == Some(video_nft@.marked_initialized()),
        },
{
    if is_initialized(account) {
        return Err(ErrorKind::AccountAlreadyInitialized);
    }
    let mut created = video_nft;
    created.initialized = true;
    proof {
        lemma_encoding_len(video_nft@);
        lemma_encoding_len(created@);
    }
    let image = match encode(&created) {
        Ok(image) => image,
        Err(e) => {
            return Err(e);
        },
    };
    let minimum = minimum_balance(rent, image.len());
    proof {
        if created@.encoding().len() <= account.data@.len() {
            lemma_stored_after_write(account.data@, created@);
        }
    }
    admit_image(account, image.as_slice(), minimum)
}

} // verus!
