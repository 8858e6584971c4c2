//! The dispatcher: decode the command, validate the accounts it names, and
//! only then write. A call that fails has written nothing.
//!
//! The create command expects `[target, rent oracle]`, the transfer command
//! `[target, signer]`. The target must be writable and owned by the program.

use crate::account::{
    create_record, create_refusal, lemma_create_once, lemma_stored_after_write, same_but_data,
    Account,
};
use crate::error::ErrorKind;
use crate::instruction::{decoded_instruction, parse_instruction, Instruction, InstructionView};
use crate::media::MediaView;
use crate::record::{stored_record, VideoNFT, VideoNFTView};
use crate::rent::{read_rent_config, rent_config_at, RentConfig, RENT_SYSVAR_ID};
use crate::transfer::{lemma_transfer_image, transfer_record, transfer_refusal};
use crate::wire::{overwritten, same_key, Pubkey};
use vstd::prelude::*;

verus! {

/// Number of accounts that either command names.
pub const ACCOUNTS_PER_CALL: usize = 2;

/// Whether the program may write the account: it is writable and the program
/// owns it.
pub open spec fn is_target(program_id: Pubkey, account: Account) -> bool {
    account.is_writable && account.owner@ == program_id@
}

/// The rent configuration that an account gives in the oracle's role: it has
/// the rent oracle's address and its data spell a configuration.
pub open spec fn oracle_rent(account: Account) -> Option<RentConfig> {
    if account.key@ == RENT_SYSVAR_ID@ {
        rent_config_at(account.data@)
    } else {
        None
    }
}

/// The record that a create command makes: the media fields of the command,
/// owned by `owner` and marked initialized.
pub open spec fn new_record(owner: Seq<u8>, media: MediaView) -> VideoNFTView {
    VideoNFTView {
        owner,
        initialized: true,
        price: media.price,
        url: media.url,
        name: media.name,
        description: media.description,
        blob: media.blob,
    }
}

/// Why a create command is refused, if it is: first for the account list, then
/// for the reasons of [`create_refusal`]. The record's first owner is the
/// target account's address.
pub open spec fn create_path_refusal(
    program_id: Pubkey,
    accounts: Seq<Account>,
    media: MediaView,
) -> Option<ErrorKind> {
    if accounts.len() != 2 || !is_target(program_id, accounts[0]) {
        Some(ErrorKind::InvalidAccountData)
    } else {
        match oracle_rent(accounts[1]) {
            None => Some(ErrorKind::InvalidAccountData),
            Some(rent) => create_refusal(
                accounts[0].data@,
                accounts[0].lamports,
                new_record(accounts[0].key@, media),
                rent,
            ),
        }
    }
}

/// Why a transfer command is refused, if it is: first for the account list,
/// then for the reasons of [`transfer_refusal`]. The signer's identity is the
/// second account's address.
pub open spec fn transfer_path_refusal(program_id: Pubkey, accounts: Seq<Account>) -> Option<
    ErrorKind,
> {
    if accounts.len() != 2 || !is_target(program_id, accounts[0]) || !accounts[1].is_signer {
        Some(ErrorKind::InvalidAccountData)
    } else {
        transfer_refusal(accounts[0].data@, accounts[1].key@)
    }
}

/// Why a call is refused, if it is: the bytes spell no instruction, or the
/// command they spell is refused.
pub open spec fn process_refusal(
    program_id: Pubkey,
    accounts: Seq<Account>,
    instruction_data: Seq<u8>,
) -> Option<ErrorKind> {
    match decoded_instruction(instruction_data) {
        None => Some(ErrorKind::InvalidInstructionData),
        Some(InstructionView::CreateVideoNFT { media }) => create_path_refusal(
            program_id,
            accounts,
            media,
        ),
        Some(InstructionView::TransferVideoNFT { new_owner }) => transfer_path_refusal(
            program_id,
            accounts,
        ),
    }
}

/// What the target's buffer holds after a command that was not refused.
pub open spec fn target_data_after(accounts: Seq<Account>, instruction: InstructionView) -> Seq<
    u8,
> {
    match instruction {
        InstructionView::CreateVideoNFT { media } => overwritten(
            accounts[0].data@,
            new_record(accounts[0].key@, media).encoding(),
        ),
        InstructionView::TransferVideoNFT { new_owner } => new_owner + accounts[0].data@.skip(32),
    }
}

/// Whether a call changed nothing but the content of the target's buffer.
pub open spec fn only_target_data_changed(after: Seq<Account>, before: Seq<Account>) -> bool {
    &&& after.len() == before.len()
    &&& before.len() > 0
    &&& same_but_data(after[0], before[0])
    &&& forall|i: int| 1 <= i < before.len() ==> after[i] == before[i]
}

/// What a create command writes is what the target holds afterwards: the
/// record with the command's media fields, owned by the target's address and
/// marked initialized.
pub proof fn lemma_create_stores(program_id: Pubkey, accounts: Seq<Account>, media: MediaView)
    requires
        create_path_refusal(program_id, accounts, media) is None,
    ensures
        stored_record(
            target_data_after(accounts, InstructionView::CreateVideoNFT { media }),
        ) == Some(new_record(accounts[0].key@, media)),
{
    lemma_stored_after_write(accounts[0].data@, new_record(accounts[0].key@, media));
}

/// Creation happens once: on the accounts that a create command left behind,
/// every further create command is refused with `AccountAlreadyInitialized`,
/// whatever media fields it brings.
pub proof fn lemma_create_twice(
    program_id: Pubkey,
    before: Seq<Account>,
    media: MediaView,
    after: Seq<Account>,
    next: MediaView,
)
    requires
        create_path_refusal(program_id, before, media) is None,
        only_target_data_changed(after, before),
        after[0].data@ == target_data_after(before, InstructionView::CreateVideoNFT { media }),
    ensures
        create_path_refusal(program_id, after, next) == Some(
            ErrorKind::AccountAlreadyInitialized,
        ),
{
    let rent = oracle_rent(before[1])->0;
    let created = new_record(before[0].key@, media);
    assert(created.marked_initialized() == created);
    lemma_create_once(
        before[0].data@,
        before[0].lamports,
        created,
        rent,
        after[0].lamports,
        new_record(after[0].key@, next),
        rent,
    );
}

/// Only the owner transfers: on a valid account list whose target holds a
/// record, a transfer command is refused with `Unauthorized` when the signer is
/// not the owner that the record names, and is carried out when it is. The
/// target then holds the same record in the new owner's hands: price, url,
/// name, description, blob and flag are as before.
pub proof fn lemma_transfer_by_owner_only(
    program_id: Pubkey,
    accounts: Seq<Account>,
    new_owner: Seq<u8>,
)
    requires
        accounts.len() == 2,
        is_target(program_id, accounts[0]),
        accounts[1].is_signer,
        stored_record(accounts[0].data@) is Some,
        new_owner.len() == 32,
    ensures
        ({
            let v = stored_record(accounts[0].data@)->0;
            let after = target_data_after(
                accounts,
                InstructionView::TransferVideoNFT { new_owner },
            );
            &&& v.owner != accounts[1].key@ ==> transfer_path_refusal(program_id, accounts)
                == Some(ErrorKind::Unauthorized)
            &&& v.owner == accounts[1].key@ ==> transfer_path_refusal(program_id, accounts) is None
            &&& stored_record(after) matches Some(moved) && moved.owner == new_owner
                && moved.initialized == v.initialized && moved.price == v.price && moved.url
                == v.url && moved.name == v.name && moved.description == v.description
                && moved.blob == v.blob
        }),
{
    lemma_transfer_image(accounts[0].data@, new_owner);
}

/// Whether the program may write the account.
fn check_target(program_id: &Pubkey, account: &Account) -> (ok: bool)
    ensures
        ok == is_target(*program_id, *account),
{
    account.is_writable && same_key(&account.owner, program_id)
}

/// Reads the rent configuration from the account in the oracle's role.
fn read_oracle(account: &Account) -> (rent: Option<RentConfig>)
    ensures
        rent == oracle_rent(*account),
{
    if !same_key(&account.key, &RENT_SYSVAR_ID) {
        return None;
    }
    read_rent_config(account.data.as_slice())
}

/// Runs the create command on `[target, rent oracle]`: creates the record with
/// these media fields in the target, owned by the target's address. Fails, and
/// writes nothing, as [`create_path_refusal`] says.
pub fn create_account(
    program_id: &Pubkey,
    accounts: &mut Vec<Account>,
    price: u64,
    url: String,
    name: String,
    description: String,
    blob: Vec<u8>,
) -> (r: Result<(), ErrorKind>)
    ensures
        r is Err ==> final(accounts)@ == old(accounts)@,
        ({
            let media = MediaView {
                price,
                url: url@,
                name: name@,
                description: description@,
                blob: blob@,
            };
            match create_path_refusal(*program_id, old(accounts)@, media) {
                Some(e) => r == Err::<(), ErrorKind>(e),
                None => r is Ok && only_target_data_changed(final(accounts)@, old(accounts)@)
                    && final(accounts)@[0].data@ == target_data_after(
                    old(accounts)@,
                    InstructionView::CreateVideoNFT { media },
                ),
            }
        }),
{
    if accounts.len() != ACCOUNTS_PER_CALL {
        return Err(ErrorKind::InvalidAccountData);
    }
    if !check_target(program_id, &accounts[0]) {
        return Err(ErrorKind::InvalidAccountData);
    }
    let rent = match read_oracle(&accounts[1]) {
        Some(rent) => rent,
        None => {
            return Err(ErrorKind::InvalidAccountData);
        },
    };
    let video_nft = VideoNFT {
        owner: accounts[0].key,
        initialized: true,
        price,
        url,
        name,
        description,
        blob,
    };
    let target = &mut accounts[0];
    let r = create_record(target, video_nft, &rent);
    proof {
        if r is Err {
            assert(accounts@ =~= old(accounts)@);
        }
    }
    r
}

/// Runs the transfer command on `[target, signer]`: hands the record in the
/// target to `new_owner` when the signer is its owner. Fails, and writes
/// nothing, as [`transfer_path_refusal`] says.
pub fn transfer_video_nft(program_id: &Pubkey, accounts: &mut Vec<Account>, new_owner: &Pubkey) -> (r:
    Result<(), ErrorKind>)
    ensures
        r is Err ==> final(accounts)@ == old(accounts)@,
        match transfer_path_refusal(*program_id, old(accounts)@) {
            Some(e) => r == Err::<(), ErrorKind>(e),
            None => r is Ok && only_target_data_changed(final(accounts)@, old(accounts)@) && final(accounts)@[0].data@ == target_data_after(
                old(accounts)@,
                InstructionView::TransferVideoNFT { new_owner: new_owner@ },
            ),
        },
{
    if accounts.len() != ACCOUNTS_PER_CALL {
        return Err(ErrorKind::InvalidAccountData);
    }
    if !check_target(program_id, &accounts[0]) {
        return Err(ErrorKind::InvalidAccountData);
    }
    if !accounts[1].is_signer {
        return Err(ErrorKind::InvalidAccountData);
    }
    let signer: Pubkey = accounts[1].key;
    let target = &mut accounts[0];
    let r = transfer_record(target, &signer, new_owner);
    proof {
        if r is Err {
            assert(accounts@ =~= old(accounts)@);
        }
    }
    r
}

/// Processes one call: decodes the instruction bytes, validates, and only then
/// writes into the target's buffer. The call either applies in full or leaves
/// every account as it was; the first failed check gives the error, as
/// [`process_refusal`] says.
pub fn process_instruction(
    program_id: &Pubkey,
    accounts: &mut Vec<Account>,
    instruction_data: &[u8],
) -> (r: Result<(), ErrorKind>)
    ensures
        r is Err ==> final(accounts)@ == old(accounts)@,
        instruction_data@.len() == 0 || instruction_data@[0] > 1 ==> r == Err::<(), ErrorKind>(
            ErrorKind::InvalidInstructionData,
        ),
        match process_refusal(*program_id, old(accounts)@, instruction_data@) {
            Some(e) => r == Err::<(), ErrorKind>(e),
            None => r is Ok && only_target_data_changed(final(accounts)@, old(accounts)@) && final(accounts)@[0].data@ == target_data_after(
                old(accounts)@,
                decoded_instruction(instruction_data@)->0,
            ),
        },
{
    match parse_instruction(instruction_data) {
        Ok(Instruction::CreateVideoNFT { price, url, name, description, blob }) => create_account(
            program_id,
            accounts,
            price,
            url,
            name,
            description,
            blob,
        ),
        Ok(Instruction::TransferVideoNFT { new_owner }) => transfer_video_nft(
            program_id,
            accounts,
            &new_owner,
        ),
        Err(e) => Err(e),
    }
}

} // verus!
