use video_nft::account::{load_video_nft, store_video_nft, Account};
use video_nft::error::ErrorKind;
use video_nft::record::VideoNFT;
use video_nft::transfer::{authorize_transfer, transfer_record};

const K1: [u8; 32] = [0x11; 32];
const K2: [u8; 32] = [0x22; 32];
const K3: [u8; 32] = [0x33; 32];

fn clip(owner: [u8; 32]) -> VideoNFT {
    VideoNFT {
        owner,
        initialized: true,
        price: 100,
        url: String::from("https://cdn/x.mp4"),
        name: String::from("Clip"),
        description: String::from("demo"),
        blob: vec![4, 5, 6],
    }
}

fn holding(record: &VideoNFT, capacity: usize) -> Account {
    let mut account = Account {
        key: [1u8; 32],
        owner: [2u8; 32],
        lamports: 7,
        data: vec![0xaa; capacity],
        is_signer: false,
        is_writable: true,
    };
    store_video_nft(record, &mut account).unwrap();
    account
}

#[test]
fn authorize_hands_the_record_to_the_new_owner() {
    assert_eq!(authorize_transfer(clip(K1), &K1, &K2), Ok(clip(K2)));
}

#[test]
fn authorize_refuses_a_signer_that_is_not_the_owner() {
    assert_eq!(authorize_transfer(clip(K1), &K3, &K2), Err(ErrorKind::Unauthorized));
    assert_eq!(authorize_transfer(clip(K1), &K2, &K2), Err(ErrorKind::Unauthorized));
    let mut nearly = K1;
    nearly[31] ^= 1;
    assert_eq!(authorize_transfer(clip(K1), &nearly, &K2), Err(ErrorKind::Unauthorized));
}

#[test]
fn transfer_by_the_owner_changes_the_owner_alone() {
    let mut account = holding(&clip(K1), 200);
    let before = account.clone();
    assert_eq!(transfer_record(&mut account, &K1, &K2), Ok(()));
    assert_eq!(load_video_nft(&account), Ok(clip(K2)));
    assert_eq!(&account.data[..32], &K2);
    assert_eq!(&account.data[32..], &before.data[32..]);
    assert_eq!(account.lamports, before.lamports);
    assert_eq!(account.key, before.key);
    assert_eq!(account.owner, before.owner);
}

#[test]
fn transfer_by_another_signer_is_refused() {
    let mut account = holding(&clip(K1), 200);
    let before = account.clone();
    assert_eq!(transfer_record(&mut account, &K3, &K2), Err(ErrorKind::Unauthorized));
    assert_eq!(account, before);
    assert_eq!(transfer_record(&mut account, &K2, &K2), Err(ErrorKind::Unauthorized));
    assert_eq!(account, before);
}

#[test]
fn transfer_passes_the_authority_on() {
    let mut account = holding(&clip(K1), 85);
    assert_eq!(transfer_record(&mut account, &K1, &K2), Ok(()));
    assert_eq!(transfer_record(&mut account, &K1, &K3), Err(ErrorKind::Unauthorized));
    assert_eq!(transfer_record(&mut account, &K2, &K3), Ok(()));
    assert_eq!(load_video_nft(&account), Ok(clip(K3)));
}

#[test]
fn transfer_of_a_buffer_without_a_record_is_refused() {
    let mut account = Account {
        key: [1u8; 32],
        owner: [2u8; 32],
        lamports: 7,
        data: vec![0xaa; 200],
        is_signer: false,
        is_writable: true,
    };
    let before = account.clone();
    assert_eq!(transfer_record(&mut account, &[0xaa; 32], &K2), Err(ErrorKind::MalformedRecord));
    assert_eq!(account, before);
    account.data = Vec::new();
    assert_eq!(transfer_record(&mut account, &K1, &K2), Err(ErrorKind::MalformedRecord));
}
