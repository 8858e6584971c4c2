use video_nft::account::{
    admit_image, create_record, is_initialized, load_video_nft, store_video_nft, Account,
};
use video_nft::error::ErrorKind;
use video_nft::record::{encode, VideoNFT};
use video_nft::rent::{RentConfig, THRESHOLD_ONE};

fn rent() -> RentConfig {
    RentConfig { lamports_per_byte: 10, exemption_threshold: THRESHOLD_ONE, burn_percent: 50 }
}

fn fresh(capacity: usize, lamports: u64) -> Account {
    Account {
        key: [1u8; 32],
        owner: [2u8; 32],
        lamports,
        data: vec![0u8; capacity],
        is_signer: false,
        is_writable: true,
    }
}

fn clip() -> VideoNFT {
    VideoNFT {
        owner: [9u8; 32],
        initialized: false,
        price: 100,
        url: String::from("https://cdn/x.mp4"),
        name: String::from("Clip"),
        description: String::from("demo"),
        blob: Vec::new(),
    }
}

fn created_clip() -> VideoNFT {
    let mut record = clip();
    record.initialized = true;
    record
}

#[test]
fn a_fresh_buffer_is_not_initialized() {
    assert_eq!(is_initialized(&fresh(200, 0)), false);
    assert_eq!(is_initialized(&fresh(0, 0)), false);
    assert_eq!(is_initialized(&fresh(32, 0)), false);
    let mut short = fresh(33, 0);
    assert_eq!(is_initialized(&short), false);
    short.data[32] = 1;
    assert_eq!(is_initialized(&short), true);
    short.data[32] = 7;
    assert_eq!(is_initialized(&short), true);
}

#[test]
fn create_marks_the_record_and_writes_its_image() {
    let mut account = fresh(200, 2100);
    assert_eq!(create_record(&mut account, clip(), &rent()), Ok(()));
    let image = encode(&created_clip()).unwrap();
    assert_eq!(&account.data[..82], &image[..]);
    assert_eq!(&account.data[82..], &[0u8; 118][..]);
    assert_eq!(account.lamports, 2100);
    assert_eq!(account.key, [1u8; 32]);
    assert_eq!(account.owner, [2u8; 32]);
    assert_eq!(is_initialized(&account), true);
    assert_eq!(load_video_nft(&account), Ok(created_clip()));
}

#[test]
fn create_leaves_what_lies_behind_the_record() {
    let mut account = fresh(100, 2100);
    for byte in account.data[33..].iter_mut() {
        *byte = 0xee;
    }
    assert_eq!(create_record(&mut account, clip(), &rent()), Ok(()));
    assert_eq!(&account.data[82..], &[0xeeu8; 18][..]);
    assert_eq!(load_video_nft(&account), Ok(created_clip()));
}

#[test]
fn create_twice_is_refused_the_second_time() {
    let mut account = fresh(200, 2100);
    assert_eq!(create_record(&mut account, clip(), &rent()), Ok(()));
    let after_first = account.clone();
    let mut other = clip();
    other.name = String::from("Other");
    assert_eq!(create_record(&mut account, other, &rent()), Err(ErrorKind::AccountAlreadyInitialized));
    assert_eq!(account, after_first);
    assert_eq!(
        create_record(&mut account, clip(), &rent()),
        Err(ErrorKind::AccountAlreadyInitialized)
    );
    assert_eq!(account, after_first);
}

#[test]
fn create_needs_the_rent_exempt_minimum() {
    let minimum = (128 + 82) * 10;
    let mut poor = fresh(200, minimum - 1);
    poor.data[40] = 0x55;
    let before = poor.clone();
    assert_eq!(create_record(&mut poor, clip(), &rent()), Err(ErrorKind::InsufficientFunds));
    assert_eq!(poor, before);
    let mut funded = fresh(200, minimum);
    assert_eq!(create_record(&mut funded, clip(), &rent()), Ok(()));
}

#[test]
fn create_is_refused_where_the_oracle_has_no_answer() {
    let mut account = fresh(200, u64::MAX);
    let before = account.clone();
    let no_answer = RentConfig {
        lamports_per_byte: u64::MAX,
        exemption_threshold: THRESHOLD_ONE,
        burn_percent: 50,
    };
    assert_eq!(create_record(&mut account, clip(), &no_answer), Err(ErrorKind::InsufficientFunds));
    assert_eq!(account, before);
}

#[test]
fn create_is_refused_under_another_threshold() {
    let mut account = fresh(200, u64::MAX);
    let before = account.clone();
    let other = RentConfig {
        lamports_per_byte: 10,
        exemption_threshold: 1.5f64.to_bits(),
        burn_percent: 50,
    };
    assert_eq!(create_record(&mut account, clip(), &other), Err(ErrorKind::InsufficientFunds));
    assert_eq!(account, before);
}

#[test]
fn create_succeeds_exactly_at_capacity() {
    let mut account = fresh(82, 2100);
    assert_eq!(create_record(&mut account, clip(), &rent()), Ok(()));
    assert_eq!(account.data, encode(&created_clip()).unwrap());
}

#[test]
fn create_fails_one_byte_over_capacity() {
    let mut account = fresh(81, 2100);
    let before = account.clone();
    assert_eq!(create_record(&mut account, clip(), &rent()), Err(ErrorKind::BufferTooSmall));
    assert_eq!(account, before);
    let mut none = fresh(0, 2100);
    assert_eq!(create_record(&mut none, clip(), &rent()), Err(ErrorKind::BufferTooSmall));
}

#[test]
fn create_checks_funds_before_room() {
    let mut account = fresh(10, 0);
    assert_eq!(create_record(&mut account, clip(), &rent()), Err(ErrorKind::InsufficientFunds));
}

#[test]
fn admit_compares_the_balance_with_the_minimum() {
    let image = [1u8, 2, 3];
    let mut account = fresh(5, 100);
    assert_eq!(admit_image(&mut account, &image, Some(101)), Err(ErrorKind::InsufficientFunds));
    assert_eq!(admit_image(&mut account, &image, None), Err(ErrorKind::InsufficientFunds));
    assert_eq!(account.data, vec![0u8; 5]);
    assert_eq!(admit_image(&mut account, &image, Some(100)), Ok(()));
    assert_eq!(account.data, vec![1, 2, 3, 0, 0]);
    assert_eq!(admit_image(&mut account, &[9u8; 6], Some(0)), Err(ErrorKind::BufferTooSmall));
    assert_eq!(account.data, vec![1, 2, 3, 0, 0]);
    assert_eq!(admit_image(&mut account, &[9u8; 5], Some(0)), Ok(()));
    assert_eq!(account.data, vec![9u8; 5]);
}

#[test]
fn store_then_load_gives_the_record_back() {
    let mut account = fresh(120, 0);
    assert_eq!(store_video_nft(&clip(), &mut account), Ok(()));
    assert_eq!(load_video_nft(&account), Ok(clip()));
    assert_eq!(account.lamports, 0);
    assert_eq!(account.data.len(), 120);
}

#[test]
fn store_needs_room_for_the_image() {
    let mut account = fresh(81, 0);
    assert_eq!(store_video_nft(&clip(), &mut account), Err(ErrorKind::BufferTooSmall));
    assert_eq!(account.data, vec![0u8; 81]);
}

#[test]
fn load_rejects_a_buffer_that_holds_no_record() {
    assert_eq!(load_video_nft(&fresh(56, 0)), Err(ErrorKind::MalformedRecord));
    let mut account = fresh(200, 0);
    account.data[41] = 0xff;
    assert_eq!(load_video_nft(&account), Err(ErrorKind::MalformedRecord));
}

#[test]
fn load_of_a_zeroed_buffer_is_the_empty_record() {
    assert_eq!(
        load_video_nft(&fresh(57, 0)),
        Ok(VideoNFT {
            owner: [0u8; 32],
            initialized: false,
            price: 0,
            url: String::new(),
            name: String::new(),
            description: String::new(),
            blob: Vec::new(),
        })
    );
}
