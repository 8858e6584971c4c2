use video_nft::client::{upload_video_nft, UploadRequest, UploadVideoNFTInstruction};
use video_nft::error::ErrorKind;
use video_nft::instruction::{parse_instruction, Instruction};
use video_nft::rent::RENT_SYSVAR_ID;

fn create_bytes() -> Vec<u8> {
    let mut bytes = vec![0u8];
    bytes.extend_from_slice(&[100, 0, 0, 0, 0, 0, 0, 0]);
    bytes.extend_from_slice(&[17, 0, 0, 0]);
    bytes.extend_from_slice(b"https://cdn/x.mp4");
    bytes.extend_from_slice(&[4, 0, 0, 0]);
    bytes.extend_from_slice(b"Clip");
    bytes.extend_from_slice(&[4, 0, 0, 0]);
    bytes.extend_from_slice(b"demo");
    bytes.extend_from_slice(&[0, 0, 0, 0]);
    bytes
}

fn upload() -> UploadVideoNFTInstruction {
    UploadVideoNFTInstruction::new(
        [3u8; 32],
        String::from("https://cdn/x.mp4"),
        String::from("Clip"),
        String::from("demo"),
        100,
    )
}

#[test]
fn parse_reads_a_create_command() {
    assert_eq!(
        parse_instruction(&create_bytes()),
        Ok(Instruction::CreateVideoNFT {
            price: 100,
            url: String::from("https://cdn/x.mp4"),
            name: String::from("Clip"),
            description: String::from("demo"),
            blob: Vec::new(),
        })
    );
}

#[test]
fn parse_reads_a_create_command_with_a_blob() {
    let mut bytes = create_bytes();
    let at = bytes.len() - 4;
    bytes[at] = 3;
    bytes.extend_from_slice(&[9, 8, 7]);
    assert_eq!(
        parse_instruction(&bytes),
        Ok(Instruction::CreateVideoNFT {
            price: 100,
            url: String::from("https://cdn/x.mp4"),
            name: String::from("Clip"),
            description: String::from("demo"),
            blob: vec![9, 8, 7],
        })
    );
}

#[test]
fn parse_reads_a_transfer_command() {
    let mut bytes = vec![1u8];
    bytes.extend_from_slice(&[0x42; 32]);
    assert_eq!(
        parse_instruction(&bytes),
        Ok(Instruction::TransferVideoNFT { new_owner: [0x42; 32] })
    );
}

#[test]
fn parse_rejects_empty_bytes() {
    assert_eq!(parse_instruction(&[]), Err(ErrorKind::InvalidInstructionData));
}

#[test]
fn parse_rejects_every_unknown_opcode() {
    for opcode in 2..=255u8 {
        assert_eq!(parse_instruction(&[opcode]), Err(ErrorKind::InvalidInstructionData));
        let mut transfer_shaped = vec![opcode];
        transfer_shaped.extend_from_slice(&[0x42; 32]);
        assert_eq!(parse_instruction(&transfer_shaped), Err(ErrorKind::InvalidInstructionData));
        let mut create_shaped = create_bytes();
        create_shaped[0] = opcode;
        assert_eq!(parse_instruction(&create_shaped), Err(ErrorKind::InvalidInstructionData));
    }
}

#[test]
fn parse_rejects_a_transfer_of_the_wrong_length() {
    let mut bytes = vec![1u8];
    bytes.extend_from_slice(&[0x42; 31]);
    assert_eq!(parse_instruction(&bytes), Err(ErrorKind::InvalidInstructionData));
    bytes.extend_from_slice(&[0x42; 2]);
    assert_eq!(parse_instruction(&bytes), Err(ErrorKind::InvalidInstructionData));
    assert_eq!(parse_instruction(&[1]), Err(ErrorKind::InvalidInstructionData));
}

#[test]
fn parse_rejects_a_create_payload_of_the_wrong_shape() {
    let bytes = create_bytes();
    for len in 1..bytes.len() {
        assert_eq!(parse_instruction(&bytes[..len]), Err(ErrorKind::InvalidInstructionData));
    }
    let mut longer = bytes.clone();
    longer.push(0);
    assert_eq!(parse_instruction(&longer), Err(ErrorKind::InvalidInstructionData));
    let mut not_text = bytes.clone();
    not_text[13] = 0x80;
    assert_eq!(parse_instruction(&not_text), Err(ErrorKind::InvalidInstructionData));
}

#[test]
fn new_keeps_its_arguments() {
    let request = upload();
    assert_eq!(request.payer, [3u8; 32]);
    assert_eq!(request.video_url, "https://cdn/x.mp4");
    assert_eq!(request.name, "Clip");
    assert_eq!(request.description, "demo");
    assert_eq!(request.price, 100);
}

#[test]
fn serialize_gives_the_create_command() {
    assert_eq!(upload().serialize(), create_bytes());
}

#[test]
fn serialize_then_parse_gives_the_fields_back() {
    let request = UploadVideoNFTInstruction::new(
        [0u8; 32],
        String::from("ipfs://bafy/é"),
        String::new(),
        String::from("a\nb"),
        u64::MAX,
    );
    assert_eq!(
        parse_instruction(&request.serialize()),
        Ok(Instruction::CreateVideoNFT {
            price: u64::MAX,
            url: String::from("ipfs://bafy/é"),
            name: String::new(),
            description: String::from("a\nb"),
            blob: Vec::new(),
        })
    );
}

#[test]
fn upload_names_the_payer_and_the_rent_oracle() {
    let signer = [5u8; 32];
    assert_eq!(
        upload_video_nft(&signer, &upload()),
        Ok(UploadRequest {
            signer,
            accounts: vec![[3u8; 32], RENT_SYSVAR_ID],
            data: create_bytes(),
        })
    );
}
