use pngme::args;
use pngme::chunk::Chunk;
use pngme::chunk_type::ChunkType;
use pngme::commands::{CmdOptions, Commands, Decode, Encode, Print, Remove};
use pngme::error::{DecodeError, EncodingError, Error, RemovalError};
use pngme::png::Png;
use std::path::PathBuf;
use std::str::FromStr;

fn plain_file() -> Vec<u8> {
    let mut bytes = Png::STANDARD_HEADER.to_vec();
    bytes.extend(Chunk::new(ChunkType::from_str("FrSt").unwrap(), b"first".to_vec()).as_bytes());
    bytes.extend(Chunk::new(ChunkType::from_str("IEND").unwrap(), Vec::new()).as_bytes());
    bytes
}

fn encode_request(chunk_type: &str, message: &str) -> Encode {
    Encode {
        file_path: PathBuf::from("image.png"),
        chunk_type: ChunkType::from_str(chunk_type).unwrap(),
        message: message.to_string(),
    }
}

fn decode_request(chunk_type: &str) -> Decode {
    Decode {
        file_path: PathBuf::from("image.png"),
        chunk_type: ChunkType::from_str(chunk_type).unwrap(),
    }
}

fn remove_request(chunk_type: &str) -> Remove {
    Remove {
        file_path: PathBuf::from("image.png"),
        chunk_type: ChunkType::from_str(chunk_type).unwrap(),
    }
}

#[test]
fn test_encode_appends_the_message() {
    let out = args::encode(&encode_request("RuSt", "hidden"), &plain_file()).unwrap();
    let mut expected = plain_file();
    expected.extend(
        Chunk::new(ChunkType::from_str("RuSt").unwrap(), b"hidden".to_vec()).as_bytes(),
    );
    assert_eq!(out, expected);
}

#[test]
fn test_decode_shows_what_encode_hid() {
    let message = "This is where your secret message will be!";
    let out = args::encode(&encode_request("RuSt", message), &plain_file()).unwrap();
    let shown = args::decode(&decode_request("RuSt"), &out).unwrap();
    assert_eq!(shown, Some(message.to_string()));
}

#[test]
fn test_decode_without_a_message() {
    assert_eq!(args::decode(&decode_request("RuSt"), &plain_file()), Ok(None));
}

#[test]
fn test_decode_of_data_that_is_not_text() {
    let mut bytes = plain_file();
    bytes.extend(Chunk::new(ChunkType::from_str("RuSt").unwrap(), vec![0xc0, 0x80]).as_bytes());
    assert_eq!(
        args::decode(&decode_request("RuSt"), &bytes),
        Err(Error::Encoding(EncodingError))
    );
}

#[test]
fn test_remove_undoes_encode() {
    let out = args::encode(&encode_request("RuSt", "hidden"), &plain_file()).unwrap();
    let back = args::remove(&remove_request("RuSt"), &out).unwrap();
    assert_eq!(back, plain_file());
    assert_eq!(args::decode(&decode_request("RuSt"), &back), Ok(None));
}

#[test]
fn test_remove_without_a_chunk() {
    assert_eq!(
        args::remove(&remove_request("RuSt"), &plain_file()),
        Err(Error::Removal(RemovalError::NotFound))
    );
}

#[test]
fn test_print_lists_every_chunk() {
    let p = Print { file_path: PathBuf::from("image.png") };
    let lines = args::print(&p, &plain_file()).unwrap();
    assert_eq!(
        lines,
        vec![
            "Length: 5\nType: FrSt\nData bytes: 5\nCRC: 1932090745\n".to_string(),
            "Length: 0\nType: IEND\nData bytes: 0\nCRC: 2923585666\n".to_string(),
        ]
    );
}

#[test]
fn test_requests_on_what_is_no_png_file() {
    let p = Print { file_path: PathBuf::from("image.png") };
    let not_png = b"GIF89a, not a PNG file".to_vec();
    assert_eq!(
        args::encode(&encode_request("RuSt", "x"), &not_png),
        Err(Error::Decode(DecodeError::BadSignature))
    );
    assert_eq!(
        args::decode(&decode_request("RuSt"), &not_png),
        Err(Error::Decode(DecodeError::BadSignature))
    );
    assert_eq!(
        args::remove(&remove_request("RuSt"), &not_png),
        Err(Error::Decode(DecodeError::BadSignature))
    );
    assert_eq!(args::print(&p, &not_png), Err(Error::Decode(DecodeError::BadSignature)));
}

#[test]
fn test_requests_on_a_damaged_file() {
    let p = Print { file_path: PathBuf::from("image.png") };
    let mut cut = plain_file();
    cut.pop();
    assert_eq!(args::print(&p, &cut), Err(Error::Decode(DecodeError::Truncated)));
    let mut changed = plain_file();
    changed[17] ^= 1;
    assert_eq!(
        args::decode(&decode_request("FrSt"), &changed),
        Err(Error::Decode(DecodeError::InvalidChecksum))
    );
}

#[test]
fn test_command_records() {
    let options = CmdOptions { sub_command: Commands::Encode(encode_request("RuSt", "hi")) };
    match options.sub_command {
        Commands::Encode(e) => {
            assert_eq!(e.file_path, PathBuf::from("image.png"));
            assert_eq!(e.chunk_type.to_string(), "RuSt");
            assert_eq!(e.message, "hi");
        }
        _ => panic!("another request than the one that was made"),
    }
    let shown = format!("{:?}", Commands::Print(Print { file_path: PathBuf::from("a.png") }));
    assert!(shown.contains("a.png"));
}
