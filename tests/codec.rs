use chainquest_idle::compression::{compress, decompress};
use chainquest_idle::message::{DecodeError, GameMessage};
use chainquest_idle::utils::{decrypt, encrypt};

fn payload(len: usize) -> Vec<u8> {
    (0..len).map(|i| (i % 251) as u8).collect()
}

fn round_trip(len: usize) {
    let data = payload(len);
    let sent = compress(&data);
    assert_eq!(decompress(&sent), data);
}

#[test]
fn compress_round_trip_empty() {
    round_trip(0);
}

#[test]
fn compress_round_trip_99() {
    round_trip(99);
}

#[test]
fn compress_round_trip_100() {
    round_trip(100);
}

#[test]
fn compress_round_trip_101() {
    round_trip(101);
}

#[test]
fn compress_round_trip_10000() {
    round_trip(10000);
}

#[test]
fn short_payload_sent_raw() {
    let data = payload(100);
    assert_eq!(compress(&data), data);
}

#[test]
fn long_payload_becomes_gzip() {
    let data = vec![7u8; 101];
    let sent = compress(&data);
    assert_ne!(sent, data);
    assert_eq!(sent[0], 0x1f);
    assert_eq!(sent[1], 0x8b);
    assert!(sent.len() < data.len());
}

#[test]
fn decompress_leaves_plain_payload() {
    let data = b"plain text payload".to_vec();
    assert_eq!(decompress(&data), data);
}

#[test]
fn decompress_falls_back_on_bad_stream() {
    let data = vec![0x1f, 0x8b, 1, 2, 3, 4, 5, 6];
    assert_eq!(decompress(&data), data);
}

#[test]
fn decompress_needs_more_than_four_bytes() {
    let data = vec![0x1f, 0x8b, 0, 0];
    assert_eq!(decompress(&data), data);
}

fn encode_decode(m: GameMessage) {
    let bytes = m.to_bytes();
    assert_eq!(GameMessage::from_bytes(&bytes), Ok(m));
}

#[test]
fn message_round_trip_every_kind() {
    encode_decode(GameMessage::PlayerJoin { username: "alice".to_string() });
    encode_decode(GameMessage::PlayerJoin { username: String::new() });
    encode_decode(GameMessage::PlayerLeave { player_id: 0 });
    encode_decode(GameMessage::PlayerLeave { player_id: u32::MAX });
    encode_decode(GameMessage::ResourceUpdate { player_id: 7, resources_bits: 12.5f32.to_bits() });
    encode_decode(GameMessage::ResourceUpdate { player_id: u32::MAX, resources_bits: f32::NAN.to_bits() });
    encode_decode(GameMessage::QuestComplete { player_id: 1, quest_id: u32::MAX });
    encode_decode(GameMessage::MapGenerate { seed: i64::MIN });
    encode_decode(GameMessage::MapGenerate { seed: i64::MAX });
    encode_decode(GameMessage::MapGenerate { seed: -1 });
    encode_decode(GameMessage::Chat { player_id: 3, message: String::new() });
    encode_decode(GameMessage::Chat { player_id: 3, message: "héllo, wörld ✓ 🎮".to_string() });
    encode_decode(GameMessage::Ping);
    encode_decode(GameMessage::Pong);
}

#[test]
fn message_exact_bytes() {
    assert_eq!(GameMessage::Ping.to_bytes(), vec![6]);
    assert_eq!(GameMessage::Pong.to_bytes(), vec![7]);
    assert_eq!(GameMessage::PlayerLeave { player_id: 258 }.to_bytes(), vec![1, 2, 1, 0, 0]);
    assert_eq!(
        GameMessage::PlayerJoin { username: "ab".to_string() }.to_bytes(),
        vec![0, 2, 0, 0, 0, 0, 0, 0, 0, b'a', b'b']
    );
    assert_eq!(
        GameMessage::MapGenerate { seed: -2 }.to_bytes(),
        vec![4, 0xfe, 0xff, 0xff, 0xff, 0xff, 0xff, 0xff, 0xff]
    );
}

#[test]
fn decode_errors() {
    assert_eq!(GameMessage::from_bytes(&[]), Err(DecodeError::Truncated));
    assert_eq!(GameMessage::from_bytes(&[8]), Err(DecodeError::UnknownTag));
    assert_eq!(GameMessage::from_bytes(&[1, 0, 0]), Err(DecodeError::Truncated));
    assert_eq!(GameMessage::from_bytes(&[0, 5, 0, 0, 0]), Err(DecodeError::Truncated));
    assert_eq!(GameMessage::from_bytes(&[0, 5, 0, 0, 0, 0, 0, 0, 0, b'a']), Err(DecodeError::Truncated));
    assert_eq!(
        GameMessage::from_bytes(&[0, 0xff, 0xff, 0xff, 0xff, 0xff, 0xff, 0xff, 0xff, b'a']),
        Err(DecodeError::Truncated)
    );
    assert_eq!(GameMessage::from_bytes(&[6, 0]), Err(DecodeError::TrailingBytes));
    assert_eq!(GameMessage::from_bytes(&[0, 1, 0, 0, 0, 0, 0, 0, 0, 0xff]), Err(DecodeError::InvalidUtf8));
    assert_eq!(GameMessage::from_bytes(b"{\"Ping\":null}"), Err(DecodeError::UnknownTag));
}

#[test]
fn encrypt_masks_with_repeating_key() {
    let key: [u8; 16] = [1, 2, 3, 4, 5, 6, 7, 8, 9, 10, 11, 12, 13, 14, 15, 16];
    let data: Vec<u8> = vec![0; 18];
    let masked = encrypt(&data, &key);
    assert_eq!(masked, vec![1, 2, 3, 4, 5, 6, 7, 8, 9, 10, 11, 12, 13, 14, 15, 16, 1, 2]);
    assert_eq!(encrypt(&[0xff], &key), vec![0xfe]);
    assert_eq!(encrypt(&[], &key), Vec::<u8>::new());
}

#[test]
fn decrypt_undoes_encrypt() {
    let key: [u8; 16] = [0xa5; 16];
    let data = b"secret game state".to_vec();
    assert_eq!(decrypt(&encrypt(&data, &key), &key), data);
}
