//! Tests of the primitive readers, the record decoders, the identifier
//! derivation and the end-to-end hex path.

use tx_decode::amount::Amount;
use tx_decode::cursor::{ByteCursor, Error};
use tx_decode::transaction::{CompactSize, Decodable, Encodable, Transaction, Txid, Version};
use tx_decode::{
    decode_transaction, decode_transaction_hex, hash_transaction, read_amount, read_script,
    read_txid, read_u32, read_u64,
};

/// A real two-input, two-output transaction.
const TX_HEX: &str = "010000000242d5c1d6f7308bbe95c0f6e1301dd73a8da77d2155b0773bc297ac47f9cd7380010000006a4730440220771361aae55e84496b9e7b06e0a53dd122a1425f85840af7a52b20fa329816070220221dd92132e82ef9c133cb1a106b64893892a11acf2cfa1adb7698dcdc02f01b0121030077be25dc482e7f4abad60115416881fe4ef98af33c924cd8b20ca4e57e8bd5feffffff75c87cc5f3150eefc1c04c0246e7e0b370e64b17d6226c44b333a6f4ca14b49c000000006b483045022100e0d85fece671d367c8d442a96230954cdda4b9cf95e9edc763616d05d93e944302202330d520408d909575c5f6976cc405b3042673b601f4f2140b2e4d447e671c47012103c43afccd37aae7107f5a43f5b7b223d034e7583b77c8cd1084d86895a7341abffeffffff02ebb10f00000000001976a9144ef88a0b04e3ad6d1888da4be260d6735e0d308488ac508c1e000000000017a91476c0c8f2fc403c5edaea365f6a284317b9cdf7258700000000";

/// The externally known identifier of `TX_HEX`, in display byte order.
const TX_ID: &str = "3c1804567a336c3944e30b3c2593970bfcbf5b15a40f4fc6b626a360ee0507f2";

#[test]
fn read_u32_is_little_endian() {
    let mut cursor = ByteCursor::new(vec![0x78, 0x56, 0x34, 0x12]);
    assert_eq!(read_u32(&mut cursor), Ok(0x12345678_u32));
    assert_eq!(cursor.offset(), 4);

    let mut short = ByteCursor::new(vec![1, 2, 3]);
    assert_eq!(read_u32(&mut short), Err(Error::UnexpectedEndOfInput));
}

#[test]
fn read_u64_is_little_endian() {
    let mut cursor = ByteCursor::new(vec![0xef, 0xcd, 0xab, 0x89, 0x67, 0x45, 0x23, 0x01]);
    assert_eq!(read_u64(&mut cursor), Ok(0x0123456789abcdef_u64));
    assert_eq!(cursor.offset(), 8);
}

#[test]
fn read_amount_counts_minor_units() {
    let mut cursor = ByteCursor::new(vec![0xeb, 0xb1, 0x0f, 0, 0, 0, 0, 0]);
    let amount = read_amount(&mut cursor).unwrap();
    assert_eq!(amount.to_sat(), 1_028_587_u64);
}

#[test]
fn amount_from_sat_round_trips() {
    assert_eq!(Amount::from_sat(100_000_000).to_sat(), 100_000_000_u64);
    assert_eq!(Amount::from_sat(0).to_sat(), 0_u64);
    // the display conversion divides by the minor-to-major ratio
    assert_eq!(Amount::from_sat(100_000_000).to_sat() as f64 / 100_000_000.0, 1.0);
    assert_eq!(Amount::from_sat(0).to_sat() as f64 / 100_000_000.0, 0.0);
}

#[test]
fn read_script_hex_encodes_the_payload() {
    let mut cursor = ByteCursor::new(vec![3, 0xab, 0xcd, 0xef, 9]);
    let script = read_script(&mut cursor).unwrap();
    assert_eq!(script, "abcdef");
    assert_eq!(cursor.offset(), 4);
}

#[test]
fn read_script_truncated_payload_fails() {
    let mut cursor = ByteCursor::new(vec![5, 0xab, 0xcd]);
    assert_eq!(read_script(&mut cursor), Err(Error::UnexpectedEndOfInput));
}

#[test]
fn read_txid_keeps_wire_order_and_reverses_for_display() {
    let mut wire: Vec<u8> = Vec::new();
    for b in 0..32_u8 {
        wire.push(b);
    }
    let mut cursor = ByteCursor::new(wire);
    let txid = read_txid(&mut cursor).unwrap();
    assert_eq!(
        txid.display_hex(),
        "1f1e1d1c1b1a191817161514131211100f0e0d0c0b0a09080706050403020100"
    );
}

#[test]
fn txid_from_bytes_displays_reversed() {
    let mut bytes = [0_u8; 32];
    bytes[0] = 0xab;
    let txid = Txid::from_bytes(bytes);
    assert_eq!(
        txid.display_hex(),
        "00000000000000000000000000000000000000000000000000000000000000ab"
    );
}

#[test]
fn txid_new_is_the_double_digest() {
    let txid = Txid::new(Vec::new());
    assert_eq!(
        txid.display_hex(),
        "56944c5d3f98413ef45cf54545538103cc9f298e0575820ad3591376e2e0f65d"
    );
}

#[test]
fn decode_transaction_end_to_end() {
    let transaction = decode_transaction_hex(TX_HEX).unwrap();
    assert_eq!(transaction.version, Version(1));
    assert_eq!(transaction.locktime, 0);
    assert_eq!(transaction.inputs.len(), 2);
    assert_eq!(transaction.outputs.len(), 2);
    assert_eq!(transaction.txid().display_hex(), TX_ID);

    let first = &transaction.inputs[0];
    assert_eq!(
        first.previous_txid.display_hex(),
        "8073cdf947ac97c23b77b055217da78d3ad71d30e1f6c095be8b30f7d6c1d542"
    );
    assert_eq!(first.previous_vout, 1);
    assert_eq!(first.sequence, 0xfffffffe);
    assert!(first.script_sig.starts_with("4730440220771361aae55e8449"));

    let second = &transaction.inputs[1];
    assert_eq!(
        second.previous_txid.display_hex(),
        "9cb414caf4a633b3446c22d6174be670b3e0e746024cc0c1ef0e15f3c57cc875"
    );
    assert_eq!(second.previous_vout, 0);

    assert_eq!(transaction.outputs[0].amount.to_sat(), 1_028_587);
    assert_eq!(
        transaction.outputs[0].script_pubkey,
        "76a9144ef88a0b04e3ad6d1888da4be260d6735e0d308488ac"
    );
    assert_eq!(transaction.outputs[1].amount.to_sat(), 2_002_000);
    assert_eq!(
        transaction.outputs[1].script_pubkey,
        "a91476c0c8f2fc403c5edaea365f6a284317b9cdf72587"
    );
}

#[test]
fn decode_is_deterministic() {
    // two decodes of the same input yield identical identifiers
    let once = decode_transaction_hex(TX_HEX).unwrap();
    let twice = decode_transaction_hex(TX_HEX).unwrap();
    assert_eq!(once.txid().display_hex(), twice.txid().display_hex());
    assert_eq!(once.txid().display_hex(), once.txid.display_hex());
    // and re-deriving the identifier from the original raw bytes
    // reproduces the same value
    let raw = hex::decode(TX_HEX).unwrap();
    assert_eq!(hash_transaction(&raw).display_hex(), once.txid().display_hex());
}

#[test]
fn decode_truncated_transaction_fails() {
    // cut the byte stream inside the second input's unlocking script
    let mut bytes = hex::decode(TX_HEX).unwrap();
    bytes.truncate(200);
    assert!(matches!(
        decode_transaction(bytes),
        Err(Error::UnexpectedEndOfInput)
    ));
}

#[test]
fn decode_empty_buffer_fails() {
    assert!(matches!(
        decode_transaction(Vec::new()),
        Err(Error::UnexpectedEndOfInput)
    ));
}

#[test]
fn decode_invalid_hex_fails() {
    assert!(matches!(
        decode_transaction_hex("zz"),
        Err(Error::HexDecodeError)
    ));
    // odd length is rejected before any byte is interpreted
    assert!(matches!(
        decode_transaction_hex("abc"),
        Err(Error::HexDecodeError)
    ));
}

#[test]
fn consensus_decode_leaves_trailing_bytes() {
    let mut bytes = hex::decode(TX_HEX).unwrap();
    let encoded_len = bytes.len();
    bytes.push(0xaa);
    bytes.push(0xbb);
    let mut cursor = ByteCursor::new(bytes);
    let transaction = Transaction::consensus_decode(&mut cursor).unwrap();
    assert_eq!(cursor.offset(), encoded_len);
    // trailing bytes are not part of the record, nor of its identifier
    assert_eq!(transaction.txid().display_hex(), TX_ID);
}

#[test]
fn consensus_decode_scalar_types() {
    let mut compact = ByteCursor::new(vec![253, 0x20, 0x4e]);
    assert_eq!(
        CompactSize::consensus_decode(&mut compact).unwrap(),
        CompactSize(20_000)
    );

    let mut eight = ByteCursor::new(vec![0xef, 0xcd, 0xab, 0x89, 0x67, 0x45, 0x23, 0x01]);
    assert_eq!(
        u64::consensus_decode(&mut eight).unwrap(),
        0x0123456789abcdef_u64
    );

    let mut two = ByteCursor::new(vec![2, 1]);
    assert_eq!(u16::consensus_decode(&mut two).unwrap(), 0x0102_u16);

    let mut one = ByteCursor::new(vec![9]);
    assert_eq!(u8::consensus_decode(&mut one).unwrap(), 9_u8);
}

#[test]
fn consensus_encode_writes_little_endian() {
    let mut buf: Vec<u8> = Vec::new();
    let written = 0x12345678_u32.consensus_encode(&mut buf).unwrap();
    assert_eq!(written, 4);
    assert_eq!(buf, vec![0x78, 0x56, 0x34, 0x12]);

    let mut versioned: Vec<u8> = Vec::new();
    Version(1).consensus_encode(&mut versioned).unwrap();
    assert_eq!(versioned, vec![1, 0, 0, 0]);
}
