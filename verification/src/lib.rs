//! Decoder for the wire encoding of ledger transaction records.
//!
//! A transaction arrives as a hexadecimal byte blob. The crate turns it into
//! a structured record — version, an ordered list of inputs, an ordered list
//! of outputs, a locktime — and derives the record's identifier as the double
//! SHA-256 digest of the raw bytes that encoded it. All multi-byte integers
//! on the wire are little-endian, and variable-length counts use the
//! one/three/five/nine-byte "compact size" scheme.

pub mod amount;
pub mod codec;
pub mod cursor;
pub mod transaction;

use vstd::prelude::*;

verus! {

use crate::amount::Amount;
use crate::codec::{compact_size_consumed, compact_size_decodes, compact_size_value};
use crate::codec::{hex_encode, hex_of, script_bytes, script_consumed, script_decodes};
use crate::codec::{hex_bytes, hex_decode, valid_hex_string};
use crate::codec::{sha256, sha256_of};
use crate::cursor::{ByteCursor, Error};
use crate::transaction::{Decodable, Transaction, TxIn, TxOut, Txid};
use vstd::bytes::{spec_u16_from_le_bytes, spec_u32_from_le_bytes, spec_u64_from_le_bytes};
use vstd::bytes::{u16_from_le_bytes, u32_from_le_bytes, u64_from_le_bytes};

/// Read two bytes as a little-endian unsigned 16-bit integer.
pub(crate) fn read_u16(cursor: &mut ByteCursor) -> (r: Result<u16, Error>)
    requires
        old(cursor).wf(),
    ensures
        final(cursor).wf(),
        final(cursor).data() == old(cursor).data(),
        match r {
            Ok(v) => {
                &&& old(cursor).remaining().len() >= 2
                &&& v == spec_u16_from_le_bytes(old(cursor).remaining().take(2))
                &&& final(cursor).position() == old(cursor).position() + 2
            },
            Err(e) => {
                &&& e == Error::UnexpectedEndOfInput
                &&& old(cursor).remaining().len() < 2
                &&& *final(cursor) == *old(cursor)
            },
        },
{
    let bytes = match cursor.read_exact(2) {
        Ok(b) => b,
        Err(e) => {
            return Err(e);
        },
    };
    Ok(u16_from_le_bytes(bytes.as_slice()))
}

/// Read four bytes as a little-endian unsigned 32-bit integer.
pub fn read_u32(cursor: &mut ByteCursor) -> (r: Result<u32, Error>)
    requires
        old(cursor).wf(),
    ensures
        final(cursor).wf(),
        final(cursor).data() == old(cursor).data(),
        match r {
            Ok(v) => {
                &&& old(cursor).remaining().len() >= 4
                &&& v == spec_u32_from_le_bytes(old(cursor).remaining().take(4))
                &&& final(cursor).position() == old(cursor).position() + 4
            },
            Err(e) => {
                &&& e == Error::UnexpectedEndOfInput
                &&& old(cursor).remaining().len() < 4
                &&& *final(cursor) == *old(cursor)
            },
        },
{
    let bytes = match cursor.read_exact(4) {
        Ok(b) => b,
        Err(e) => {
            return Err(e);
        },
    };
    Ok(u32_from_le_bytes(bytes.as_slice()))
}

/// Read eight bytes as a little-endian unsigned 64-bit integer.
pub fn read_u64(cursor: &mut ByteCursor) -> (r: Result<u64, Error>)
    requires
        old(cursor).wf(),
    ensures
        final(cursor).wf(),
        final(cursor).data() == old(cursor).data(),
        match r {
            Ok(v) => {
                &&& old(cursor).remaining().len() >= 8
                &&& v == spec_u64_from_le_bytes(old(cursor).remaining().take(8))
                &&& final(cursor).position() == old(cursor).position() + 8
            },
            Err(e) => {
                &&& e == Error::UnexpectedEndOfInput
                &&& old(cursor).remaining().len() < 8
                &&& *final(cursor) == *old(cursor)
            },
        },
{
    let bytes = match cursor.read_exact(8) {
        Ok(b) => b,
        Err(e) => {
            return Err(e);
        },
    };
    Ok(u64_from_le_bytes(bytes.as_slice()))
}

/// Read a variable-length "compact size" unsigned integer: one
/// discriminator byte `d`, then nothing for `d <= 252`, else the following
/// two, four or eight bytes as a little-endian integer.
pub fn read_compact_size_integer(cursor: &mut ByteCursor) -> (r: Result<u64, Error>)
    requires
        old(cursor).wf(),
    ensures
        final(cursor).wf(),
        final(cursor).data() == old(cursor).data(),
        old(cursor).position() <= final(cursor).position(),
        match r {
            Ok(v) => {
                &&& compact_size_decodes(old(cursor).remaining())
                &&& v as nat == compact_size_value(old(cursor).remaining())
                &&& final(cursor).position() == old(cursor).position() + compact_size_consumed(
                    old(cursor).remaining(),
                )
            },
            Err(e) => {
                &&& e == Error::UnexpectedEndOfInput
                &&& !compact_size_decodes(old(cursor).remaining())
            },
        },
{
    let ghost rem: Seq<u8> = old(cursor).remaining();
    let d = match cursor.read_byte() {
        Ok(b) => b,
        Err(e) => {
            return Err(e);
        },
    };
    if d <= 252 {
        Ok(d as u64)
    } else if d == 253 {
        proof {
            assert(cursor.remaining() =~= rem.skip(1));
        }
        match read_u16(cursor) {
            Ok(v) => {
                proof {
                    assert(rem.skip(1).take(2) =~= rem.subrange(1, 3));
                }
                Ok(v as u64)
            },
            Err(e) => Err(e),
        }
    } else if d == 254 {
        proof {
            assert(cursor.remaining() =~= rem.skip(1));
        }
        match read_u32(cursor) {
            Ok(v) => {
                proof {
                    assert(rem.skip(1).take(4) =~= rem.subrange(1, 5));
                }
                Ok(v as u64)
            },
            Err(e) => Err(e),
        }
    } else {
        proof {
            assert(cursor.remaining() =~= rem.skip(1));
        }
        match read_u64(cursor) {
            Ok(v) => {
                proof {
                    assert(rem.skip(1).take(8) =~= rem.subrange(1, 9));
                }
                Ok(v)
            },
            Err(e) => Err(e),
        }
    }
}

/// Read eight bytes as a little-endian integer count of minor units.
pub fn read_amount(cursor: &mut ByteCursor) -> (r: Result<Amount, Error>)
    requires
        old(cursor).wf(),
    ensures
        final(cursor).wf(),
        final(cursor).data() == old(cursor).data(),
        match r {
            Ok(a) => {
                &&& old(cursor).remaining().len() >= 8
                &&& a@ == spec_u64_from_le_bytes(old(cursor).remaining().take(8))
                &&& final(cursor).position() == old(cursor).position() + 8
            },
            Err(e) => {
                &&& e == Error::UnexpectedEndOfInput
                &&& old(cursor).remaining().len() < 8
                &&& *final(cursor) == *old(cursor)
            },
        },
{
    match read_u64(cursor) {
        Ok(v) => Ok(Amount::from_sat(v)),
        Err(e) => Err(e),
    }
}

/// Read a 32-byte transaction identifier, kept in on-wire byte order.
pub fn read_txid(cursor: &mut ByteCursor) -> (r: Result<Txid, Error>)
    requires
        old(cursor).wf(),
    ensures
        final(cursor).wf(),
        final(cursor).data() == old(cursor).data(),
        match r {
            Ok(t) => {
                &&& old(cursor).remaining().len() >= 32
                &&& t@ == old(cursor).remaining().take(32)
                &&& final(cursor).position() == old(cursor).position() + 32
            },
            Err(e) => {
                &&& e == Error::UnexpectedEndOfInput
                &&& old(cursor).remaining().len() < 32
                &&& *final(cursor) == *old(cursor)
            },
        },
{
    match cursor.read_exact(32) {
        Ok(v) => Ok(Txid::from_vec(v)),
        Err(e) => Err(e),
    }
}

/// Read a length-prefixed script — a compact size length `L`, then `L`
/// raw bytes — and render the raw bytes as lowercase hex for display.
pub fn read_script(cursor: &mut ByteCursor) -> (r: Result<String, Error>)
    requires
        old(cursor).wf(),
    ensures
        final(cursor).wf(),
        final(cursor).data() == old(cursor).data(),
        old(cursor).position() <= final(cursor).position(),
        match r {
            Ok(h) => {
                &&& script_decodes(old(cursor).remaining())
                &&& h@ == hex_of(script_bytes(old(cursor).remaining()))
                &&& final(cursor).position() == old(cursor).position() + script_consumed(
                    old(cursor).remaining(),
                )
            },
            Err(e) => {
                &&& e == Error::UnexpectedEndOfInput
                &&& !script_decodes(old(cursor).remaining())
            },
        },
{
    let ghost rem: Seq<u8> = old(cursor).remaining();
    let len = match read_compact_size_integer(cursor) {
        Ok(v) => v,
        Err(e) => {
            return Err(e);
        },
    };
    let ghost consumed: nat = compact_size_consumed(rem);
    proof {
        assert(cursor.remaining() =~= rem.skip(consumed as int));
    }
    let avail = cursor.remaining_len();
    if len > avail as u64 {
        return Err(Error::UnexpectedEndOfInput);
    }
    let payload = match cursor.read_exact(len as usize) {
        Ok(v) => v,
        Err(e) => {
            return Err(e);
        },
    };
    proof {
        assert(payload@ =~= script_bytes(rem));
    }
    Ok(hex_encode(payload.as_slice()))
}

/// The identifier of a raw transaction encoding: its double SHA-256
/// digest, computed from the raw bytes themselves, never from a
/// re-serialization.
pub fn hash_transaction(raw_transaction: &Vec<u8>) -> (t: Txid)
    ensures
        t@ == sha256_of(sha256_of(raw_transaction@)),
        t@.len() == 32,
{
    let first = sha256(raw_transaction.as_slice());
    let second = sha256(first.as_slice());
    Txid::from_vec(second)
}

/// Decode one full transaction from the front of a raw byte buffer: its
/// version, inputs, outputs and locktime, together with the identifier
/// derived from the exact bytes consumed. Fails with
/// `UnexpectedEndOfInput`, returning no partial record, if and only if
/// the buffer is too short for some field.
pub fn decode_transaction(transaction_bytes: Vec<u8>) -> (r: Result<Transaction, Error>)
    ensures
        match r {
            Ok(t) => {
                &&& <Transaction as Decodable>::decodes(transaction_bytes@)
                &&& <Transaction as Decodable>::value_ok(transaction_bytes@, t)
            },
            Err(e) => {
                &&& e == Error::UnexpectedEndOfInput
                &&& !<Transaction as Decodable>::decodes(transaction_bytes@)
            },
        },
{
    let ghost all: Seq<u8> = transaction_bytes@;
    let mut transaction_cursor = ByteCursor::new(transaction_bytes);
    proof {
        assert(transaction_cursor.remaining() =~= all);
    }
    Transaction::consensus_decode(&mut transaction_cursor)
}

/// Decode a transaction supplied as a hexadecimal string. Malformed hex
/// fails with `HexDecodeError` before any byte is interpreted; a
/// too-short byte buffer fails with `UnexpectedEndOfInput`; otherwise the
/// decoded record is returned.
pub fn decode_transaction_hex(raw_transaction_hex: &str) -> (r: Result<Transaction, Error>)
    ensures
        match r {
            Ok(t) => {
                &&& valid_hex_string(raw_transaction_hex@)
                &&& <Transaction as Decodable>::decodes(hex_bytes(raw_transaction_hex@))
                &&& <Transaction as Decodable>::value_ok(hex_bytes(raw_transaction_hex@), t)
            },
            Err(e) => match e {
                Error::HexDecodeError => !valid_hex_string(raw_transaction_hex@),
                Error::UnexpectedEndOfInput => {
                    &&& valid_hex_string(raw_transaction_hex@)
                    &&& !<Transaction as Decodable>::decodes(hex_bytes(raw_transaction_hex@))
                },
                Error::MalformedCompactSize => false,
            },
        },
{
    let transaction_bytes = match hex_decode(raw_transaction_hex) {
        Ok(v) => v,
        Err(_) => {
            return Err(Error::HexDecodeError);
        },
    };
    decode_transaction(transaction_bytes)
}

/// Law: every discriminator byte of at most 252 is by itself a complete
/// compact size encoding — it occupies exactly one byte and denotes its
/// own value.
pub proof fn lemma_compact_size_single_byte(s: Seq<u8>)
    requires
        s.len() >= 1,
        s[0] <= 252,
    ensures
        compact_size_decodes(s),
        compact_size_consumed(s) == 1,
        compact_size_value(s) == s[0] as nat,
{
}

/// Law: the identifier is a function of the raw bytes alone. Any two
/// records decoded from the same byte buffer carry the same 32-byte
/// identifier — and the same version, locktime and input/output counts.
pub proof fn lemma_decode_deterministic(s: Seq<u8>, t1: Transaction, t2: Transaction)
    requires
        <Transaction as Decodable>::value_ok(s, t1),
        <Transaction as Decodable>::value_ok(s, t2),
    ensures
        t1.txid@ == t2.txid@,
        t1.txid@.len() == 32,
        t1.version == t2.version,
        t1.locktime == t2.locktime,
        t1.inputs@.len() == t2.inputs@.len(),
        t1.outputs@.len() == t2.outputs@.len(),
{
}

/// Two runs of inputs decoded from the same bytes agree on every field,
/// element by element.
proof fn lemma_txin_run_agree(s: Seq<u8>, n: nat, a: Seq<TxIn>, b: Seq<TxIn>)
    requires
        crate::transaction::many_value_ok::<TxIn>(s, n, a),
        crate::transaction::many_value_ok::<TxIn>(s, n, b),
    ensures
        a.len() == n,
        b.len() == n,
        forall|i: int| 0 <= i < n ==> {
            &&& (#[trigger] a[i]).previous_txid@ == b[i].previous_txid@
            &&& a[i].previous_vout == b[i].previous_vout
            &&& a[i].script_sig@ == b[i].script_sig@
            &&& a[i].sequence == b[i].sequence
        },
    decreases n,
{
    if n > 0 {
        let s1 = s.skip(<TxIn as Decodable>::consumed(s) as int);
        lemma_txin_run_agree(s1, (n - 1) as nat, a.skip(1), b.skip(1));
        assert forall|i: int| 0 <= i < n implies {
            &&& (#[trigger] a[i]).previous_txid@ == b[i].previous_txid@
            &&& a[i].previous_vout == b[i].previous_vout
            &&& a[i].script_sig@ == b[i].script_sig@
            &&& a[i].sequence == b[i].sequence
        } by {
            if i > 0 {
                assert(a.skip(1)[i - 1] == a[i]);
                assert(b.skip(1)[i - 1] == b[i]);
            }
        }
    }
}

/// Two runs of outputs decoded from the same bytes agree on every field,
/// element by element.
proof fn lemma_txout_run_agree(s: Seq<u8>, n: nat, a: Seq<TxOut>, b: Seq<TxOut>)
    requires
        crate::transaction::many_value_ok::<TxOut>(s, n, a),
        crate::transaction::many_value_ok::<TxOut>(s, n, b),
    ensures
        a.len() == n,
        b.len() == n,
        forall|i: int| 0 <= i < n ==> {
            &&& (#[trigger] a[i]).amount@ == b[i].amount@
            &&& a[i].script_pubkey@ == b[i].script_pubkey@
        },
    decreases n,
{
    if n > 0 {
        let s1 = s.skip(<TxOut as Decodable>::consumed(s) as int);
        lemma_txout_run_agree(s1, (n - 1) as nat, a.skip(1), b.skip(1));
        assert forall|i: int| 0 <= i < n implies {
            &&& (#[trigger] a[i]).amount@ == b[i].amount@
            &&& a[i].script_pubkey@ == b[i].script_pubkey@
        } by {
            if i > 0 {
                assert(a.skip(1)[i - 1] == a[i]);
                assert(b.skip(1)[i - 1] == b[i]);
            }
        }
    }
}

/// Law: beyond the identifier, two records decoded from the same byte
/// buffer agree on every input and every output, field by field and in
/// the same on-wire order.
pub proof fn lemma_decode_deterministic_records(s: Seq<u8>, t1: Transaction, t2: Transaction)
    requires
        <Transaction as Decodable>::value_ok(s, t1),
        <Transaction as Decodable>::value_ok(s, t2),
    ensures
        t1.inputs@.len() == t2.inputs@.len(),
        t1.outputs@.len() == t2.outputs@.len(),
        forall|i: int| 0 <= i < t1.inputs@.len() ==> {
            &&& (#[trigger] t1.inputs@[i]).previous_txid@ == t2.inputs@[i].previous_txid@
            &&& t1.inputs@[i].previous_vout == t2.inputs@[i].previous_vout
            &&& t1.inputs@[i].script_sig@ == t2.inputs@[i].script_sig@
            &&& t1.inputs@[i].sequence == t2.inputs@[i].sequence
        },
        forall|i: int| 0 <= i < t1.outputs@.len() ==> {
            &&& (#[trigger] t1.outputs@[i]).amount@ == t2.outputs@[i].amount@
            &&& t1.outputs@[i].script_pubkey@ == t2.outputs@[i].script_pubkey@
        },
{
    let s1 = s.skip(4);
    let s2 = s1.skip(<Vec<TxIn> as Decodable>::consumed(s1) as int);
    let ins = s1.skip(compact_size_consumed(s1) as int);
    let outs = s2.skip(compact_size_consumed(s2) as int);
    lemma_txin_run_agree(ins, compact_size_value(s1), t1.inputs@, t2.inputs@);
    lemma_txout_run_agree(outs, compact_size_value(s2), t1.outputs@, t2.outputs@);
}

/// Law: when a record's encoding spans the whole buffer, its identifier
/// equals the double SHA-256 digest of that buffer — re-deriving the
/// identifier from the original raw bytes reproduces it.
pub proof fn lemma_identifier_from_raw_bytes(s: Seq<u8>, t: Transaction)
    requires
        <Transaction as Decodable>::value_ok(s, t),
        <Transaction as Decodable>::consumed(s) == s.len(),
    ensures
        t.txid@ == sha256_of(sha256_of(s)),
{
    assert(s.take(s.len() as int) =~= s);
}

} // verus!
