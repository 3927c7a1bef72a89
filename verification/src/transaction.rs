//! The transaction record and its nested pieces, with the specification of
//! how each is laid out on the wire and the decoders that read them.
//!
//! A transaction is a version, an ordered list of inputs, an ordered list
//! of outputs and a locktime, in that order on the wire. Its identifier is
//! the double SHA-256 digest of the raw bytes that encoded it — never of a
//! re-serialization — and is shown with the byte order reversed.

use vstd::prelude::*;

verus! {

use crate::amount::Amount;
use crate::codec::{hex_of, script_bytes, script_consumed, script_decodes, sha256_of};
use crate::codec::{compact_size_consumed, compact_size_decodes, compact_size_value};
use crate::codec::{hex_encode, sha256};
use crate::cursor::{ByteCursor, Error};
use vstd::bytes::{spec_u16_from_le_bytes, spec_u32_from_le_bytes, spec_u64_from_le_bytes};

/// A transaction identifier: a 32-byte double SHA-256 digest, stored in
/// computation order and byte-reversed only for display.
#[derive(Debug)]
pub struct Txid {
    bytes: Vec<u8>,
}

impl View for Txid {
    type V = Seq<u8>;

    closed spec fn view(&self) -> Seq<u8> {
        self.bytes@
    }
}

impl Txid {
    pub fn from_bytes(bytes: [u8; 32]) -> (t: Txid)
        ensures
            t@ == bytes@,
    {
        Txid { bytes: vstd::slice::slice_to_vec(bytes.as_slice()) }
    }

    /// Wrap an owned 32-byte buffer as an identifier.
    pub(crate) fn from_vec(bytes: Vec<u8>) -> (t: Txid)
        requires
            bytes@.len() == 32,
        ensures
            t@ == bytes@,
    {
        Txid { bytes }
    }

    /// The identifier of the given raw encoding: the SHA-256 digest of the
    /// SHA-256 digest of `data`.
    pub fn new(data: Vec<u8>) -> (t: Txid)
        ensures
            t@ == sha256_of(sha256_of(data@)),
            t@.len() == 32,
    {
        let first = sha256(data.as_slice());
        let second = sha256(first.as_slice());
        Txid { bytes: second }
    }

    /// The display form: the bytes reversed, rendered as lowercase hex.
    pub fn display_hex(&self) -> (r: String)
        ensures
            r@ == hex_of(self@.reverse()),
    {
        let n = self.bytes.len();
        let mut rev: Vec<u8> = Vec::new();
        let mut i: usize = 0;
        while i < n
            invariant
                i <= n,
                n == self@.len(),
                rev@.len() == i,
                forall|j: int| 0 <= j < i ==> rev@[j] == self@[n - 1 - j],
            decreases n - i,
        {
            rev.push(self.bytes[n - 1 - i]);
            i = i + 1;
        }
        proof {
            assert(rev@ =~= self@.reverse());
        }
        hex_encode(rev.as_slice())
    }
}

/// A transaction's version field.
#[derive(Debug, Clone, Copy, PartialEq, Eq, Structural)]
pub struct Version(pub u32);

/// A decoded variable-length "compact size" integer.
#[derive(Debug, Clone, Copy, PartialEq, Eq, Structural)]
pub struct CompactSize(pub u64);

/// One transaction input: the identifier of the transaction being spent
/// (kept in on-wire byte order), the index of the spent output, the
/// unlocking script rendered as hex, and the sequence number.
#[derive(Debug)]
pub struct TxIn {
    pub previous_txid: Txid,
    pub previous_vout: u32,
    pub script_sig: String,
    pub sequence: u32,
}

/// One transaction output: an amount of minor units and the locking
/// script rendered as hex.
#[derive(Debug)]
pub struct TxOut {
    pub amount: Amount,
    pub script_pubkey: String,
}

/// A fully decoded transaction, immutable once constructed.
#[derive(Debug)]
pub struct Transaction {
    pub txid: Txid,
    pub version: Version,
    pub inputs: Vec<TxIn>,
    pub outputs: Vec<TxOut>,
    pub locktime: u32,
}

impl Transaction {
    /// The identifier derived from the raw bytes this record was decoded
    /// from.
    pub fn txid(&self) -> (t: Txid)
        ensures
            t@ == self.txid@,
    {
        Txid { bytes: vstd::slice::slice_to_vec(self.txid.bytes.as_slice()) }
    }
}

/// The capability of being written in wire form.
///
/// Each implementing type says through a spec function exactly which
/// bytes it writes; `consensus_encode` appends them to the buffer and
/// reports their number.
pub trait Encodable {
    /// The exact bytes this value writes.
    spec fn encoding(&self) -> Seq<u8>;

    /// Append this value's wire encoding to `buf`.
    fn consensus_encode(&self, buf: &mut Vec<u8>) -> (r: Result<usize, Error>)
        ensures
            final(buf)@ == old(buf)@ + self.encoding(),
            match r {
                Ok(n) => n == self.encoding().len(),
                Err(_) => false,
            },
    ;
}

impl Encodable for u32 {
    open spec fn encoding(&self) -> Seq<u8> {
        vstd::bytes::spec_u32_to_le_bytes(*self)
    }

    fn consensus_encode(&self, buf: &mut Vec<u8>) -> (r: Result<usize, Error>) {
        let bytes = vstd::bytes::u32_to_le_bytes(*self);
        let mut i: usize = 0;
        #[verifier::loop_isolation(false)]
        while i < 4
            invariant
                i <= 4,
                buf@ == old(buf)@ + bytes@.take(i as int),
            decreases 4 - i,
        {
            buf.push(bytes[i]);
            proof {
                assert(buf@ =~= old(buf)@ + bytes@.take(i + 1));
            }
            i = i + 1;
        }
        proof {
            assert(bytes@.take(4) =~= bytes@);
        }
        Ok(4)
    }
}

impl Encodable for Version {
    open spec fn encoding(&self) -> Seq<u8> {
        vstd::bytes::spec_u32_to_le_bytes(self.0)
    }

    fn consensus_encode(&self, buf: &mut Vec<u8>) -> (r: Result<usize, Error>) {
        self.0.consensus_encode(buf)
    }
}

/// The capability of being decoded from a byte cursor.
///
/// Each implementing type says through three spec functions what its wire
/// form is: when a value can be read from the front of a byte sequence,
/// how many bytes it occupies there, and which value those bytes denote.
/// `consensus_decode` is then proved against exactly that description:
/// it succeeds if and only if the bytes suffice, returns the denoted
/// value, and advances the cursor by exactly the bytes consumed.
pub trait Decodable: Sized {
    /// Whether a value of this type can be read from the front of `s`.
    spec fn decodes(s: Seq<u8>) -> bool;

    /// How many bytes the value at the front of `s` occupies.
    spec fn consumed(s: Seq<u8>) -> nat;

    /// Whether `v` is the value encoded at the front of `s`.
    spec fn value_ok(s: Seq<u8>, v: Self) -> bool;

    /// Read one value from the cursor, consuming exactly its encoding.
    fn consensus_decode(cursor: &mut ByteCursor) -> (r: Result<Self, Error>)
        requires
            old(cursor).wf(),
        ensures
            final(cursor).wf(),
            final(cursor).data() == old(cursor).data(),
            old(cursor).position() <= final(cursor).position(),
            match r {
                Ok(v) => {
                    &&& Self::decodes(old(cursor).remaining())
                    &&& Self::value_ok(old(cursor).remaining(), v)
                    &&& final(cursor).position() == old(cursor).position() + Self::consumed(
                        old(cursor).remaining(),
                    )
                },
                Err(e) => {
                    &&& e == Error::UnexpectedEndOfInput
                    &&& !Self::decodes(old(cursor).remaining())
                },
            },
    ;
}

impl Decodable for u8 {
    open spec fn decodes(s: Seq<u8>) -> bool {
        s.len() >= 1
    }

    open spec fn consumed(s: Seq<u8>) -> nat {
        1
    }

    open spec fn value_ok(s: Seq<u8>, v: u8) -> bool {
        v == s[0]
    }

    fn consensus_decode(cursor: &mut ByteCursor) -> (r: Result<u8, Error>) {
        cursor.read_byte()
    }
}

impl Decodable for u16 {
    open spec fn decodes(s: Seq<u8>) -> bool {
        s.len() >= 2
    }

    open spec fn consumed(s: Seq<u8>) -> nat {
        2
    }

    open spec fn value_ok(s: Seq<u8>, v: u16) -> bool {
        v == spec_u16_from_le_bytes(s.take(2))
    }

    fn consensus_decode(cursor: &mut ByteCursor) -> (r: Result<u16, Error>) {
        crate::read_u16(cursor)
    }
}

impl Decodable for u32 {
    open spec fn decodes(s: Seq<u8>) -> bool {
        s.len() >= 4
    }

    open spec fn consumed(s: Seq<u8>) -> nat {
        4
    }

    open spec fn value_ok(s: Seq<u8>, v: u32) -> bool {
        v == spec_u32_from_le_bytes(s.take(4))
    }

    fn consensus_decode(cursor: &mut ByteCursor) -> (r: Result<u32, Error>) {
        crate::read_u32(cursor)
    }
}

impl Decodable for u64 {
    open spec fn decodes(s: Seq<u8>) -> bool {
        s.len() >= 8
    }

    open spec fn consumed(s: Seq<u8>) -> nat {
        8
    }

    open spec fn value_ok(s: Seq<u8>, v: u64) -> bool {
        v == spec_u64_from_le_bytes(s.take(8))
    }

    fn consensus_decode(cursor: &mut ByteCursor) -> (r: Result<u64, Error>) {
        crate::read_u64(cursor)
    }
}

impl Decodable for Version {
    open spec fn decodes(s: Seq<u8>) -> bool {
        s.len() >= 4
    }

    open spec fn consumed(s: Seq<u8>) -> nat {
        4
    }

    open spec fn value_ok(s: Seq<u8>, v: Version) -> bool {
        v.0 == spec_u32_from_le_bytes(s.take(4))
    }

    fn consensus_decode(cursor: &mut ByteCursor) -> (r: Result<Version, Error>) {
        match crate::read_u32(cursor) {
            Ok(v) => Ok(Version(v)),
            Err(e) => Err(e),
        }
    }
}

impl Decodable for CompactSize {
    open spec fn decodes(s: Seq<u8>) -> bool {
        compact_size_decodes(s)
    }

    open spec fn consumed(s: Seq<u8>) -> nat {
        compact_size_consumed(s)
    }

    open spec fn value_ok(s: Seq<u8>, v: CompactSize) -> bool {
        v.0 as nat == compact_size_value(s)
    }

    fn consensus_decode(cursor: &mut ByteCursor) -> (r: Result<CompactSize, Error>) {
        match crate::read_compact_size_integer(cursor) {
            Ok(v) => Ok(CompactSize(v)),
            Err(e) => Err(e),
        }
    }
}

impl Decodable for Txid {
    open spec fn decodes(s: Seq<u8>) -> bool {
        s.len() >= 32
    }

    open spec fn consumed(s: Seq<u8>) -> nat {
        32
    }

    open spec fn value_ok(s: Seq<u8>, v: Txid) -> bool {
        v@ == s.take(32)
    }

    fn consensus_decode(cursor: &mut ByteCursor) -> (r: Result<Txid, Error>) {
        crate::read_txid(cursor)
    }
}

impl Decodable for String {
    open spec fn decodes(s: Seq<u8>) -> bool {
        script_decodes(s)
    }

    open spec fn consumed(s: Seq<u8>) -> nat {
        script_consumed(s)
    }

    open spec fn value_ok(s: Seq<u8>, v: String) -> bool {
        v@ == hex_of(script_bytes(s))
    }

    fn consensus_decode(cursor: &mut ByteCursor) -> (r: Result<String, Error>) {
        crate::read_script(cursor)
    }
}

/// Whether `n` consecutive values of `T` can be read from the front of
/// `s`, each starting where the previous one ended.
pub open spec fn many_decodes<T: Decodable>(s: Seq<u8>, n: nat) -> bool
    decreases n,
{
    n == 0 || {
        &&& T::decodes(s)
        &&& T::consumed(s) <= s.len()
        &&& many_decodes::<T>(s.skip(T::consumed(s) as int), (n - 1) as nat)
    }
}

/// How many bytes `n` consecutive values of `T` occupy at the front of
/// `s`.
pub open spec fn many_consumed<T: Decodable>(s: Seq<u8>, n: nat) -> nat
    decreases n,
{
    if n == 0 {
        0
    } else {
        T::consumed(s) + many_consumed::<T>(s.skip(T::consumed(s) as int), (n - 1) as nat)
    }
}

/// Whether `vs` are the `n` consecutive values of `T` encoded at the
/// front of `s`, in on-wire order.
pub open spec fn many_value_ok<T: Decodable>(s: Seq<u8>, n: nat, vs: Seq<T>) -> bool
    decreases n,
{
    &&& vs.len() == n
    &&& n > 0 ==> {
        &&& T::value_ok(s, vs[0])
        &&& many_value_ok::<T>(s.skip(T::consumed(s) as int), (n - 1) as nat, vs.skip(1))
    }
}

/// A run of decoded values never occupies more bytes than are there.
proof fn lemma_many_consumed_le<T: Decodable>(s: Seq<u8>, n: nat)
    requires
        many_decodes::<T>(s, n),
    ensures
        many_consumed::<T>(s, n) <= s.len(),
    decreases n,
{
    if n > 0 {
        lemma_many_consumed_le::<T>(s.skip(T::consumed(s) as int), (n - 1) as nat);
    }
}

/// Appending one more decoded value extends a run of `n` values to `n+1`.
proof fn lemma_many_snoc<T: Decodable>(s: Seq<u8>, n: nat, vs: Seq<T>, v: T)
    requires
        many_decodes::<T>(s, n),
        many_value_ok::<T>(s, n, vs),
        T::decodes(s.skip(many_consumed::<T>(s, n) as int)),
        T::consumed(s.skip(many_consumed::<T>(s, n) as int)) <= s.skip(
            many_consumed::<T>(s, n) as int,
        ).len(),
        T::value_ok(s.skip(many_consumed::<T>(s, n) as int), v),
    ensures
        many_decodes::<T>(s, n + 1),
        many_consumed::<T>(s, n + 1) == many_consumed::<T>(s, n) + T::consumed(
            s.skip(many_consumed::<T>(s, n) as int),
        ),
        many_value_ok::<T>(s, n + 1, vs.push(v)),
    decreases n,
{
    if n == 0 {
        assert(s.skip(0) =~= s);
        assert(vs.push(v)[0] == v);
        assert(vs.push(v).skip(1) =~= Seq::<T>::empty());
        assert(many_decodes::<T>(s.skip(T::consumed(s) as int), 0));
        assert(many_consumed::<T>(s.skip(T::consumed(s) as int), 0) == 0);
        assert(many_value_ok::<T>(s.skip(T::consumed(s) as int), 0, vs.push(v).skip(1)));
    } else {
        let c = T::consumed(s) as int;
        let s1 = s.skip(c);
        lemma_many_consumed_le::<T>(s1, (n - 1) as nat);
        assert(s.skip(many_consumed::<T>(s, n) as int) =~= s1.skip(
            many_consumed::<T>(s1, (n - 1) as nat) as int,
        ));
        lemma_many_snoc::<T>(s1, (n - 1) as nat, vs.skip(1), v);
        assert(vs.push(v)[0] == vs[0]);
        assert(vs.push(v).skip(1) =~= vs.skip(1).push(v));
    }
}

/// If the value after a run of `i` values cannot be read, then no run of
/// more than `i` values can be read either.
proof fn lemma_many_decode_fail<T: Decodable>(s: Seq<u8>, n: nat, i: nat)
    requires
        i < n,
        many_decodes::<T>(s, i),
        !T::decodes(s.skip(many_consumed::<T>(s, i) as int)),
    ensures
        !many_decodes::<T>(s, n),
    decreases i,
{
    if i == 0 {
        assert(s.skip(0) =~= s);
    } else {
        let c = T::consumed(s) as int;
        let s1 = s.skip(c);
        lemma_many_consumed_le::<T>(s1, (i - 1) as nat);
        assert(s.skip(many_consumed::<T>(s, i) as int) =~= s1.skip(
            many_consumed::<T>(s1, (i - 1) as nat) as int,
        ));
        lemma_many_decode_fail::<T>(s1, (n - 1) as nat, (i - 1) as nat);
    }
}

/// Read `count` consecutive values of `T`, in on-wire order.
fn decode_many<T: Decodable>(cursor: &mut ByteCursor, count: u64) -> (r: Result<Vec<T>, Error>)
    requires
        old(cursor).wf(),
    ensures
        final(cursor).wf(),
        final(cursor).data() == old(cursor).data(),
        old(cursor).position() <= final(cursor).position(),
        match r {
            Ok(vs) => {
                &&& many_decodes::<T>(old(cursor).remaining(), count as nat)
                &&& many_value_ok::<T>(old(cursor).remaining(), count as nat, vs@)
                &&& final(cursor).position() == old(cursor).position() + many_consumed::<T>(
                    old(cursor).remaining(),
                    count as nat,
                )
            },
            Err(e) => {
                &&& e == Error::UnexpectedEndOfInput
                &&& !many_decodes::<T>(old(cursor).remaining(), count as nat)
            },
        },
{
    let ghost rem: Seq<u8> = cursor.remaining();
    let mut items: Vec<T> = Vec::new();
    let mut i: u64 = 0;
    #[verifier::loop_isolation(false)]
    while i < count
        invariant
            i <= count,
            cursor.wf(),
            cursor.data() == old(cursor).data(),
            many_decodes::<T>(rem, i as nat),
            many_value_ok::<T>(rem, i as nat, items@),
            cursor.position() == old(cursor).position() + many_consumed::<T>(rem, i as nat),
        decreases count - i,
    {
        proof {
            lemma_many_consumed_le::<T>(rem, i as nat);
            assert(cursor.remaining() =~= rem.skip(many_consumed::<T>(rem, i as nat) as int));
        }
        let ghost items_before: Seq<T> = items@;
        match T::consensus_decode(cursor) {
            Ok(v) => {
                proof {
                    lemma_many_snoc::<T>(rem, i as nat, items_before, v);
                }
                items.push(v);
                i = i + 1;
            },
            Err(e) => {
                proof {
                    lemma_many_decode_fail::<T>(rem, count as nat, i as nat);
                }
                return Err(e);
            },
        }
    }
    Ok(items)
}

impl Decodable for TxIn {
    open spec fn decodes(s: Seq<u8>) -> bool {
        &&& s.len() >= 36
        &&& script_decodes(s.skip(36))
        &&& s.skip(36).len() >= script_consumed(s.skip(36)) + 4
    }

    open spec fn consumed(s: Seq<u8>) -> nat {
        36 + script_consumed(s.skip(36)) + 4
    }

    open spec fn value_ok(s: Seq<u8>, v: TxIn) -> bool {
        let w = 36 + script_consumed(s.skip(36));
        &&& v.previous_txid@ == s.take(32)
        &&& v.previous_vout == spec_u32_from_le_bytes(s.subrange(32, 36))
        &&& v.script_sig@ == hex_of(script_bytes(s.skip(36)))
        &&& v.sequence == spec_u32_from_le_bytes(s.subrange(w as int, w as int + 4))
    }

    fn consensus_decode(cursor: &mut ByteCursor) -> (r: Result<TxIn, Error>) {
        let ghost rem: Seq<u8> = cursor.remaining();
        let previous_txid = match crate::read_txid(cursor) {
            Ok(t) => t,
            Err(e) => {
                return Err(e);
            },
        };
        proof {
            assert(cursor.remaining() =~= rem.skip(32));
        }
        let previous_vout = match crate::read_u32(cursor) {
            Ok(v) => v,
            Err(e) => {
                return Err(e);
            },
        };
        proof {
            assert(rem.skip(32).take(4) =~= rem.subrange(32, 36));
            assert(cursor.remaining() =~= rem.skip(36));
        }
        let script_sig = match crate::read_script(cursor) {
            Ok(h) => h,
            Err(e) => {
                return Err(e);
            },
        };
        let ghost w: nat = 36 + script_consumed(rem.skip(36));
        proof {
            assert(cursor.remaining() =~= rem.skip(w as int));
        }
        let sequence = match crate::read_u32(cursor) {
            Ok(v) => v,
            Err(e) => {
                return Err(e);
            },
        };
        proof {
            assert(rem.skip(w as int).take(4) =~= rem.subrange(w as int, w as int + 4));
        }
        Ok(TxIn { previous_txid, previous_vout, script_sig, sequence })
    }
}

impl Decodable for TxOut {
    open spec fn decodes(s: Seq<u8>) -> bool {
        s.len() >= 8 && script_decodes(s.skip(8))
    }

    open spec fn consumed(s: Seq<u8>) -> nat {
        8 + script_consumed(s.skip(8))
    }

    open spec fn value_ok(s: Seq<u8>, v: TxOut) -> bool {
        &&& v.amount@ == spec_u64_from_le_bytes(s.take(8))
        &&& v.script_pubkey@ == hex_of(script_bytes(s.skip(8)))
    }

    fn consensus_decode(cursor: &mut ByteCursor) -> (r: Result<TxOut, Error>) {
        let ghost rem: Seq<u8> = cursor.remaining();
        let amount = match crate::read_amount(cursor) {
            Ok(a) => a,
            Err(e) => {
                return Err(e);
            },
        };
        proof {
            assert(cursor.remaining() =~= rem.skip(8));
        }
        let script_pubkey = match crate::read_script(cursor) {
            Ok(h) => h,
            Err(e) => {
                return Err(e);
            },
        };
        Ok(TxOut { amount, script_pubkey })
    }
}

impl<T: Decodable> Decodable for Vec<T> {
    /// A compact size count `n`, then `n` consecutive values of `T`.
    open spec fn decodes(s: Seq<u8>) -> bool {
        &&& compact_size_decodes(s)
        &&& many_decodes::<T>(s.skip(compact_size_consumed(s) as int), compact_size_value(s))
    }

    open spec fn consumed(s: Seq<u8>) -> nat {
        compact_size_consumed(s) + many_consumed::<T>(
            s.skip(compact_size_consumed(s) as int),
            compact_size_value(s),
        )
    }

    open spec fn value_ok(s: Seq<u8>, v: Vec<T>) -> bool {
        many_value_ok::<T>(
            s.skip(compact_size_consumed(s) as int),
            compact_size_value(s),
            v@,
        )
    }

    fn consensus_decode(cursor: &mut ByteCursor) -> (r: Result<Vec<T>, Error>) {
        let ghost rem: Seq<u8> = cursor.remaining();
        let count = match crate::read_compact_size_integer(cursor) {
            Ok(n) => n,
            Err(e) => {
                return Err(e);
            },
        };
        proof {
            assert(cursor.remaining() =~= rem.skip(compact_size_consumed(rem) as int));
        }
        decode_many::<T>(cursor, count)
    }
}

impl Decodable for Transaction {
    /// Version, inputs, outputs, locktime, in that order on the wire.
    open spec fn decodes(s: Seq<u8>) -> bool {
        let s1 = s.skip(4);
        &&& s.len() >= 4
        &&& <Vec<TxIn> as Decodable>::decodes(s1)
        &&& {
            let s2 = s1.skip(<Vec<TxIn> as Decodable>::consumed(s1) as int);
            &&& <Vec<TxOut> as Decodable>::decodes(s2)
            &&& s2.len() >= <Vec<TxOut> as Decodable>::consumed(s2) + 4
        }
    }

    open spec fn consumed(s: Seq<u8>) -> nat {
        let s1 = s.skip(4);
        let s2 = s1.skip(<Vec<TxIn> as Decodable>::consumed(s1) as int);
        4 + <Vec<TxIn> as Decodable>::consumed(s1) + <Vec<TxOut> as Decodable>::consumed(s2) + 4
    }

    /// The fields denote the corresponding byte spans, and the identifier
    /// is the double SHA-256 digest of the exact raw span the record was
    /// decoded from.
    open spec fn value_ok(s: Seq<u8>, v: Transaction) -> bool {
        let s1 = s.skip(4);
        let s2 = s1.skip(<Vec<TxIn> as Decodable>::consumed(s1) as int);
        let s3 = s2.skip(<Vec<TxOut> as Decodable>::consumed(s2) as int);
        &&& v.version.0 == spec_u32_from_le_bytes(s.take(4))
        &&& <Vec<TxIn> as Decodable>::value_ok(s1, v.inputs)
        &&& <Vec<TxOut> as Decodable>::value_ok(s2, v.outputs)
        &&& v.locktime == spec_u32_from_le_bytes(s3.take(4))
        &&& v.txid@.len() == 32
        &&& v.txid@ == sha256_of(sha256_of(s.take(Self::consumed(s) as int)))
    }

    fn consensus_decode(cursor: &mut ByteCursor) -> (r: Result<Transaction, Error>) {
        let ghost rem: Seq<u8> = cursor.remaining();
        let start = cursor.offset();
        let version = match crate::read_u32(cursor) {
            Ok(v) => Version(v),
            Err(e) => {
                return Err(e);
            },
        };
        proof {
            assert(cursor.remaining() =~= rem.skip(4));
        }
        let inputs = match <Vec<TxIn> as Decodable>::consensus_decode(cursor) {
            Ok(v) => v,
            Err(e) => {
                return Err(e);
            },
        };
        let ghost s1: Seq<u8> = rem.skip(4);
        let ghost s2: Seq<u8> = s1.skip(<Vec<TxIn> as Decodable>::consumed(s1) as int);
        proof {
            assert(cursor.remaining() =~= s2);
        }
        let outputs = match <Vec<TxOut> as Decodable>::consensus_decode(cursor) {
            Ok(v) => v,
            Err(e) => {
                return Err(e);
            },
        };
        let ghost s3: Seq<u8> = s2.skip(<Vec<TxOut> as Decodable>::consumed(s2) as int);
        proof {
            assert(cursor.remaining() =~= s3);
        }
        let locktime = match crate::read_u32(cursor) {
            Ok(v) => v,
            Err(e) => {
                return Err(e);
            },
        };
        let end = cursor.offset();
        let raw_span = cursor.bytes_range(start, end);
        proof {
            assert(raw_span@ =~= rem.take(<Transaction as Decodable>::consumed(rem) as int));
        }
        let txid = Txid::new(raw_span);
        Ok(Transaction { txid, version, inputs, outputs, locktime })
    }
}

} // verus!
