//! The wire format of shard messages.
//!
//! A shard message is one tag byte followed by its fields, in the field format
//! of the peer protocol. A transaction is its four integers (id, sender,
//! recipient, amount); a block is its number, previous hash, timestamp (as the
//! 64 bits of the signed integer), its transactions as one list of integers
//! (four per transaction), then its nonce, reward and difficulty.

use vstd::prelude::*;
use crate::chain::block::BlockModel;
use crate::chain::transaction::Transaction;
use crate::chain::block::Block;
use crate::network::compression::{compress, decompress, zstd_contents, zstd_frame};
use crate::network::protocol::codec::{
    encode_field, encode_fields, field_encodable, fields_encodable, fields_view, kind_of, kinds_of,
    lemma_parse_fields_canonical, lemma_parse_fields_encode, parse_fields, read_fields, write_bytes,
    write_flags, write_text, write_u64, write_u64s, Field, FieldKind, FieldValue,
};
use crate::network::protocol::{ProtocolError, QKDKey};
use crate::network::shard_message::{ShardMessage, ShardModel};

verus! {

/// The four integers of a transaction, in wire order.
pub open spec fn transaction_fields(tx: Transaction) -> Seq<FieldValue> {
    seq![
        FieldValue::Int64(tx.id),
        FieldValue::Int64(tx.sender),
        FieldValue::Int64(tx.recipient),
        FieldValue::Int64(tx.amount),
    ]
}

/// The integer at position `k` (0 to 3) of a transaction.
pub open spec fn transaction_part(tx: Transaction, k: int) -> u64 {
    if k == 0 {
        tx.id
    } else if k == 1 {
        tx.sender
    } else if k == 2 {
        tx.recipient
    } else {
        tx.amount
    }
}

/// The integers of a list of transactions, four per transaction.
pub open spec fn flatten_transactions(txs: Seq<Transaction>) -> Seq<u64> {
    Seq::new(4 * txs.len(), |j: int| transaction_part(txs[j / 4], j % 4))
}

/// The transactions a list of integers stands for, four integers each.
pub open spec fn unflatten_transactions(l: Seq<u64>) -> Option<Seq<Transaction>> {
    if l.len() % 4 == 0 {
        Some(
            Seq::new(
                l.len() / 4,
                |i: int| Transaction { id: l[4 * i], sender: l[4 * i + 1], recipient: l[4 * i + 2], amount: l[4 * i + 3] },
            ),
        )
    } else {
        None
    }
}

proof fn lemma_unflatten_flatten(txs: Seq<Transaction>)
    ensures
        unflatten_transactions(flatten_transactions(txs)) == Some(txs),
{
    let l = flatten_transactions(txs);
    assert(l.len() % 4 == 0);
    let u = unflatten_transactions(l)->0;
    assert(u.len() == txs.len());
    assert forall|i: int| 0 <= i < txs.len() implies u[i] == txs[i] by {
        assert((4 * i) / 4 == i && (4 * i) % 4 == 0);
        assert((4 * i + 1) / 4 == i && (4 * i + 1) % 4 == 1);
        assert((4 * i + 2) / 4 == i && (4 * i + 2) % 4 == 2);
        assert((4 * i + 3) / 4 == i && (4 * i + 3) % 4 == 3);
    }
    assert(u =~= txs);
}

/// The fields of a block, in wire order.
pub open spec fn block_fields(b: BlockModel) -> Seq<FieldValue> {
    seq![
        FieldValue::Int64(b.block_number),
        FieldValue::Text(b.previous_block_hash),
        FieldValue::Int64(b.timestamp as u64),
        FieldValue::Int64List(flatten_transactions(b.transactions)),
        FieldValue::Int64(b.nonce),
        FieldValue::Int64(b.block_reward),
        FieldValue::Int64(b.difficulty),
    ]
}

/// The tag byte that starts the encoding of each kind of shard message.
pub open spec fn shard_tag(m: ShardModel) -> u8 {
    match m {
        ShardModel::TransactionMessage(_) => 0,
        ShardModel::StateRequest { .. } => 1,
        ShardModel::QKDKeyRequestShard => 2,
        ShardModel::QKDKeyResponseShard => 3,
        ShardModel::QKDKeyConfirmationShard => 4,
        ShardModel::QuantumStateMeasurementResultsShard(_) => 5,
        ShardModel::ShardSyncRequest { .. } => 6,
        ShardModel::ShardSyncResponse { .. } => 7,
        ShardModel::CrossShardTransactionMessage { .. } => 8,
        ShardModel::ShardBlockProposalMessage { .. } => 9,
        ShardModel::ShardBlockCommitMessage { .. } => 10,
    }
}

/// The fields of a shard message, in wire order.
pub open spec fn shard_fields(m: ShardModel) -> Seq<FieldValue> {
    match m {
        ShardModel::TransactionMessage(tx) => transaction_fields(tx),
        ShardModel::StateRequest { shard_id } => seq![FieldValue::Int64(shard_id)],
        ShardModel::QuantumStateMeasurementResultsShard(r) => seq![FieldValue::Flags(r)],
        ShardModel::ShardSyncRequest { shard_id, sync_hash } => seq![
            FieldValue::Int64(shard_id),
            FieldValue::Text(sync_hash),
        ],
        ShardModel::ShardSyncResponse { shard_id, sync_data } => seq![
            FieldValue::Int64(shard_id),
            FieldValue::Bytes(sync_data),
        ],
        ShardModel::CrossShardTransactionMessage { transaction, source_shard_id, target_shard_id } =>
            transaction_fields(transaction) + seq![
            FieldValue::Int64(source_shard_id),
            FieldValue::Int64(target_shard_id),
        ],
        ShardModel::ShardBlockProposalMessage { block, shard_id } => block_fields(block) + seq![
            FieldValue::Int64(shard_id),
        ],
        ShardModel::ShardBlockCommitMessage { block_hash, shard_id } => seq![
            FieldValue::Text(block_hash),
            FieldValue::Int64(shard_id),
        ],
        _ => Seq::empty(),
    }
}

/// The kinds of the four integers of a transaction.
pub open spec fn transaction_kinds() -> Seq<FieldKind> {
    seq![FieldKind::Int64, FieldKind::Int64, FieldKind::Int64, FieldKind::Int64]
}

/// The kinds of the fields of a block.
pub open spec fn block_kinds() -> Seq<FieldKind> {
    seq![
        FieldKind::Int64,
        FieldKind::Text,
        FieldKind::Int64,
        FieldKind::Int64List,
        FieldKind::Int64,
        FieldKind::Int64,
        FieldKind::Int64,
    ]
}

/// The kinds of field that follow each tag, for the tags in use.
pub open spec fn shard_schema(tag: u8) -> Option<Seq<FieldKind>> {
    if tag == 0 {
        Some(transaction_kinds())
    } else if tag == 1 {
        Some(seq![FieldKind::Int64])
    } else if 2 <= tag <= 4 {
        Some(Seq::empty())
    } else if tag == 5 {
        Some(seq![FieldKind::Flags])
    } else if tag == 6 {
        Some(seq![FieldKind::Int64, FieldKind::Text])
    } else if tag == 7 {
        Some(seq![FieldKind::Int64, FieldKind::Bytes])
    } else if tag == 8 {
        Some(transaction_kinds() + seq![FieldKind::Int64, FieldKind::Int64])
    } else if tag == 9 {
        Some(block_kinds() + seq![FieldKind::Int64])
    } else if tag == 10 {
        Some(seq![FieldKind::Text, FieldKind::Int64])
    } else {
        None
    }
}

/// The integer held by a field (zero for a field of another kind).
pub open spec fn int_of(f: FieldValue) -> u64 {
    match f {
        FieldValue::Int64(v) => v,
        _ => 0,
    }
}

/// The string held by a field (empty for a field of another kind).
pub open spec fn text_of(f: FieldValue) -> Seq<char> {
    match f {
        FieldValue::Text(t) => t,
        _ => Seq::empty(),
    }
}

/// The bytes held by a field (empty for a field of another kind).
pub open spec fn bytes_of(f: FieldValue) -> Seq<u8> {
    match f {
        FieldValue::Bytes(b) => b,
        _ => Seq::empty(),
    }
}

/// The flags held by a field (empty for a field of another kind).
pub open spec fn flags_of(f: FieldValue) -> Seq<bool> {
    match f {
        FieldValue::Flags(b) => b,
        _ => Seq::empty(),
    }
}

/// The integers held by a field (empty for a field of another kind).
pub open spec fn ints_of(f: FieldValue) -> Seq<u64> {
    match f {
        FieldValue::Int64List(l) => l,
        _ => Seq::empty(),
    }
}

/// The transaction held by the four fields from position `i`.
pub open spec fn transaction_at(fs: Seq<FieldValue>, i: int) -> Transaction {
    Transaction {
        id: int_of(fs[i]),
        sender: int_of(fs[i + 1]),
        recipient: int_of(fs[i + 2]),
        amount: int_of(fs[i + 3]),
    }
}

/// The block held by the seven fields from position 0, if its list of
/// integers stands for transactions.
pub open spec fn block_at(fs: Seq<FieldValue>) -> Option<BlockModel> {
    match unflatten_transactions(ints_of(fs[3])) {
        Some(txs) => Some(
            BlockModel {
                block_number: int_of(fs[0]),
                previous_block_hash: text_of(fs[1]),
                timestamp: int_of(fs[2]) as i64,
                transactions: txs,
                nonce: int_of(fs[4]),
                block_reward: int_of(fs[5]),
                difficulty: int_of(fs[6]),
            },
        ),
        None => None,
    }
}

/// The shard message a tag and the fields its schema calls for stand for.
pub open spec fn shard_from_fields(tag: u8, fs: Seq<FieldValue>) -> Option<ShardModel> {
    if tag == 0 {
        Some(ShardModel::TransactionMessage(transaction_at(fs, 0)))
    } else if tag == 1 {
        Some(ShardModel::StateRequest { shard_id: int_of(fs[0]) })
    } else if tag == 2 {
        Some(ShardModel::QKDKeyRequestShard)
    } else if tag == 3 {
        Some(ShardModel::QKDKeyResponseShard)
    } else if tag == 4 {
        Some(ShardModel::QKDKeyConfirmationShard)
    } else if tag == 5 {
        Some(ShardModel::QuantumStateMeasurementResultsShard(flags_of(fs[0])))
    } else if tag == 6 {
        Some(ShardModel::ShardSyncRequest { shard_id: int_of(fs[0]), sync_hash: text_of(fs[1]) })
    } else if tag == 7 {
        Some(ShardModel::ShardSyncResponse { shard_id: int_of(fs[0]), sync_data: bytes_of(fs[1]) })
    } else if tag == 8 {
        Some(
            ShardModel::CrossShardTransactionMessage {
                transaction: transaction_at(fs, 0),
                source_shard_id: int_of(fs[4]),
                target_shard_id: int_of(fs[5]),
            },
        )
    } else if tag == 9 {
        match block_at(fs) {
            Some(block) => Some(ShardModel::ShardBlockProposalMessage { block, shard_id: int_of(fs[7]) }),
            None => None,
        }
    } else if tag == 10 {
        Some(ShardModel::ShardBlockCommitMessage { block_hash: text_of(fs[0]), shard_id: int_of(fs[1]) })
    } else {
        None
    }
}

/// A shard message whose buffers, strings and lists fit their length prefixes.
pub open spec fn shard_encodable(m: ShardModel) -> bool {
    fields_encodable(shard_fields(m))
}

/// The bytes that stand for a shard message: its tag, then its fields.
pub open spec fn encode_shard(m: ShardModel) -> Seq<u8> {
    seq![shard_tag(m)] + encode_fields(shard_fields(m))
}

/// The shard message some bytes stand for: a known tag, fields of the kinds
/// that tag calls for and forming a message, and nothing after them.
pub open spec fn decode_shard(s: Seq<u8>) -> Option<ShardModel> {
    if s.len() == 0 {
        None
    } else {
        match shard_schema(s[0]) {
            Some(ks) => match parse_fields(ks, s.skip(1)) {
                Some((fs, n)) => if n == s.len() - 1 {
                    shard_from_fields(s[0], fs)
                } else {
                    None
                },
                None => None,
            },
            None => None,
        }
    }
}

proof fn lemma_shard_fields_shape(m: ShardModel)
    ensures
        shard_schema(shard_tag(m)) == Some(kinds_of(shard_fields(m))),
        shard_from_fields(shard_tag(m), shard_fields(m)) == Some(m),
{
    let fs = shard_fields(m);
    assert(kinds_of(fs) =~= shard_schema(shard_tag(m))->0);
    match m {
        ShardModel::TransactionMessage(tx) => {
            assert(transaction_at(fs, 0) == tx);
        },
        ShardModel::CrossShardTransactionMessage { transaction, .. } => {
            assert(transaction_at(fs, 0) == transaction);
        },
        ShardModel::ShardBlockProposalMessage { block, shard_id } => {
            lemma_unflatten_flatten(block.transactions);
            let t = block.timestamp;
            assert((t as u64) as i64 == t) by (bit_vector);
            assert(block_at(fs) == Some(block));
        },
        _ => {},
    }
}

proof fn lemma_flatten_unflatten(l: Seq<u64>)
    requires
        unflatten_transactions(l) is Some,
    ensures
        flatten_transactions(unflatten_transactions(l)->0) == l,
{
    let txs = unflatten_transactions(l)->0;
    let f = flatten_transactions(txs);
    assert(f.len() == l.len());
    assert forall|j: int| 0 <= j < l.len() implies f[j] == l[j] by {
        let i = j / 4;
        let k = j % 4;
        assert(j == 4 * i + k);
        assert(0 <= i < txs.len());
    }
    assert(f =~= l);
}

/// A field of the given kind is rebuilt from what the accessor of that kind reads.
proof fn lemma_field_accessors(f: FieldValue)
    ensures
        kind_of(f) == FieldKind::Int64 ==> f == FieldValue::Int64(int_of(f)),
        kind_of(f) == FieldKind::Text ==> f == FieldValue::Text(text_of(f)),
        kind_of(f) == FieldKind::Bytes ==> f == FieldValue::Bytes(bytes_of(f)),
        kind_of(f) == FieldKind::Flags ==> f == FieldValue::Flags(flags_of(f)),
        kind_of(f) == FieldKind::Int64List ==> f == FieldValue::Int64List(ints_of(f)),
{
}

proof fn lemma_shard_from_fields_inverse(tag: u8, fs: Seq<FieldValue>)
    requires
        shard_schema(tag) is Some,
        kinds_of(fs) == shard_schema(tag)->0,
        shard_from_fields(tag, fs) is Some,
    ensures
        shard_tag(shard_from_fields(tag, fs)->0) == tag,
        shard_fields(shard_from_fields(tag, fs)->0) == fs,
{
    let m = shard_from_fields(tag, fs)->0;
    let ks = shard_schema(tag)->0;
    assert(fs.len() == ks.len());
    assert forall|i: int| 0 <= i < fs.len() implies kind_of(#[trigger] fs[i]) == ks[i] by {
        assert(kinds_of(fs)[i] == kind_of(fs[i]));
    }
    if tag == 9 {
        lemma_flatten_unflatten(ints_of(fs[3]));
        let v = int_of(fs[2]);
        assert((v as i64) as u64 == v) by (bit_vector);
    }
    assert forall|i: int| 0 <= i < fs.len() implies shard_fields(m)[i] == fs[i] by {
        lemma_field_accessors(fs[i]);
    }
    assert(shard_fields(m) =~= fs);
}

/// Only the encoding of a shard message decodes: whatever decodes to a shard
/// message is exactly that message's encoding.
pub proof fn lemma_encode_decode_shard(s: Seq<u8>)
    requires
        decode_shard(s) is Some,
    ensures
        shard_encodable(decode_shard(s)->0),
        encode_shard(decode_shard(s)->0) == s,
{
    let ks = shard_schema(s[0])->0;
    lemma_parse_fields_canonical(ks, s.skip(1));
    let (fs, n) = parse_fields(ks, s.skip(1))->0;
    lemma_shard_from_fields_inverse(s[0], fs);
    assert(s.skip(1).take(n) =~= s.skip(1));
    assert(s =~= seq![s[0]] + s.skip(1));
}

/// Decoding the encoding of a shard message gives the message back.
pub proof fn lemma_decode_encode_shard(m: ShardModel)
    requires
        shard_encodable(m),
    ensures
        decode_shard(encode_shard(m)) == Some(m),
{
    let fs = shard_fields(m);
    let s = encode_shard(m);
    lemma_shard_fields_shape(m);
    lemma_parse_fields_encode(fs, Seq::empty());
    assert(encode_fields(fs) + Seq::<u8>::empty() =~= encode_fields(fs));
    assert(s.skip(1) =~= encode_fields(fs));
    assert(s[0] == shard_tag(m));
}

/// Appending a field to a list appends its encoding.
proof fn lemma_encode_fields_push(fs: Seq<FieldValue>, f: FieldValue)
    ensures
        encode_fields(fs.push(f)) == encode_fields(fs) + encode_field(f),
        fields_encodable(fs.push(f)) == (fields_encodable(fs) && field_encodable(f)),
{
    assert(fs.push(f).drop_last() =~= fs);
    assert(fs.push(f).last() == f);
    if fields_encodable(fs) && field_encodable(f) {
        assert forall|i: int| 0 <= i < fs.push(f).len() implies field_encodable(#[trigger] fs.push(f)[i]) by {
            if i < fs.len() {
                assert(fs.push(f)[i] == fs[i]);
            }
        }
    }
    if fields_encodable(fs.push(f)) {
        assert(field_encodable(fs.push(f)[fs.len() as int]));
        assert forall|i: int| 0 <= i < fs.len() implies field_encodable(#[trigger] fs[i]) by {
            assert(fs.push(f)[i] == fs[i]);
        }
    }
}

/// The bytes written so far: the tag, then the fields `fs`, all encodable.
spec fn written(out: Seq<u8>, tag: u8, fs: Seq<FieldValue>) -> bool {
    out == seq![tag] + encode_fields(fs) && fields_encodable(fs)
}

fn put_u64(out: &mut Vec<u8>, v: u64, Ghost(tag): Ghost<u8>, Ghost(fs): Ghost<Seq<FieldValue>>)
    requires
        written(old(out)@, tag, fs),
    ensures
        written(final(out)@, tag, fs.push(FieldValue::Int64(v))),
{
    write_u64(out, v);
    proof {
        lemma_encode_fields_push(fs, FieldValue::Int64(v));
        assert(out@ =~= seq![tag] + encode_fields(fs.push(FieldValue::Int64(v))));
    }
}

fn put_text(out: &mut Vec<u8>, t: &String, Ghost(tag): Ghost<u8>, Ghost(fs): Ghost<Seq<FieldValue>>)
    requires
        written(old(out)@, tag, fs),
    ensures
        written(final(out)@, tag, fs.push(FieldValue::Text(t@))),
{
    write_text(out, t);
    proof {
        lemma_encode_fields_push(fs, FieldValue::Text(t@));
        assert(out@ =~= seq![tag] + encode_fields(fs.push(FieldValue::Text(t@))));
    }
}

fn put_bytes(out: &mut Vec<u8>, b: &Vec<u8>, Ghost(tag): Ghost<u8>, Ghost(fs): Ghost<Seq<FieldValue>>)
    requires
        written(old(out)@, tag, fs),
    ensures
        written(final(out)@, tag, fs.push(FieldValue::Bytes(b@))),
{
    write_bytes(out, b.as_slice());
    proof {
        lemma_encode_fields_push(fs, FieldValue::Bytes(b@));
        assert(out@ =~= seq![tag] + encode_fields(fs.push(FieldValue::Bytes(b@))));
    }
}

fn put_flags(out: &mut Vec<u8>, f: &Vec<bool>, Ghost(tag): Ghost<u8>, Ghost(fs): Ghost<Seq<FieldValue>>)
    requires
        written(old(out)@, tag, fs),
    ensures
        written(final(out)@, tag, fs.push(FieldValue::Flags(f@))),
{
    write_flags(out, f);
    proof {
        lemma_encode_fields_push(fs, FieldValue::Flags(f@));
        assert(out@ =~= seq![tag] + encode_fields(fs.push(FieldValue::Flags(f@))));
    }
}

fn put_ints(out: &mut Vec<u8>, l: &Vec<u64>, Ghost(tag): Ghost<u8>, Ghost(fs): Ghost<Seq<FieldValue>>)
    requires
        written(old(out)@, tag, fs),
    ensures
        written(final(out)@, tag, fs.push(FieldValue::Int64List(l@))),
{
    write_u64s(out, l);
    proof {
        lemma_encode_fields_push(fs, FieldValue::Int64List(l@));
        assert(out@ =~= seq![tag] + encode_fields(fs.push(FieldValue::Int64List(l@))));
    }
}

fn put_transaction(out: &mut Vec<u8>, tx: &Transaction, Ghost(tag): Ghost<u8>, Ghost(fs): Ghost<Seq<FieldValue>>)
    requires
        written(old(out)@, tag, fs),
    ensures
        written(final(out)@, tag, fs + transaction_fields(*tx)),
{
    put_u64(out, tx.id, Ghost(tag), Ghost(fs));
    put_u64(out, tx.sender, Ghost(tag), Ghost(fs.push(FieldValue::Int64(tx.id))));
    put_u64(
        out,
        tx.recipient,
        Ghost(tag),
        Ghost(fs.push(FieldValue::Int64(tx.id)).push(FieldValue::Int64(tx.sender))),
    );
    put_u64(
        out,
        tx.amount,
        Ghost(tag),
        Ghost(
            fs.push(FieldValue::Int64(tx.id)).push(FieldValue::Int64(tx.sender)).push(
                FieldValue::Int64(tx.recipient),
            ),
        ),
    );
    assert(fs.push(FieldValue::Int64(tx.id)).push(FieldValue::Int64(tx.sender)).push(
        FieldValue::Int64(tx.recipient),
    ).push(FieldValue::Int64(tx.amount)) =~= fs + transaction_fields(*tx));
}

/// The integers of a list of transactions, four per transaction.
fn flatten(txs: &Vec<Transaction>) -> (l: Vec<u64>)
    ensures
        l@ == flatten_transactions(txs@),
{
    let mut l: Vec<u64> = Vec::new();
    let mut i: usize = 0;
    while i < txs.len()
        invariant
            i <= txs@.len(),
            l@.len() == 4 * i,
            forall|j: int| 0 <= j < 4 * i ==> #[trigger] l@[j] == transaction_part(txs@[j / 4], j % 4),
        decreases txs@.len() - i,
    {
        let tx = txs[i];
        l.push(tx.id);
        l.push(tx.sender);
        l.push(tx.recipient);
        l.push(tx.amount);
        proof {
            assert forall|j: int| 4 * i <= j < 4 * i + 4 implies #[trigger] l@[j] == transaction_part(
                txs@[j / 4],
                j % 4,
            ) by {
                assert(j / 4 == i);
            }
        }
        i = i + 1;
    }
    assert(l@ =~= flatten_transactions(txs@));
    l
}

/// The transactions a list of integers stands for, four integers each.
fn unflatten(l: &Vec<u64>) -> (r: Option<Vec<Transaction>>)
    ensures
        match r {
            Some(txs) => unflatten_transactions(l@) == Some(txs@),
            None => unflatten_transactions(l@) is None,
        },
{
    if l.len() % 4 != 0 {
        return None;
    }
    let n = l.len() / 4;
    assert(4 * n == l@.len());
    let mut txs: Vec<Transaction> = Vec::new();
    let mut i: usize = 0;
    while i < n
        invariant
            n == l@.len() / 4,
            4 * n == l@.len(),
            l@.len() <= usize::MAX,
            l@.len() % 4 == 0,
            i <= n,
            txs@.len() == i,
            forall|k: int|
                0 <= k < i ==> #[trigger] txs@[k] == (Transaction {
                    id: l@[4 * k],
                    sender: l@[4 * k + 1],
                    recipient: l@[4 * k + 2],
                    amount: l@[4 * k + 3],
                }),
        decreases n - i,
    {
        let b = 4 * i;
        txs.push(Transaction { id: l[b], sender: l[b + 1], recipient: l[b + 2], amount: l[b + 3] });
        i = i + 1;
    }
    assert(txs@ =~= unflatten_transactions(l@)->0);
    Some(txs)
}

fn int_field(f: &Field) -> (v: u64)
    ensures
        v == int_of(f@),
{
    match f {
        Field::Int64(v) => *v,
        _ => 0,
    }
}

fn text_field(f: Field) -> (t: String)
    ensures
        t@ == text_of(f@),
{
    match f {
        Field::Text(t) => t,
        _ => String::new(),
    }
}

fn bytes_field(f: Field) -> (b: Vec<u8>)
    ensures
        b@ == bytes_of(f@),
{
    match f {
        Field::Bytes(b) => b,
        _ => Vec::new(),
    }
}

fn flags_field(f: Field) -> (b: Vec<bool>)
    ensures
        b@ == flags_of(f@),
{
    match f {
        Field::Flags(b) => b,
        _ => Vec::new(),
    }
}

fn ints_field(f: Field) -> (l: Vec<u64>)
    ensures
        l@ == ints_of(f@),
{
    match f {
        Field::Int64List(l) => l,
        _ => Vec::new(),
    }
}

fn schema_of(tag: u8) -> (r: Option<Vec<FieldKind>>)
    ensures
        match r {
            Some(ks) => shard_schema(tag) == Some(ks@),
            None => shard_schema(tag) is None,
        },
{
    let r = if tag == 0 {
        Some(vec![FieldKind::Int64, FieldKind::Int64, FieldKind::Int64, FieldKind::Int64])
    } else if tag == 1 {
        Some(vec![FieldKind::Int64])
    } else if 2 <= tag && tag <= 4 {
        Some(Vec::new())
    } else if tag == 5 {
        Some(vec![FieldKind::Flags])
    } else if tag == 6 {
        Some(vec![FieldKind::Int64, FieldKind::Text])
    } else if tag == 7 {
        Some(vec![FieldKind::Int64, FieldKind::Bytes])
    } else if tag == 8 {
        Some(
            vec![
                FieldKind::Int64,
                FieldKind::Int64,
                FieldKind::Int64,
                FieldKind::Int64,
                FieldKind::Int64,
                FieldKind::Int64,
            ],
        )
    } else if tag == 9 {
        Some(
            vec![
                FieldKind::Int64,
                FieldKind::Text,
                FieldKind::Int64,
                FieldKind::Int64List,
                FieldKind::Int64,
                FieldKind::Int64,
                FieldKind::Int64,
                FieldKind::Int64,
            ],
        )
    } else if tag == 10 {
        Some(vec![FieldKind::Text, FieldKind::Int64])
    } else {
        None
    };
    proof {
        if let Some(ks) = &r {
            assert(ks@ =~= shard_schema(tag)->0);
        }
    }
    r
}

/// Builds the shard message of a tag from the fields its schema calls for.
fn build_shard(tag: u8, fields: Vec<Field>) -> (r: Option<ShardMessage>)
    requires
        shard_schema(tag) is Some,
        kinds_of(fields_view(fields@)) == shard_schema(tag)->0,
    ensures
        match r {
            Some(m) => shard_from_fields(tag, fields_view(fields@)) == Some(m@),
            None => shard_from_fields(tag, fields_view(fields@)) is None,
        },
{
    let ghost fs = fields_view(fields@);
    assert(fields@.len() == fs.len());
    assert(fields@.len() == kinds_of(fs).len());
    assert(fields@.len() == shard_schema(tag)->0.len());
    assert(forall|i: int| 0 <= i < fields@.len() ==> #[trigger] fields@[i]@ == fs[i]);
    let mut fields = fields;
    if tag == 0 || tag == 8 {
        let target = if tag == 8 { int_field(&fields[5]) } else { 0 };
        let source = if tag == 8 { int_field(&fields[4]) } else { 0 };
        let tx = Transaction {
            id: int_field(&fields[0]),
            sender: int_field(&fields[1]),
            recipient: int_field(&fields[2]),
            amount: int_field(&fields[3]),
        };
        if tag == 0 {
            Some(ShardMessage::TransactionMessage(tx))
        } else {
            Some(
                ShardMessage::CrossShardTransactionMessage {
                    transaction: tx,
                    source_shard_id: source,
                    target_shard_id: target,
                },
            )
        }
    } else if tag == 1 {
        Some(ShardMessage::StateRequest { shard_id: int_field(&fields[0]) })
    } else if tag == 2 {
        Some(ShardMessage::QKDKeyRequestShard)
    } else if tag == 3 {
        Some(ShardMessage::QKDKeyResponseShard(QKDKey {}))
    } else if tag == 4 {
        Some(ShardMessage::QKDKeyConfirmationShard)
    } else if tag == 5 {
        let f = fields.pop();
        match f {
            Some(f) => Some(ShardMessage::QuantumStateMeasurementResultsShard(flags_field(f))),
            None => None,
        }
    } else if tag == 6 || tag == 7 {
        let shard_id = int_field(&fields[0]);
        let second = fields.pop();
        match second {
            Some(f) => if tag == 6 {
                Some(ShardMessage::ShardSyncRequest { shard_id, sync_hash: text_field(f) })
            } else {
                Some(ShardMessage::ShardSyncResponse { shard_id, sync_data: bytes_field(f) })
            },
            None => None,
        }
    } else if tag == 9 {
        let shard_id = int_field(&fields[7]);
        let difficulty = int_field(&fields[6]);
        let block_reward = int_field(&fields[5]);
        let nonce = int_field(&fields[4]);
        let timestamp = int_field(&fields[2]) as i64;
        let block_number = int_field(&fields[0]);
        let ghost before = fields@;
        fields.truncate(4);
        assert(fields@ =~= before.take(4));
        let list = fields.pop();
        fields.truncate(2);
        let hash = fields.pop();
        match (hash, list) {
            (Some(h), Some(l)) => {
                let ints = ints_field(l);
                match unflatten(&ints) {
                    Some(transactions) => Some(
                        ShardMessage::ShardBlockProposalMessage {
                            block: Block {
                                block_number,
                                previous_block_hash: text_field(h),
                                timestamp,
                                transactions,
                                nonce,
                                block_reward,
                                difficulty,
                            },
                            shard_id,
                        },
                    ),
                    None => None,
                }
            },
            _ => None,
        }
    } else {
        let shard_id = int_field(&fields[1]);
        let ghost before = fields@;
        fields.truncate(1);
        assert(fields@ =~= before.take(1));
        match fields.pop() {
            Some(f) => Some(ShardMessage::ShardBlockCommitMessage { block_hash: text_field(f), shard_id }),
            None => None,
        }
    }
}

impl ShardMessage {
    /// The bytes that stand for this message in the wire format.
    pub fn encode(&self) -> (out: Vec<u8>)
        ensures
            out@ == encode_shard(self@),
            shard_encodable(self@),
    {
        let ghost m = self@;
        let ghost tag = shard_tag(m);
        let mut out: Vec<u8> = Vec::new();
        out.push(shard_tag_exec(self));
        let ghost empty = Seq::<FieldValue>::empty();
        assert(out@ =~= seq![tag] + encode_fields(empty));
        match self {
            ShardMessage::TransactionMessage(tx) => {
                put_transaction(&mut out, tx, Ghost(tag), Ghost(empty));
                assert(empty + transaction_fields(*tx) =~= shard_fields(m));
            },
            ShardMessage::StateRequest { shard_id } => {
                put_u64(&mut out, *shard_id, Ghost(tag), Ghost(empty));
                assert(empty.push(FieldValue::Int64(*shard_id)) =~= shard_fields(m));
            },
            ShardMessage::QuantumStateMeasurementResultsShard(r) => {
                put_flags(&mut out, r, Ghost(tag), Ghost(empty));
                assert(empty.push(FieldValue::Flags(r@)) =~= shard_fields(m));
            },
            ShardMessage::ShardSyncRequest { shard_id, sync_hash } => {
                put_u64(&mut out, *shard_id, Ghost(tag), Ghost(empty));
                let ghost fs = empty.push(FieldValue::Int64(*shard_id));
                put_text(&mut out, sync_hash, Ghost(tag), Ghost(fs));
                assert(fs.push(FieldValue::Text(sync_hash@)) =~= shard_fields(m));
            },
            ShardMessage::ShardSyncResponse { shard_id, sync_data } => {
                put_u64(&mut out, *shard_id, Ghost(tag), Ghost(empty));
                let ghost fs = empty.push(FieldValue::Int64(*shard_id));
                put_bytes(&mut out, sync_data, Ghost(tag), Ghost(fs));
                assert(fs.push(FieldValue::Bytes(sync_data@)) =~= shard_fields(m));
            },
            ShardMessage::CrossShardTransactionMessage { transaction, source_shard_id, target_shard_id } => {
                put_transaction(&mut out, transaction, Ghost(tag), Ghost(empty));
                let ghost fs = empty + transaction_fields(*transaction);
                put_u64(&mut out, *source_shard_id, Ghost(tag), Ghost(fs));
                let ghost fs2 = fs.push(FieldValue::Int64(*source_shard_id));
                put_u64(&mut out, *target_shard_id, Ghost(tag), Ghost(fs2));
                assert(fs2.push(FieldValue::Int64(*target_shard_id)) =~= shard_fields(m));
            },
            ShardMessage::ShardBlockProposalMessage { block, shard_id } => {
                put_u64(&mut out, block.block_number, Ghost(tag), Ghost(empty));
                let ghost f1 = empty.push(FieldValue::Int64(block.block_number));
                put_text(&mut out, &block.previous_block_hash, Ghost(tag), Ghost(f1));
                let ghost f2 = f1.push(FieldValue::Text(block.previous_block_hash@));
                put_u64(&mut out, block.timestamp as u64, Ghost(tag), Ghost(f2));
                let ghost f3 = f2.push(FieldValue::Int64(block.timestamp as u64));
                let ints = flatten(&block.transactions);
                put_ints(&mut out, &ints, Ghost(tag), Ghost(f3));
                let ghost f4 = f3.push(FieldValue::Int64List(ints@));
                put_u64(&mut out, block.nonce, Ghost(tag), Ghost(f4));
                let ghost f5 = f4.push(FieldValue::Int64(block.nonce));
                put_u64(&mut out, block.block_reward, Ghost(tag), Ghost(f5));
                let ghost f6 = f5.push(FieldValue::Int64(block.block_reward));
                put_u64(&mut out, block.difficulty, Ghost(tag), Ghost(f6));
                let ghost f7 = f6.push(FieldValue::Int64(block.difficulty));
                put_u64(&mut out, *shard_id, Ghost(tag), Ghost(f7));
                assert(f7.push(FieldValue::Int64(*shard_id)) =~= shard_fields(m));
            },
            ShardMessage::ShardBlockCommitMessage { block_hash, shard_id } => {
                put_text(&mut out, block_hash, Ghost(tag), Ghost(empty));
                let ghost fs = empty.push(FieldValue::Text(block_hash@));
                put_u64(&mut out, *shard_id, Ghost(tag), Ghost(fs));
                assert(fs.push(FieldValue::Int64(*shard_id)) =~= shard_fields(m));
            },
            _ => {
                assert(empty =~= shard_fields(m));
            },
        }
        out
    }

    /// The shard message that some bytes stand for in the wire format; none
    /// unless the bytes are exactly the encoding of a shard message.
    pub fn decode(bytes: &[u8]) -> (r: Option<ShardMessage>)
        ensures
            match r {
                Some(m) => decode_shard(bytes@) == Some(m@),
                None => decode_shard(bytes@) is None,
            },
    {
        if bytes.len() == 0 {
            return None;
        }
        let tag = bytes[0];
        let kinds = match schema_of(tag) {
            Some(ks) => ks,
            None => {
                return None;
            },
        };
        let (fields, end) = match read_fields(&kinds, bytes, 1) {
            Some(x) => x,
            None => {
                return None;
            },
        };
        if end != bytes.len() {
            return None;
        }
        proof {
            lemma_parse_fields_canonical(kinds@, bytes@.skip(1));
        }
        build_shard(tag, fields)
    }
}

fn shard_tag_exec(m: &ShardMessage) -> (t: u8)
    ensures
        t == shard_tag(m@),
{
    match m {
        ShardMessage::TransactionMessage(_) => 0,
        ShardMessage::StateRequest { .. } => 1,
        ShardMessage::QKDKeyRequestShard => 2,
        ShardMessage::QKDKeyResponseShard(_) => 3,
        ShardMessage::QKDKeyConfirmationShard => 4,
        ShardMessage::QuantumStateMeasurementResultsShard(_) => 5,
        ShardMessage::ShardSyncRequest { .. } => 6,
        ShardMessage::ShardSyncResponse { .. } => 7,
        ShardMessage::CrossShardTransactionMessage { .. } => 8,
        ShardMessage::ShardBlockProposalMessage { .. } => 9,
        ShardMessage::ShardBlockCommitMessage { .. } => 10,
    }
}

/// The compression level used for shard messages.
pub const SHARD_COMPRESSION_LEVEL: i32 = 3;

/// The shard message that serialized bytes stand for: they decompress, and
/// what they decompress to is the encoding of a shard message.
pub open spec fn received_shard_message(data: Seq<u8>) -> Option<ShardModel> {
    match zstd_contents(data) {
        Some(d) => decode_shard(d),
        None => None,
    }
}

impl ShardMessage {
    /// Serializes the message: its wire encoding, compressed with zstd.
    /// Serializing always succeeds.
    pub fn serialize(&self) -> (r: Result<Vec<u8>, ProtocolError>)
        ensures
            shard_encodable(self@),
            r is Ok,
            r matches Ok(data) ==> data@ == zstd_frame(encode_shard(self@), SHARD_COMPRESSION_LEVEL)
                && zstd_contents(data@) == Some(encode_shard(self@)),
    {
        let encoded = self.encode();
        match compress(encoded.as_slice(), SHARD_COMPRESSION_LEVEL) {
            Ok(data) => Ok(data),
            Err(e) => Err(ProtocolError::CompressionFailed(e)),
        }
    }

    /// Reads a serialized shard message back: decompresses it, then decodes it.
    pub fn deserialize(data: &[u8]) -> (r: Result<ShardMessage, ProtocolError>)
        ensures
            match r {
                Ok(m) => received_shard_message(data@) == Some(m@),
                Err(e) => received_shard_message(data@) is None && (if zstd_contents(data@) is None {
                    e is DecompressionFailed
                } else {
                    e is DeserializationFailed
                }),
            },
    {
        match decompress(data) {
            Ok(d) => match ShardMessage::decode(d.as_slice()) {
                Some(m) => Ok(m),
                None => Err(ProtocolError::DeserializationFailed(String::from_str("malformed shard message"))),
            },
            Err(e) => Err(ProtocolError::DecompressionFailed(e)),
        }
    }
}

/// A serialized shard message is received as that same message.
pub proof fn lemma_serialized_shard_message_is_received(m: ShardModel, data: Seq<u8>)
    requires
        shard_encodable(m),
        zstd_contents(data) == Some(encode_shard(m)),
    ensures
        received_shard_message(data) == Some(m),
{
    lemma_decode_encode_shard(m);
}

} // verus!
