//! The ledger snapshot codec.
//!
//! A snapshot is a self-contained byte string: a count of accounts, then per
//! account its address, balance, bytecode and datastore, every string as
//! length-prefixed UTF-8 and every byte string length-prefixed, all counts
//! 64-bit little-endian.  Decoding is proved to invert encoding exactly, so
//! a persisted ledger reloads to an equal map.

use vstd::bytes::{spec_u64_from_le_bytes, spec_u64_to_le_bytes};
use vstd::prelude::*;
use vstd::utf8::{decode_utf8, encode_utf8, valid_utf8};

use crate::assoc::KV;
use crate::ledger::{Entry, EntryV, Ledger, LedgerV};

verus! {

/// The ordered model of one encoded entry.
#[verifier::ext_equal]
pub ghost struct EntryRepr {
    pub balance: u64,
    pub bytecode: Seq<u8>,
    pub datastore: Seq<(Seq<char>, Seq<u8>)>,
}

/// The ordered model of an encoded ledger: accounts in storage order.
pub type LedgerRepr = Seq<(Seq<char>, EntryRepr)>;

/// The ordered model of an entry as stored.
pub open spec fn repr_of_entry(e: Entry) -> EntryRepr {
    EntryRepr {
        balance: e.balance,
        bytecode: e.bytecode@,
        datastore: e.datastore@.map_values(|p: KV<Vec<u8>>| (p.key@, p.val@)),
    }
}

/// The ordered model of a ledger as stored.
pub open spec fn repr_of_ledger(l: Ledger) -> LedgerRepr {
    l.accounts@.map_values(|p: KV<Entry>| (p.key@, repr_of_entry(p.val)))
}

/// The entry model an entry representation denotes.
pub open spec fn entry_v_of(e: EntryRepr) -> EntryV {
    EntryV { balance: e.balance, bytecode: e.bytecode, datastore: pairs_map(e.datastore) }
}

/// The map a pair sequence denotes; a repeated key keeps its last value.
pub open spec fn pairs_map(d: Seq<(Seq<char>, Seq<u8>)>) -> Map<Seq<char>, Seq<u8>>
    decreases d.len(),
{
    if d.len() == 0 {
        Map::empty()
    } else {
        pairs_map(d.drop_last()).insert(d.last().0, d.last().1)
    }
}

/// The ledger map a ledger representation denotes.
pub open spec fn map_of_repr(r: LedgerRepr) -> LedgerV
    decreases r.len(),
{
    if r.len() == 0 {
        Map::empty()
    } else {
        map_of_repr(r.drop_last()).insert(r.last().0, entry_v_of(r.last().1))
    }
}

/// A stored ledger denotes exactly its own map model.
pub proof fn lemma_repr_denotes_view(l: Ledger)
    ensures
        map_of_repr(repr_of_ledger(l)) == l@,
{
    lemma_accounts_denote_map(l.accounts@);
}

/// Account views of an association vector denote its map.
pub proof fn lemma_accounts_denote_map(s: Seq<KV<Entry>>)
    ensures
        map_of_repr(s.map_values(|p: KV<Entry>| (p.key@, repr_of_entry(p.val)))) ==
            crate::assoc::kv_map(s),
    decreases s.len(),
{
    let r = s.map_values(|p: KV<Entry>| (p.key@, repr_of_entry(p.val)));
    if s.len() == 0 {
        assert(map_of_repr(r) =~= crate::assoc::kv_map(s));
    } else {
        lemma_accounts_denote_map(s.drop_last());
        assert(r.drop_last() =~= s.drop_last().map_values(|p: KV<Entry>| (p.key@,
            repr_of_entry(p.val))));
        assert(r.last() == (s.last().key@, repr_of_entry(s.last().val)));
        lemma_pairs_denote_map(s.last().val);
        assert(map_of_repr(r) =~= crate::assoc::kv_map(s));
    }
}

/// An entry's pair sequence denotes the entry's datastore map.
pub proof fn lemma_pairs_denote_map(e: Entry)
    ensures
        entry_v_of(repr_of_entry(e)) == e@,
    decreases e.datastore@.len(),
{
    lemma_pairs_map_congruent(e.datastore@);
}

/// Pair views of an association vector denote its map.
pub proof fn lemma_pairs_map_congruent(d: Seq<KV<Vec<u8>>>)
    ensures
        pairs_map(d.map_values(|p: KV<Vec<u8>>| (p.key@, p.val@))) == crate::assoc::kv_map(d),
    decreases d.len(),
{
    let m = d.map_values(|p: KV<Vec<u8>>| (p.key@, p.val@));
    if d.len() == 0 {
        assert(pairs_map(m) =~= crate::assoc::kv_map(d));
    } else {
        lemma_pairs_map_congruent(d.drop_last());
        assert(m.drop_last() =~= d.drop_last().map_values(|p: KV<Vec<u8>>| (p.key@, p.val@)));
        assert(m.last() == (d.last().key@, d.last().val@));
    }
}

/// The 8 little-endian bytes of `x`.
pub open spec fn enc_u64(x: u64) -> Seq<u8> {
    spec_u64_to_le_bytes(x)
}

/// A length-prefixed byte string.
pub open spec fn enc_bytes(b: Seq<u8>) -> Seq<u8> {
    enc_u64(b.len() as u64) + b
}

/// A length-prefixed UTF-8 string.
pub open spec fn enc_str(s: Seq<char>) -> Seq<u8> {
    enc_bytes(encode_utf8(s))
}

/// One datastore pair.
pub open spec fn enc_pair(p: (Seq<char>, Seq<u8>)) -> Seq<u8> {
    enc_str(p.0) + enc_bytes(p.1)
}

/// A pair sequence, in order (its count is prefixed by [`enc_entry`]).
pub open spec fn enc_pairs(d: Seq<(Seq<char>, Seq<u8>)>) -> Seq<u8>
    decreases d.len(),
{
    if d.len() == 0 {
        Seq::empty()
    } else {
        enc_pair(d[0]) + enc_pairs(d.drop_first())
    }
}

/// One entry: balance, bytecode, datastore count, datastore pairs.
pub open spec fn enc_entry(e: EntryRepr) -> Seq<u8> {
    enc_u64(e.balance) + enc_bytes(e.bytecode) + enc_u64(e.datastore.len() as u64) + enc_pairs(
        e.datastore)
}

/// One account: address then entry.
pub open spec fn enc_account(a: (Seq<char>, EntryRepr)) -> Seq<u8> {
    enc_str(a.0) + enc_entry(a.1)
}

/// The account sequence, in order.
pub open spec fn enc_accounts(r: LedgerRepr) -> Seq<u8>
    decreases r.len(),
{
    if r.len() == 0 {
        Seq::empty()
    } else {
        enc_account(r[0]) + enc_accounts(r.drop_first())
    }
}

/// A whole snapshot: account count, then the accounts.
pub open spec fn enc_ledger(r: LedgerRepr) -> Seq<u8> {
    enc_u64(r.len() as u64) + enc_accounts(r)
}

/// Read a 64-bit count; what follows stays.
pub open spec fn dec_u64(b: Seq<u8>) -> Option<(u64, Seq<u8>)> {
    if b.len() >= 8 {
        Some((spec_u64_from_le_bytes(b.take(8)), b.skip(8)))
    } else {
        None
    }
}

/// Read a length-prefixed byte string.
pub open spec fn dec_bytes(b: Seq<u8>) -> Option<(Seq<u8>, Seq<u8>)> {
    match dec_u64(b) {
        None => None,
        Some((n, rest)) => if rest.len() >= n {
            Some((rest.take(n as int), rest.skip(n as int)))
        } else {
            None
        },
    }
}

/// Read a length-prefixed UTF-8 string.
pub open spec fn dec_str(b: Seq<u8>) -> Option<(Seq<char>, Seq<u8>)> {
    match dec_bytes(b) {
        None => None,
        Some((bytes, rest)) => if valid_utf8(bytes) {
            Some((decode_utf8(bytes), rest))
        } else {
            None
        },
    }
}

/// Read one datastore pair.
pub open spec fn dec_pair(b: Seq<u8>) -> Option<((Seq<char>, Seq<u8>), Seq<u8>)> {
    match dec_str(b) {
        None => None,
        Some((key, rest)) => match dec_bytes(rest) {
            None => None,
            Some((val, rest2)) => Some(((key, val), rest2)),
        },
    }
}

/// Read `n` datastore pairs.
pub open spec fn dec_pairs(b: Seq<u8>, n: nat) -> Option<(Seq<(Seq<char>, Seq<u8>)>, Seq<u8>)>
    decreases n,
{
    if n == 0 {
        Some((Seq::empty(), b))
    } else {
        match dec_pair(b) {
            None => None,
            Some((p, rest)) => match dec_pairs(rest, (n - 1) as nat) {
                None => None,
                Some((ps, rest2)) => Some((seq![p] + ps, rest2)),
            },
        }
    }
}

/// Read one entry.
pub open spec fn dec_entry(b: Seq<u8>) -> Option<(EntryRepr, Seq<u8>)> {
    match dec_u64(b) {
        None => None,
        Some((balance, r1)) => match dec_bytes(r1) {
            None => None,
            Some((bytecode, r2)) => match dec_u64(r2) {
                None => None,
                Some((n, r3)) => match dec_pairs(r3, n as nat) {
                    None => None,
                    Some((datastore, r4)) => Some((EntryRepr { balance, bytecode, datastore },
                        r4)),
                },
            },
        },
    }
}

/// Read one account.
pub open spec fn dec_account(b: Seq<u8>) -> Option<((Seq<char>, EntryRepr), Seq<u8>)> {
    match dec_str(b) {
        None => None,
        Some((address, rest)) => match dec_entry(rest) {
            None => None,
            Some((entry, rest2)) => Some(((address, entry), rest2)),
        },
    }
}

/// Read `n` accounts.
pub open spec fn dec_accounts(b: Seq<u8>, n: nat) -> Option<(LedgerRepr, Seq<u8>)>
    decreases n,
{
    if n == 0 {
        Some((Seq::empty(), b))
    } else {
        match dec_account(b) {
            None => None,
            Some((a, rest)) => match dec_accounts(rest, (n - 1) as nat) {
                None => None,
                Some((more, rest2)) => Some((seq![a] + more, rest2)),
            },
        }
    }
}

/// Read a whole snapshot; every byte must be consumed.
pub open spec fn dec_ledger(b: Seq<u8>) -> Option<LedgerRepr> {
    match dec_u64(b) {
        None => None,
        Some((n, rest)) => match dec_accounts(rest, n as nat) {
            None => None,
            Some((r, rest2)) => if rest2.len() == 0 {
                Some(r)
            } else {
                None
            },
        },
    }
}

/// The encoded string of `s` fits its 64-bit length prefix.
pub open spec fn str_bounded(s: Seq<char>) -> bool {
    encode_utf8(s).len() <= u64::MAX
}

/// Every length of the entry representation fits its prefix.
pub open spec fn entry_bounded(e: EntryRepr) -> bool {
    &&& e.bytecode.len() <= u64::MAX
    &&& e.datastore.len() <= u64::MAX
    &&& forall|i: int| #![trigger e.datastore[i]] 0 <= i < e.datastore.len() ==> str_bounded(
        e.datastore[i].0) && e.datastore[i].1.len() <= u64::MAX
}

/// Every length of the ledger representation fits its prefix.
pub open spec fn repr_bounded(r: LedgerRepr) -> bool {
    &&& r.len() <= u64::MAX
    &&& forall|i: int| #![trigger r[i]] 0 <= i < r.len() ==> str_bounded(r[i].0) && entry_bounded(
        r[i].1)
}

/// Reading a count undoes writing it.
pub proof fn lemma_u64_round_trip(x: u64, rest: Seq<u8>)
    ensures
        dec_u64(enc_u64(x) + rest) == Some((x, rest)),
{
    vstd::bytes::lemma_auto_spec_u64_to_from_le_bytes();
    assert((enc_u64(x) + rest).take(8) =~= enc_u64(x));
    assert((enc_u64(x) + rest).skip(8) =~= rest);
}

/// Reading a byte string undoes writing it.
pub proof fn lemma_bytes_round_trip(b: Seq<u8>, rest: Seq<u8>)
    requires
        b.len() <= u64::MAX,
    ensures
        dec_bytes(enc_bytes(b) + rest) == Some((b, rest)),
{
    vstd::bytes::lemma_auto_spec_u64_to_from_le_bytes();
    assert(enc_bytes(b) + rest =~= enc_u64(b.len() as u64) + (b + rest));
    lemma_u64_round_trip(b.len() as u64, b + rest);
    assert((b + rest).take(b.len() as int) =~= b);
    assert((b + rest).skip(b.len() as int) =~= rest);
}

/// Reading a string undoes writing it.
pub proof fn lemma_str_round_trip(s: Seq<char>, rest: Seq<u8>)
    requires
        str_bounded(s),
    ensures
        dec_str(enc_str(s) + rest) == Some((s, rest)),
{
    lemma_bytes_round_trip(encode_utf8(s), rest);
    vstd::utf8::encode_utf8_valid_utf8(s);
    vstd::utf8::encode_utf8_decode_utf8(s);
}

/// Reading a pair undoes writing it.
pub proof fn lemma_pair_round_trip(p: (Seq<char>, Seq<u8>), rest: Seq<u8>)
    requires
        str_bounded(p.0),
        p.1.len() <= u64::MAX,
    ensures
        dec_pair(enc_pair(p) + rest) == Some((p, rest)),
{
    assert(enc_pair(p) + rest =~= enc_str(p.0) + (enc_bytes(p.1) + rest));
    lemma_str_round_trip(p.0, enc_bytes(p.1) + rest);
    lemma_bytes_round_trip(p.1, rest);
}

/// Reading back `d.len()` pairs undoes writing them.
pub proof fn lemma_pairs_round_trip(d: Seq<(Seq<char>, Seq<u8>)>, rest: Seq<u8>)
    requires
        forall|i: int| #![trigger d[i]] 0 <= i < d.len() ==> str_bounded(d[i].0) && d[i].1.len()
            <= u64::MAX,
    ensures
        dec_pairs(enc_pairs(d) + rest, d.len() as nat) == Some((d, rest)),
    decreases d.len(),
{
    if d.len() == 0 {
        assert(enc_pairs(d) + rest =~= rest);
    } else {
        let tail = d.drop_first();
        assert(enc_pairs(d) + rest =~= enc_pair(d[0]) + (enc_pairs(tail) + rest));
        lemma_pair_round_trip(d[0], enc_pairs(tail) + rest);
        assert(forall|i: int| #![trigger tail[i]] 0 <= i < tail.len() ==> tail[i] == d[i + 1]);
        lemma_pairs_round_trip(tail, rest);
        assert(seq![d[0]] + tail =~= d);
    }
}

/// Reading an entry undoes writing it.
pub proof fn lemma_entry_round_trip(e: EntryRepr, rest: Seq<u8>)
    requires
        entry_bounded(e),
    ensures
        dec_entry(enc_entry(e) + rest) == Some((e, rest)),
{
    let tail1 = enc_bytes(e.bytecode) + enc_u64(e.datastore.len() as u64) + enc_pairs(e.datastore)
        + rest;
    assert(enc_entry(e) + rest =~= enc_u64(e.balance) + tail1);
    lemma_u64_round_trip(e.balance, tail1);
    let tail2 = enc_u64(e.datastore.len() as u64) + enc_pairs(e.datastore) + rest;
    assert(tail1 =~= enc_bytes(e.bytecode) + tail2);
    lemma_bytes_round_trip(e.bytecode, tail2);
    let tail3 = enc_pairs(e.datastore) + rest;
    assert(tail2 =~= enc_u64(e.datastore.len() as u64) + tail3);
    lemma_u64_round_trip(e.datastore.len() as u64, tail3);
    lemma_pairs_round_trip(e.datastore, rest);
}

/// Reading an account undoes writing it.
pub proof fn lemma_account_round_trip(a: (Seq<char>, EntryRepr), rest: Seq<u8>)
    requires
        str_bounded(a.0),
        entry_bounded(a.1),
    ensures
        dec_account(enc_account(a) + rest) == Some((a, rest)),
{
    assert(enc_account(a) + rest =~= enc_str(a.0) + (enc_entry(a.1) + rest));
    lemma_str_round_trip(a.0, enc_entry(a.1) + rest);
    lemma_entry_round_trip(a.1, rest);
}

/// Reading back `r.len()` accounts undoes writing them.
pub proof fn lemma_accounts_round_trip(r: LedgerRepr, rest: Seq<u8>)
    requires
        repr_bounded(r),
    ensures
        dec_accounts(enc_accounts(r) + rest, r.len() as nat) == Some((r, rest)),
    decreases r.len(),
{
    if r.len() == 0 {
        assert(enc_accounts(r) + rest =~= rest);
    } else {
        let tail = r.drop_first();
        assert(enc_accounts(r) + rest =~= enc_account(r[0]) + (enc_accounts(tail) + rest));
        lemma_account_round_trip(r[0], enc_accounts(tail) + rest);
        assert(forall|i: int| #![trigger tail[i]] 0 <= i < tail.len() ==> tail[i] == r[i + 1]);
        lemma_accounts_round_trip(tail, rest);
        assert(seq![r[0]] + tail =~= r);
    }
}

/// Snapshot round trip at the representation level: decoding an encoded
/// ledger representation gives it back exactly.
pub proof fn lemma_ledger_round_trip(r: LedgerRepr)
    requires
        repr_bounded(r),
    ensures
        dec_ledger(enc_ledger(r)) == Some(r),
{
    lemma_u64_round_trip(r.len() as u64, enc_accounts(r));
    assert(enc_ledger(r) =~= enc_u64(r.len() as u64) + enc_accounts(r));
    assert(enc_accounts(r) + Seq::<u8>::empty() =~= enc_accounts(r));
    lemma_accounts_round_trip(r, Seq::empty());
}

/// Writing one more pair appends its encoding.
proof fn lemma_enc_pairs_snoc(d: Seq<(Seq<char>, Seq<u8>)>, j: int)
    requires
        0 <= j < d.len(),
    ensures
        enc_pairs(d.take(j + 1)) == enc_pairs(d.take(j)) + enc_pair(d[j]),
    decreases j,
{
    if j == 0 {
        assert(d.take(1).drop_first() =~= d.take(0));
        assert(enc_pairs(d.take(1)) =~= enc_pairs(d.take(0)) + enc_pair(d[0]));
    } else {
        let t = d.drop_first();
        lemma_enc_pairs_snoc(t, j - 1);
        assert(d.take(j + 1).drop_first() =~= t.take(j));
        assert(d.take(j).drop_first() =~= t.take(j - 1));
        assert(d.take(j + 1)[0] == d[0]);
        assert(d.take(j)[0] == d[0]);
        assert(t[j - 1] == d[j]);
        assert(enc_pair(d[0]) + (enc_pairs(t.take(j - 1)) + enc_pair(d[j])) =~= enc_pair(d[0])
            + enc_pairs(t.take(j - 1)) + enc_pair(d[j]));
        assert(enc_pairs(d.take(j + 1)) =~= enc_pairs(d.take(j)) + enc_pair(d[j]));
    }
}

/// Writing one more account appends its encoding.
proof fn lemma_enc_accounts_snoc(r: LedgerRepr, j: int)
    requires
        0 <= j < r.len(),
    ensures
        enc_accounts(r.take(j + 1)) == enc_accounts(r.take(j)) + enc_account(r[j]),
    decreases j,
{
    if j == 0 {
        assert(r.take(1).drop_first() =~= r.take(0));
        assert(enc_accounts(r.take(1)) =~= enc_accounts(r.take(0)) + enc_account(r[0]));
    } else {
        let t = r.drop_first();
        lemma_enc_accounts_snoc(t, j - 1);
        assert(r.take(j + 1).drop_first() =~= t.take(j));
        assert(r.take(j).drop_first() =~= t.take(j - 1));
        assert(r.take(j + 1)[0] == r[0]);
        assert(r.take(j)[0] == r[0]);
        assert(t[j - 1] == r[j]);
        assert(enc_account(r[0]) + (enc_accounts(t.take(j - 1)) + enc_account(r[j])) =~=
            enc_account(r[0]) + enc_accounts(t.take(j - 1)) + enc_account(r[j]));
        assert(enc_accounts(r.take(j + 1)) =~= enc_accounts(r.take(j)) + enc_account(r[j]));
    }
}

/// Appending a pair inserts it into the denoted map.
proof fn lemma_pairs_map_push(d: Seq<(Seq<char>, Seq<u8>)>, p: (Seq<char>, Seq<u8>))
    ensures
        pairs_map(d.push(p)) == pairs_map(d).insert(p.0, p.1),
{
    assert(d.push(p).drop_last() =~= d);
    assert(d.push(p).last() == p);
}

/// Appending an account inserts it into the denoted map.
proof fn lemma_map_of_repr_push(r: LedgerRepr, a: (Seq<char>, EntryRepr))
    ensures
        map_of_repr(r.push(a)) == map_of_repr(r).insert(a.0, entry_v_of(a.1)),
{
    assert(r.push(a).drop_last() =~= r);
    assert(r.push(a).last() == a);
}

/// Append the count `x` to `out`.
fn put_u64(out: &mut Vec<u8>, x: u64)
    ensures
        final(out)@ == old(out)@ + enc_u64(x),
{
    let mut b = vstd::bytes::u64_to_le_bytes(x);
    out.append(&mut b);
}

/// Append the length-prefixed bytes of `b` to `out`, observing that the
/// length fits its prefix.
fn put_slice(out: &mut Vec<u8>, b: &[u8])
    ensures
        final(out)@ == old(out)@ + enc_bytes(b@),
        b@.len() <= u64::MAX,
{
    let n = b.len();
    put_u64(out, n as u64);
    let mut c = crate::abi::slice_to_vec(b);
    out.append(&mut c);
}

/// Append the length-prefixed UTF-8 of `s` to `out`, observing that the
/// encoded length fits its prefix.
fn put_str(out: &mut Vec<u8>, s: &String)
    ensures
        final(out)@ == old(out)@ + enc_str(s@),
        str_bounded(s@),
{
    let bytes = s.as_str().as_bytes();
    proof {
        assert(bytes@ == encode_utf8(s@));
    }
    put_slice(out, bytes);
}

/// Encode the whole ledger as a snapshot byte string.  The byte string is
/// exactly [`enc_ledger`] of the ledger's representation, and every length in
/// that representation is observed to fit its 64-bit prefix.
pub fn encode_snapshot(l: &Ledger) -> (r: Vec<u8>)
    ensures
        r@ == enc_ledger(repr_of_ledger(*l)),
        repr_bounded(repr_of_ledger(*l)),
{
    let ghost repr = repr_of_ledger(*l);
    let mut out: Vec<u8> = Vec::new();
    let n = l.accounts.len();
    put_u64(&mut out, n as u64);
    let mut i: usize = 0;
    while i < n
        invariant
            n == l.accounts@.len(),
            repr == repr_of_ledger(*l),
            repr.len() == n,
            0 <= i <= n,
            out@ =~= enc_u64(n as u64) + enc_accounts(repr.take(i as int)),
            forall|k: int| #![trigger repr[k]] 0 <= k < i ==> str_bounded(repr[k].0)
                && entry_bounded(repr[k].1),
        decreases n - i,
    {
        proof {
            lemma_enc_accounts_snoc(repr, i as int);
        }
        let account = &l.accounts[i];
        let ghost erepr = repr_of_entry(account.val);
        let ghost out_account = out@;
        put_str(&mut out, &account.key);
        put_u64(&mut out, account.val.balance);
        put_slice(&mut out, account.val.bytecode.as_slice());
        let m = account.val.datastore.len();
        put_u64(&mut out, m as u64);
        let ghost out_pairs = out@;
        let mut q: usize = 0;
        while q < m
            invariant
                m == account.val.datastore@.len(),
                erepr == repr_of_entry(account.val),
                erepr.datastore.len() == m,
                0 <= q <= m,
                out@ =~= out_pairs + enc_pairs(erepr.datastore.take(q as int)),
                forall|k: int| #![trigger erepr.datastore[k]] 0 <= k < q ==> str_bounded(
                    erepr.datastore[k].0) && erepr.datastore[k].1.len() <= u64::MAX,
            decreases m - q,
        {
            proof {
                lemma_enc_pairs_snoc(erepr.datastore, q as int);
                assert(erepr.datastore[q as int] == (account.val.datastore@[q as int].key@,
                    account.val.datastore@[q as int].val@));
            }
            let pair = &account.val.datastore[q];
            put_str(&mut out, &pair.key);
            put_slice(&mut out, pair.val.as_slice());
            proof {
                assert(out@ =~= out_pairs + enc_pairs(erepr.datastore.take(q as int + 1)));
            }
            q = q + 1;
        }
        proof {
            assert(erepr.datastore.take(m as int) =~= erepr.datastore);
            assert(repr[i as int] == (account.key@, erepr));
            assert(enc_entry(erepr) =~= enc_u64(erepr.balance) + enc_bytes(erepr.bytecode)
                + enc_u64(erepr.datastore.len() as u64) + enc_pairs(erepr.datastore));
            assert(out@ =~= out_account + enc_account(repr[i as int]));
            assert(out@ =~= enc_u64(n as u64) + enc_accounts(repr.take(i as int + 1)));
        }
        i = i + 1;
    }
    proof {
        assert(repr.take(n as int) =~= repr);
        assert(out@ =~= enc_ledger(repr));
    }
    out
}

/// Read a count at `pos`.
fn get_u64(b: &[u8], pos: usize) -> (r: Option<(u64, usize)>)
    requires
        pos <= b@.len(),
    ensures
        match r {
            Some(t) => pos + 8 == t.1 && t.1 <= b@.len() && dec_u64(b@.skip(pos as int)) == Some(
                (t.0, b@.skip(t.1 as int))),
            None => dec_u64(b@.skip(pos as int)) is None,
        },
{
    if b.len() - pos >= 8 {
        let sub = vstd::slice::slice_subrange(b, pos, pos + 8);
        let x = vstd::bytes::u64_from_le_bytes(sub);
        proof {
            assert(b@.skip(pos as int).take(8) =~= b@.subrange(pos as int, pos as int + 8));
            assert(b@.skip(pos as int).skip(8) =~= b@.skip(pos as int + 8));
        }
        Some((x, pos + 8))
    } else {
        None
    }
}

/// Read a length-prefixed byte string at `pos`.
fn get_bytes(b: &[u8], pos: usize) -> (r: Option<(Vec<u8>, usize)>)
    requires
        pos <= b@.len(),
    ensures
        match r {
            Some(t) => pos <= t.1 <= b@.len() && dec_bytes(b@.skip(pos as int)) == Some((t.0@,
                b@.skip(t.1 as int))),
            None => dec_bytes(b@.skip(pos as int)) is None,
        },
{
    match get_u64(b, pos) {
        None => None,
        Some((n, p1)) => {
            let remaining = b.len() - p1;
            if n <= remaining as u64 {
                let nn = n as usize;
                let v = crate::abi::slice_to_vec(vstd::slice::slice_subrange(b, p1, p1 + nn));
                proof {
                    assert(b@.skip(p1 as int).take(n as int) =~= b@.subrange(p1 as int, p1 as int
                        + n));
                    assert(b@.skip(p1 as int).skip(n as int) =~= b@.skip(p1 as int + n));
                }
                Some((v, p1 + nn))
            } else {
                None
            }
        },
    }
}

/// Read a length-prefixed UTF-8 string at `pos`.
fn get_string(b: &[u8], pos: usize) -> (r: Option<(String, usize)>)
    requires
        pos <= b@.len(),
    ensures
        match r {
            Some(t) => pos <= t.1 <= b@.len() && dec_str(b@.skip(pos as int)) == Some((t.0@,
                b@.skip(t.1 as int))),
            None => dec_str(b@.skip(pos as int)) is None,
        },
{
    match get_bytes(b, pos) {
        None => None,
        Some((bytes, p1)) => match crate::trusted::bytes_to_string(bytes.as_slice()) {
            Some(s) => Some((s, p1)),
            None => None,
        },
    }
}

/// Read one entry at `pos`, rebuilding it with validated insertions.
#[verifier::loop_isolation(false)]
fn get_entry_at(b: &[u8], pos: usize) -> (r: Option<(Entry, usize)>)
    requires
        pos <= b@.len(),
    ensures
        match r {
            Some(t) => pos <= t.1 <= b@.len() && t.0.wf() && match dec_entry(b@.skip(pos as int)) {
                Some(d) => t.0@ == entry_v_of(d.0) && d.1 == b@.skip(t.1 as int),
                None => false,
            },
            None => dec_entry(b@.skip(pos as int)) is None,
        },
{
    let (balance, p1) = match get_u64(b, pos) {
        Some(t) => t,
        None => {
            return None;
        },
    };
    let (bytecode, p2) = match get_bytes(b, p1) {
        Some(t) => t,
        None => {
            return None;
        },
    };
    let (count, p3) = match get_u64(b, p2) {
        Some(t) => t,
        None => {
            return None;
        },
    };
    let mut entry = Entry::new_default();
    entry.balance = balance;
    entry.bytecode = bytecode;
    let ghost start_rest = b@.skip(p3 as int);
    let mut built: Ghost<Seq<(Seq<char>, Seq<u8>)>> = Ghost(Seq::empty());
    let mut pos_cur = p3;
    let mut rem = count;
    while rem > 0
        invariant
            p3 <= pos_cur <= b@.len(),
            entry.wf(),
            entry@.balance == balance,
            entry@.bytecode == bytecode@,
            entry@.datastore == pairs_map(built@),
            rem <= count,
            dec_pairs(start_rest, count as nat) == (match dec_pairs(b@.skip(pos_cur as int),
                rem as nat) {
                None => None::<(Seq<(Seq<char>, Seq<u8>)>, Seq<u8>)>,
                Some(t) => Some((built@ + t.0, t.1)),
            }),
        decreases rem,
    {
        let (key, q1) = match get_string(b, pos_cur) {
            Some(t) => t,
            None => {
                return None;
            },
        };
        let (val, q2) = match get_bytes(b, q1) {
            Some(t) => t,
            None => {
                return None;
            },
        };
        proof {
            let cur = b@.skip(pos_cur as int);
            assert(dec_pair(cur) == Some(((key@, val@), b@.skip(q2 as int))));
            let next = b@.skip(q2 as int);
            assert(dec_pairs(cur, rem as nat) == (match dec_pairs(next, (rem - 1) as nat) {
                None => None::<(Seq<(Seq<char>, Seq<u8>)>, Seq<u8>)>,
                Some(t) => Some((seq![(key@, val@)] + t.0, t.1)),
            }));
            if dec_pairs(next, (rem - 1) as nat) is Some {
                let t = dec_pairs(next, (rem - 1) as nat).unwrap();
                assert(built@ + (seq![(key@, val@)] + t.0) =~= built@.push((key@, val@)) + t.0);
            }
            lemma_pairs_map_push(built@, (key@, val@));
        }
        entry.insert_data(key, val);
        proof {
            built@ = built@.push((key@, val@));
        }
        pos_cur = q2;
        rem = rem - 1;
    }
    proof {
        assert(dec_pairs(b@.skip(pos_cur as int), 0) == Some((Seq::<(Seq<char>, Seq<u8>)>::empty(),
            b@.skip(pos_cur as int))));
        assert(built@ + Seq::<(Seq<char>, Seq<u8>)>::empty() =~= built@);
        assert(dec_pairs(start_rest, count as nat) == Some((built@, b@.skip(pos_cur as int))));
        let d = dec_entry(b@.skip(pos as int)).unwrap();
        assert(d.0 == (EntryRepr { balance, bytecode: bytecode@, datastore: built@ }));
        assert(entry@ =~= entry_v_of(d.0));
    }
    Some((entry, pos_cur))
}

/// Decode a snapshot byte string back into a ledger.  Succeeds exactly when
/// the bytes parse as a whole snapshot; the result is well formed and
/// denotes the decoded representation's map.
#[verifier::loop_isolation(false)]
pub fn decode_snapshot(b: &[u8]) -> (r: Option<Ledger>)
    ensures
        match r {
            Some(l) => l.wf() && match dec_ledger(b@) {
                Some(repr) => l@ == map_of_repr(repr),
                None => false,
            },
            None => dec_ledger(b@) is None,
        },
{
    proof {
        assert(b@.skip(0) =~= b@);
    }
    let (count, p0) = match get_u64(b, 0) {
        Some(t) => t,
        None => {
            return None;
        },
    };
    let ghost start_rest = b@.skip(p0 as int);
    let mut ledger = Ledger::new();
    let mut built: Ghost<LedgerRepr> = Ghost(Seq::empty());
    let mut pos_cur = p0;
    let mut rem = count;
    while rem > 0
        invariant
            pos_cur <= b@.len(),
            ledger.wf(),
            ledger@ == map_of_repr(built@),
            rem <= count,
            dec_accounts(start_rest, count as nat) == (match dec_accounts(b@.skip(pos_cur as int),
                rem as nat) {
                None => None::<(LedgerRepr, Seq<u8>)>,
                Some(t) => Some((built@ + t.0, t.1)),
            }),
        decreases rem,
    {
        let (address, q1) = match get_string(b, pos_cur) {
            Some(t) => t,
            None => {
                return None;
            },
        };
        let (entry, q2) = match get_entry_at(b, q1) {
            Some(t) => t,
            None => {
                return None;
            },
        };
        proof {
            let cur = b@.skip(pos_cur as int);
            let d = dec_entry(b@.skip(q1 as int)).unwrap();
            assert(dec_account(cur) == Some(((address@, d.0), b@.skip(q2 as int))));
            let next = b@.skip(q2 as int);
            assert(dec_accounts(cur, rem as nat) == (match dec_accounts(next, (rem - 1) as nat) {
                None => None::<(LedgerRepr, Seq<u8>)>,
                Some(t) => Some((seq![(address@, d.0)] + t.0, t.1)),
            }));
            if dec_accounts(next, (rem - 1) as nat) is Some {
                let t = dec_accounts(next, (rem - 1) as nat).unwrap();
                assert(built@ + (seq![(address@, d.0)] + t.0) =~= built@.push((address@, d.0))
                    + t.0);
            }
            lemma_map_of_repr_push(built@, (address@, d.0));
        }
        let ghost addr_v = address@;
        let ghost erepr = dec_entry(b@.skip(q1 as int)).unwrap().0;
        ledger.set_entry(address, entry);
        proof {
            built@ = built@.push((addr_v, erepr));
        }
        pos_cur = q2;
        rem = rem - 1;
    }
    if pos_cur == b.len() {
        proof {
            assert(dec_accounts(b@.skip(pos_cur as int), 0) == Some((Seq::<(Seq<char>,
                EntryRepr)>::empty(), b@.skip(pos_cur as int))));
            assert(built@ + Seq::<(Seq<char>, EntryRepr)>::empty() =~= built@);
            assert(b@.skip(pos_cur as int).len() == 0);
            assert(dec_ledger(b@) == Some(built@));
        }
        Some(ledger)
    } else {
        None
    }
}

/// Snapshot round trip: a well-formed ledger, written and read back, denotes
/// a map equal, per entry and per field, to the original.
pub proof fn lemma_snapshot_round_trip(l: Ledger)
    requires
        l.wf(),
        repr_bounded(repr_of_ledger(l)),
    ensures
        dec_ledger(enc_ledger(repr_of_ledger(l))) == Some(repr_of_ledger(l)),
        map_of_repr(repr_of_ledger(l)) == l@,
{
    lemma_ledger_round_trip(repr_of_ledger(l));
    lemma_repr_denotes_view(l);
}

} // verus!
