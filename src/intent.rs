//! The byte layout in which intents are stored: the account's principal
//! bytes, then the expiry, the number of pools and each pool id, every
//! integer as eight little-endian bytes.
use vstd::prelude::*;

verus! {

/// The length of a self-authenticating principal, which decoding reads as the account.
pub const ACCOUNT_LEN: usize = 29;

/// Where the pool ids start: account, expiry and pool count.
pub const HEADER_LEN: usize = 45;

/// An account's wish to have pools managed until `expire`.
#[derive(Clone, Debug)]
pub struct Intent {
    /// The bytes of the account's principal.
    pub account: Vec<u8>,
    pub expire: u64,
    pub pool_ids: Vec<u64>,
}

/// The eight little-endian bytes of `x`.
pub open spec fn le_bytes(x: u64) -> Seq<u8> {
    seq![
        x as u8,
        (x >> 8u64) as u8,
        (x >> 16u64) as u8,
        (x >> 24u64) as u8,
        (x >> 32u64) as u8,
        (x >> 40u64) as u8,
        (x >> 48u64) as u8,
        (x >> 56u64) as u8,
    ]
}

/// The integer that eight little-endian bytes write.
pub open spec fn le_value(b: Seq<u8>) -> u64 {
    (b[0] as u64) | ((b[1] as u64) << 8u64) | ((b[2] as u64) << 16u64) | ((b[3] as u64) << 24u64)
        | ((b[4] as u64) << 32u64) | ((b[5] as u64) << 40u64) | ((b[6] as u64) << 48u64) | ((
    b[7] as u64) << 56u64)
}

/// The pool ids laid end to end.
pub open spec fn ids_bytes(ids: Seq<u64>) -> Seq<u8>
    decreases ids.len(),
{
    if ids.len() == 0 {
        seq![]
    } else {
        ids_bytes(ids.drop_last()) + le_bytes(ids.last())
    }
}

/// The stored form of an intent.
pub open spec fn intent_bytes(account: Seq<u8>, expire: u64, ids: Seq<u64>) -> Seq<u8> {
    account + le_bytes(expire) + le_bytes(ids.len() as u64) + ids_bytes(ids)
}

/// The number of pools that a stored intent declares.
pub open spec fn declared_count(b: Seq<u8>) -> u64 {
    le_value(b.subrange(37, 45))
}

/// A byte string is long enough to hold the header and every pool id it declares.
pub open spec fn decodable(b: Seq<u8>) -> bool {
    b.len() >= HEADER_LEN && (b.len() - HEADER_LEN) / 8 >= declared_count(b)
}

/// The pool id at position `j` of a stored intent.
pub open spec fn stored_id(b: Seq<u8>, j: int) -> u64 {
    le_value(b.subrange(HEADER_LEN + 8 * j, HEADER_LEN + 8 * j + 8))
}

proof fn lemma_le_round_trip(x: u64)
    ensures
        le_value(le_bytes(x)) == x,
{
    let b = le_bytes(x);
    assert(x == ((x as u8) as u64) | ((((x >> 8u64) as u8) as u64) << 8u64) | ((((x >> 16u64) as u8)
        as u64) << 16u64) | ((((x >> 24u64) as u8) as u64) << 24u64) | ((((x >> 32u64) as u8)
        as u64) << 32u64) | ((((x >> 40u64) as u8) as u64) << 40u64) | ((((x >> 48u64) as u8)
        as u64) << 48u64) | ((((x >> 56u64) as u8) as u64) << 56u64)) by (bit_vector);
}

proof fn lemma_ids_bytes(ids: Seq<u64>)
    ensures
        ids_bytes(ids).len() == 8 * ids.len(),
        forall|j: int|
            0 <= j < ids.len() ==> #[trigger] ids_bytes(ids).subrange(8 * j, 8 * j + 8)
                == le_bytes(ids[j]),
    decreases ids.len(),
{
    if ids.len() > 0 {
        let init = ids.drop_last();
        lemma_ids_bytes(init);
        let all = ids_bytes(ids);
        assert forall|j: int| 0 <= j < ids.len() implies #[trigger] all.subrange(8 * j, 8 * j + 8)
            == le_bytes(ids[j]) by {
            if j < init.len() {
                assert(all.subrange(8 * j, 8 * j + 8) =~= ids_bytes(init).subrange(8 * j, 8 * j + 8));
            } else {
                assert(all.subrange(8 * j, 8 * j + 8) =~= le_bytes(ids.last()));
            }
        }
    }
}

/// Encodes an intent in its stored form.
pub fn encode_intent(intent: &Intent) -> (r: Vec<u8>)
    requires
        intent.account@.len() + HEADER_LEN + 8 * intent.pool_ids@.len() <= usize::MAX,
    ensures
        r@ == intent_bytes(intent.account@, intent.expire, intent.pool_ids@),
{
    let mut out: Vec<u8> = Vec::new();
    let mut k: usize = 0;
    while k < intent.account.len()
        invariant
            k <= intent.account@.len(),
            out@ == intent.account@.subrange(0, k as int),
        decreases intent.account@.len() - k,
    {
        out.push(intent.account[k]);
        k = k + 1;
        assert(out@ =~= intent.account@.subrange(0, k as int));
    }
    assert(intent.account@.subrange(0, k as int) =~= intent.account@);
    push_le_bytes(&mut out, intent.expire);
    push_le_bytes(&mut out, intent.pool_ids.len() as u64);
    let head = Ghost(out@);
    let mut i: usize = 0;
    while i < intent.pool_ids.len()
        invariant
            i <= intent.pool_ids@.len(),
            out@ == head@ + ids_bytes(intent.pool_ids@.subrange(0, i as int)),
        decreases intent.pool_ids@.len() - i,
    {
        let ghost before = out@;
        push_le_bytes(&mut out, intent.pool_ids[i]);
        assert(intent.pool_ids@.subrange(0, i + 1).drop_last() =~= intent.pool_ids@.subrange(
            0,
            i as int,
        ));
        i = i + 1;
        assert(out@ =~= head@ + ids_bytes(intent.pool_ids@.subrange(0, i as int)));
    }
    assert(intent.pool_ids@.subrange(0, i as int) =~= intent.pool_ids@);
    assert(out@ =~= intent_bytes(intent.account@, intent.expire, intent.pool_ids@));
    out
}

fn push_le_bytes(out: &mut Vec<u8>, x: u64)
    ensures
        final(out)@ == old(out)@ + le_bytes(x),
{
    out.push(x as u8);
    out.push((x >> 8u64) as u8);
    out.push((x >> 16u64) as u8);
    out.push((x >> 24u64) as u8);
    out.push((x >> 32u64) as u8);
    out.push((x >> 40u64) as u8);
    out.push((x >> 48u64) as u8);
    out.push((x >> 56u64) as u8);
    assert(final(out)@ =~= old(out)@ + le_bytes(x));
}

fn read_le(b: &[u8], at: usize) -> (r: u64)
    requires
        at + 8 <= b@.len(),
    ensures
        r == le_value(b@.subrange(at as int, at + 8)),
{
    let s = Ghost(b@.subrange(at as int, at + 8));
    assert(s@[0] == b@[at as int] && s@[1] == b@[at + 1] && s@[2] == b@[at + 2] && s@[3] == b@[at + 3]
        && s@[4] == b@[at + 4] && s@[5] == b@[at + 5] && s@[6] == b@[at + 6] && s@[7] == b@[at + 7]);
    (b[at] as u64) | ((b[at + 1] as u64) << 8u64) | ((b[at + 2] as u64) << 16u64) | ((b[at + 3] as u64)
        << 24u64) | ((b[at + 4] as u64) << 32u64) | ((b[at + 5] as u64) << 40u64) | ((b[at + 6]
        as u64) << 48u64) | ((b[at + 7] as u64) << 56u64)
}

/// Decodes a stored intent. The account is the first 29 bytes; bytes after
/// the last declared pool id are ignored. `None` where the bytes are too short.
pub fn decode_intent(b: &[u8]) -> (r: Option<Intent>)
    ensures
        r.is_some() <==> decodable(b@),
        r.is_some() ==> {
            let i = r.unwrap();
            &&& i.account@ == b@.subrange(0, ACCOUNT_LEN as int)
            &&& i.expire == le_value(b@.subrange(29, 37))
            &&& i.pool_ids@.len() == declared_count(b@)
            &&& forall|j: int| 0 <= j < i.pool_ids@.len() ==> #[trigger] i.pool_ids@[j] == stored_id(b@, j)
        },
{
    if b.len() < HEADER_LEN {
        return None;
    }
    let count = read_le(b, 37);
    if (((b.len() - HEADER_LEN) / 8) as u64) < count {
        return None;
    }
    let mut account: Vec<u8> = Vec::new();
    let mut k: usize = 0;
    while k < ACCOUNT_LEN
        invariant
            k <= ACCOUNT_LEN,
            b@.len() >= HEADER_LEN,
            account@ == b@.subrange(0, k as int),
        decreases ACCOUNT_LEN - k,
    {
        account.push(b[k]);
        k = k + 1;
        assert(account@ =~= b@.subrange(0, k as int));
    }
    let expire = read_le(b, 29);
    let len = b.len();
    let n: usize = count as usize;
    assert(8 * n <= b@.len() - HEADER_LEN) by (nonlinear_arith)
        requires n <= (b@.len() - HEADER_LEN) / 8, b@.len() >= HEADER_LEN;
    let mut pool_ids: Vec<u64> = Vec::new();
    let mut i: usize = 0;
    while i < n
        invariant
            i <= n,
            n == declared_count(b@),
            HEADER_LEN + 8 * n <= len,
            len == b@.len(),
            pool_ids@.len() == i,
            forall|j: int| 0 <= j < i ==> #[trigger] pool_ids@[j] == stored_id(b@, j),
        decreases n - i,
    {
        assert(8 * i < 8 * n) by (nonlinear_arith)
            requires i < n;
        let at = HEADER_LEN + 8 * i;
        let id = read_le(b, at);
        pool_ids.push(id);
        assert(pool_ids@[i as int] == stored_id(b@, i as int));
        i = i + 1;
    }
    Some(Intent { account, expire, pool_ids })
}

/// Encoding an intent whose account is a full 29-byte principal and decoding
/// the bytes gives the intent back.
pub proof fn lemma_intent_round_trip(account: Seq<u8>, expire: u64, ids: Seq<u64>)
    requires
        account.len() == ACCOUNT_LEN,
        ids.len() <= u64::MAX,
    ensures
        decodable(intent_bytes(account, expire, ids)),
        intent_bytes(account, expire, ids).subrange(0, ACCOUNT_LEN as int) == account,
        le_value(intent_bytes(account, expire, ids).subrange(29, 37)) == expire,
        declared_count(intent_bytes(account, expire, ids)) == ids.len(),
        forall|j: int| 0 <= j < ids.len() ==> #[trigger] stored_id(intent_bytes(account, expire, ids), j) == ids[j],
{
    let b = intent_bytes(account, expire, ids);
    lemma_ids_bytes(ids);
    lemma_le_round_trip(expire);
    lemma_le_round_trip(ids.len() as u64);
    assert(b.subrange(0, 29) =~= account);
    assert(b.subrange(29, 37) =~= le_bytes(expire));
    assert(b.subrange(37, 45) =~= le_bytes(ids.len() as u64));
    assert forall|j: int| 0 <= j < ids.len() implies #[trigger] stored_id(b, j) == ids[j] by {
        assert(b.subrange(HEADER_LEN + 8 * j, HEADER_LEN + 8 * j + 8) =~= ids_bytes(ids).subrange(8 * j, 8 * j + 8));
        lemma_le_round_trip(ids[j]);
    }
}

} // verus!
