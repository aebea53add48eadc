use vstd::prelude::*;

verus! {

/// Selector of the pool accessor `getReserves()`: the first four bytes of the
/// Keccak-256 digest of its signature.
pub const GET_RESERVES_SELECTOR: [u8; 4] = [0x09, 0x02, 0xf1, 0xac];

/// Length of one word of an encoded return value.
pub const WORD_LEN: usize = 32;

/// Length of the encoded return value of the accessor: three words.
pub const RESPONSE_LEN: usize = 96;

/// Leading bytes of a word that must be zero for a value of at most 112 bits.
pub const RESERVE_PAD: usize = 18;

/// Leading bytes of a word that must be zero for a value of at most 32 bits.
pub const TIMESTAMP_PAD: usize = 28;

/// The reserves a pool reported at one observation.
#[derive(Clone, Copy, Debug, PartialEq, Eq)]
pub struct PoolReserves {
    pub reserve0: u128,
    pub reserve1: u128,
    pub observed_at: u32,
}

/// Why a pool's reserves could not be had.
#[derive(Clone, Copy, Debug, PartialEq, Eq)]
pub enum FetchError {
    /// The node could not be reached or answered with an error.
    Rpc,
    /// The node did not answer in time.
    Timeout,
    /// The answer is not three words of the expected widths.
    Decode,
}

/// The unsigned big-endian value of a byte string.
pub open spec fn be_value(s: Seq<u8>) -> nat
    decreases s.len(),
{
    if s.len() == 0 {
        0
    } else {
        be_value(s.drop_last()) * 256 + s.last() as nat
    }
}

/// Two hundred fifty-six to the power `n`.
pub open spec fn pow256(n: nat) -> nat
    decreases n,
{
    if n == 0 {
        1
    } else {
        256 * pow256((n - 1) as nat)
    }
}

/// The first `pad` bytes of word `k` of `data` are zero.
pub open spec fn word_padded(data: Seq<u8>, k: int, pad: int) -> bool {
    forall|j: int| WORD_LEN * k <= j < WORD_LEN * k + pad ==> data[j] == 0
}

/// The value held in the bytes of word `k` that follow its first `pad` bytes.
pub open spec fn word_tail(data: Seq<u8>, k: int, pad: int) -> nat {
    be_value(data.subrange(WORD_LEN * k + pad, WORD_LEN * (k + 1)))
}

/// `data` is a well-formed answer of the accessor: three words, the first two
/// of at most 112 bits, the third of at most 32 bits.
pub open spec fn response_valid(data: Seq<u8>) -> bool {
    &&& data.len() == RESPONSE_LEN
    &&& word_padded(data, 0, RESERVE_PAD as int)
    &&& word_padded(data, 1, RESERVE_PAD as int)
    &&& word_padded(data, 2, TIMESTAMP_PAD as int)
}

proof fn lemma_be_bound(s: Seq<u8>)
    ensures
        be_value(s) < pow256(s.len()),
    decreases s.len(),
{
    if s.len() > 0 {
        let t = s.drop_last();
        lemma_be_bound(t);
        let v = be_value(t);
        let p = pow256(t.len());
        let b = s.last() as nat;
        assert(v * 256 + b < 256 * p) by (nonlinear_arith)
            requires
                v < p,
                b < 256,
        ;
    }
}

proof fn lemma_pow256_16()
    ensures
        pow256(16) == 0x1_0000_0000_0000_0000_0000_0000_0000_0000,
{
    reveal_with_fuel(pow256, 17);
}

/// Reads the value of the bytes `data[start..end]`, which must be at most
/// sixteen.
fn read_be(data: &[u8], start: usize, end: usize) -> (r: u128)
    requires
        start <= end <= data@.len(),
        end - start <= 16,
    ensures
        r as nat == be_value(data@.subrange(start as int, end as int)),
{
    let mut acc: u128 = 0;
    let mut i: usize = start;
    while i < end
        invariant
            start <= i <= end <= data@.len(),
            end - start <= 16,
            acc as nat == be_value(data@.subrange(start as int, i as int)),
        decreases end - i,
    {
        let ghost prev = data@.subrange(start as int, i as int);
        let ghost next = data@.subrange(start as int, i + 1);
        proof {
            assert(next.drop_last() =~= prev);
            lemma_be_bound(prev);
            lemma_pow256_16();
            lemma_pow256_monotone(prev.len(), 15);
            let p = pow256(prev.len());
            let q = pow256(15);
            assert(acc * 256 + 255 <= 0xffff_ffff_ffff_ffff_ffff_ffff_ffff_ffff) by (nonlinear_arith)
                requires
                    acc < p,
                    p <= q,
                    256 * q == 0x1_0000_0000_0000_0000_0000_0000_0000_0000,
            ;
        }
        acc = acc * 256 + data[i] as u128;
        i = i + 1;
    }
    acc
}

proof fn lemma_pow256_monotone(a: nat, b: nat)
    requires
        a <= b,
    ensures
        pow256(a) <= pow256(b),
    decreases b,
{
    if a < b {
        lemma_pow256_monotone(a, (b - 1) as nat);
    }
}

/// Whether the bytes `data[start..end]` are all zero.
fn all_zero(data: &[u8], start: usize, end: usize) -> (r: bool)
    requires
        start <= end <= data@.len(),
    ensures
        r == (forall|j: int| start <= j < end ==> data@[j] == 0),
{
    let mut i: usize = start;
    while i < end
        invariant
            start <= i <= end <= data@.len(),
            forall|j: int| start <= j < i ==> data@[j] == 0,
        decreases end - i,
    {
        if data[i] != 0 {
            return false;
        }
        i = i + 1;
    }
    true
}

/// Decodes the answer of a pool's `getReserves()` accessor: reserve of slot
/// zero, reserve of slot one, and the time of the last update, each in a
/// 32-byte big-endian word. Any other shape is refused.
pub fn decode_reserves(data: &[u8]) -> (r: Result<PoolReserves, FetchError>)
    ensures
        r is Err <==> !response_valid(data@),
        r is Err ==> r == Err::<PoolReserves, FetchError>(FetchError::Decode),
        r matches Ok(p) ==> {
            &&& p.reserve0 as nat == word_tail(data@, 0, RESERVE_PAD as int)
            &&& p.reserve1 as nat == word_tail(data@, 1, RESERVE_PAD as int)
            &&& p.observed_at as nat == word_tail(data@, 2, TIMESTAMP_PAD as int)
        },
{
    if data.len() != RESPONSE_LEN {
        return Err(FetchError::Decode);
    }
    if !all_zero(data, 0, RESERVE_PAD) || !all_zero(data, WORD_LEN, WORD_LEN + RESERVE_PAD)
        || !all_zero(data, 2 * WORD_LEN, 2 * WORD_LEN + TIMESTAMP_PAD) {
        return Err(FetchError::Decode);
    }
    let reserve0 = read_be(data, RESERVE_PAD, WORD_LEN);
    let reserve1 = read_be(data, WORD_LEN + RESERVE_PAD, 2 * WORD_LEN);
    let stamp = read_be(data, 2 * WORD_LEN + TIMESTAMP_PAD, RESPONSE_LEN);
    proof {
        let s = data@.subrange((2 * WORD_LEN + TIMESTAMP_PAD) as int, RESPONSE_LEN as int);
        lemma_be_bound(s);
        reveal_with_fuel(pow256, 5);
    }
    Ok(PoolReserves { reserve0, reserve1, observed_at: stamp as u32 })
}

} // verus!
