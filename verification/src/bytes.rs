//! Byte-level primitives: fixed-width little-endian and big-endian
//! integers, in-place copies, and the order of byte strings.

use vstd::prelude::*;

verus! {

/// `n` zero bytes.
pub open spec fn zeros(n: int) -> Seq<u8> {
    Seq::new(n as nat, |i: int| 0u8)
}

/// `s` with the bytes from `at` on replaced by `piece`.
pub open spec fn splice(s: Seq<u8>, at: int, piece: Seq<u8>) -> Seq<u8> {
    s.subrange(0, at) + piece + s.subrange(at + piece.len(), s.len() as int)
}

/// 256 to the power `n`.
pub open spec fn pow256(n: nat) -> nat
    decreases n,
{
    if n == 0 {
        1
    } else {
        256 * pow256((n - 1) as nat)
    }
}

/// The number that `s` holds, least significant byte first.
pub open spec fn le_value(s: Seq<u8>) -> nat
    decreases s.len(),
{
    if s.len() == 0 {
        0
    } else {
        s[0] as nat + 256 * le_value(s.drop_first())
    }
}

/// The `n` low bytes of `v`, least significant first.
pub open spec fn le_bytes(v: nat, n: nat) -> Seq<u8>
    decreases n,
{
    if n == 0 {
        Seq::empty()
    } else {
        seq![(v % 256) as u8] + le_bytes(v / 256, (n - 1) as nat)
    }
}

/// The number that `s` holds, most significant byte first.
pub open spec fn be_value(s: Seq<u8>) -> nat
    decreases s.len(),
{
    if s.len() == 0 {
        0
    } else {
        256 * be_value(s.drop_last()) + s.last() as nat
    }
}

/// The `n` low bytes of `v`, most significant first.
pub open spec fn be_bytes(v: nat, n: nat) -> Seq<u8>
    decreases n,
{
    if n == 0 {
        Seq::empty()
    } else {
        be_bytes(v / 256, (n - 1) as nat).push((v % 256) as u8)
    }
}

/// `a` and `b` agree on their first `k` bytes, and there `a` either ends
/// while `b` goes on, or holds the smaller byte.
pub open spec fn ordered_at(a: Seq<u8>, b: Seq<u8>, k: int) -> bool {
    &&& 0 <= k <= a.len()
    &&& k < b.len()
    &&& a.subrange(0, k) == b.subrange(0, k)
    &&& (k == a.len() || a[k] < b[k])
}

/// `a` comes before `b` when both are compared byte by byte from the front.
pub open spec fn lex_lt(a: Seq<u8>, b: Seq<u8>) -> bool {
    exists|k: int| ordered_at(a, b, k)
}

pub proof fn lemma_pow256_values()
    ensures
        pow256(0) == 1,
        pow256(1) == 0x100,
        pow256(2) == 0x1_0000,
        pow256(3) == 0x100_0000,
        pow256(4) == 0x1_0000_0000,
        pow256(5) == 0x100_0000_0000,
        pow256(6) == 0x1_0000_0000_0000,
        pow256(7) == 0x100_0000_0000_0000,
{
    reveal_with_fuel(pow256, 8);
}

/// A little-endian encoding has the width asked for.
pub proof fn lemma_le_bytes_len(v: nat, n: nat)
    ensures
        le_bytes(v, n).len() == n,
    decreases n,
{
    if n > 0 {
        lemma_le_bytes_len(v / 256, (n - 1) as nat);
    }
}

/// A big-endian encoding has the width asked for.
pub proof fn lemma_be_bytes_len(v: nat, n: nat)
    ensures
        be_bytes(v, n).len() == n,
    decreases n,
{
    if n > 0 {
        lemma_be_bytes_len(v / 256, (n - 1) as nat);
    }
}

/// A byte string read little-endian stays below 256 to the power of its length.
pub proof fn lemma_le_value_bound(s: Seq<u8>)
    ensures
        le_value(s) < pow256(s.len()),
    decreases s.len(),
{
    if s.len() > 0 {
        lemma_le_value_bound(s.drop_first());
    }
}

/// Decoding a little-endian encoding gives the number back, when it fits the width.
pub proof fn lemma_le_round_trip(v: nat, n: nat)
    requires
        v < pow256(n),
    ensures
        le_value(le_bytes(v, n)) == v,
    decreases n,
{
    if n > 0 {
        let rest = le_bytes(v / 256, (n - 1) as nat);
        lemma_le_round_trip(v / 256, (n - 1) as nat);
        assert(le_bytes(v, n).drop_first() =~= rest);
    }
}

/// Encoding what a byte string holds, at its own width, gives the bytes back.
pub proof fn lemma_le_bytes_of_value(s: Seq<u8>)
    ensures
        le_bytes(le_value(s), s.len()) == s,
    decreases s.len(),
{
    if s.len() > 0 {
        lemma_le_bytes_of_value(s.drop_first());
        let v = le_value(s);
        assert(v % 256 == s[0] as nat);
        assert(v / 256 == le_value(s.drop_first()));
        assert(le_bytes(v, s.len()) =~= s);
    }
}

/// Decoding a big-endian encoding gives the number back, when it fits the width.
pub proof fn lemma_be_round_trip(v: nat, n: nat)
    requires
        v < pow256(n),
    ensures
        be_value(be_bytes(v, n)) == v,
    decreases n,
{
    if n > 0 {
        lemma_be_round_trip(v / 256, (n - 1) as nat);
        assert(be_bytes(v, n).drop_last() =~= be_bytes(v / 256, (n - 1) as nat));
    }
}

/// Big-endian encodings of one width are ordered byte by byte as the numbers are.
pub proof fn lemma_be_bytes_ordered(v: nat, w: nat, n: nat)
    requires
        v < w,
        w < pow256(n),
    ensures
        lex_lt(be_bytes(v, n), be_bytes(w, n)),
    decreases n,
{
    lemma_be_bytes_len(v, n);
    lemma_be_bytes_len(w, n);
    if n > 0 {
        let m = (n - 1) as nat;
        let a = be_bytes(v, n);
        let b = be_bytes(w, n);
        lemma_be_bytes_len(v / 256, m);
        lemma_be_bytes_len(w / 256, m);
        if v / 256 < w / 256 {
            lemma_be_bytes_ordered(v / 256, w / 256, m);
            let pa = be_bytes(v / 256, m);
            let pb = be_bytes(w / 256, m);
            let k = choose|k: int| ordered_at(pa, pb, k);
            assert(a.subrange(0, k) =~= pa.subrange(0, k));
            assert(b.subrange(0, k) =~= pb.subrange(0, k));
            assert(a[k] == pa[k] && b[k] == pb[k]);
            assert(ordered_at(a, b, k));
        } else {
            assert(v / 256 == w / 256);
            assert(a.subrange(0, m as int) =~= be_bytes(v / 256, m));
            assert(b.subrange(0, m as int) =~= be_bytes(w / 256, m));
            assert(a[m as int] < b[m as int]);
            assert(ordered_at(a, b, m as int));
        }
    }
}

/// Lexicographic order extends to longer strings: what follows the first
/// difference does not matter.
pub proof fn lemma_lex_lt_extends(a: Seq<u8>, b: Seq<u8>, x: Seq<u8>, y: Seq<u8>)
    requires
        a.len() == b.len(),
        lex_lt(a, b),
    ensures
        lex_lt(a + x, b + y),
{
    let k = choose|k: int| ordered_at(a, b, k);
    assert((a + x).subrange(0, k) =~= a.subrange(0, k));
    assert((b + y).subrange(0, k) =~= b.subrange(0, k));
    assert((a + x)[k] == a[k]);
    assert((b + y)[k] == b[k]);
    assert(ordered_at(a + x, b + y, k));
}

/// Encodes the `N` low bytes of `value`, least significant first.
pub fn le_array<const N: usize>(value: u64) -> (out: [u8; N])
    ensures
        out@ == le_bytes(value as nat, N as nat),
{
    let mut out: [u8; N] = [0u8; N];
    let mut rest: u64 = value;
    let mut i: usize = 0;
    while i < N
        invariant
            i <= N,
            out@.len() == N,
            le_bytes(value as nat, N as nat) == out@.subrange(0, i as int) + le_bytes(
                rest as nat,
                (N - i) as nat,
            ),
        decreases N - i,
    {
        let ghost before = out@;
        out[i] = (rest % 256) as u8;
        proof {
            assert(out@.subrange(0, i + 1) =~= before.subrange(0, i as int).push(
                (rest % 256) as u8,
            ));
            assert(before.subrange(0, i as int) + le_bytes(rest as nat, (N - i) as nat)
                =~= out@.subrange(0, i + 1) + le_bytes((rest / 256) as nat, (N - i - 1) as nat));
        }
        rest = rest / 256;
        i = i + 1;
    }
    proof {
        assert(out@.subrange(0, N as int) + le_bytes(rest as nat, 0) =~= out@);
    }
    out
}

/// Encodes the `N` low bytes of `value`, most significant first.
pub fn be_array<const N: usize>(value: u64) -> (out: [u8; N])
    ensures
        out@ == be_bytes(value as nat, N as nat),
{
    let mut out: [u8; N] = [0u8; N];
    let mut rest: u64 = value;
    let mut i: usize = N;
    while i > 0
        invariant
            i <= N,
            out@.len() == N,
            be_bytes(value as nat, N as nat) == be_bytes(rest as nat, i as nat) + out@.subrange(
                i as int,
                N as int,
            ),
        decreases i,
    {
        let ghost before = out@;
        i = i - 1;
        out[i] = (rest % 256) as u8;
        proof {
            assert(out@.subrange(i as int, N as int) =~= seq![(rest % 256) as u8]
                + before.subrange(i + 1, N as int));
            assert(be_bytes(rest as nat, (i + 1) as nat) + before.subrange(i + 1, N as int)
                =~= be_bytes((rest / 256) as nat, i as nat) + out@.subrange(i as int, N as int));
        }
        rest = rest / 256;
    }
    proof {
        assert(be_bytes(rest as nat, 0) + out@.subrange(0, N as int) =~= out@);
    }
    out
}

/// Reads the `width` bytes at `at` as a little-endian number.
pub fn read_le(bytes: &[u8], at: usize, width: usize) -> (value: u64)
    requires
        width <= 7,
        at + width <= bytes@.len(),
    ensures
        value == le_value(bytes@.subrange(at as int, at + width)),
        value < pow256(width as nat),
{
    let mut value: u64 = 0;
    let mut i: usize = width;
    let total: usize = bytes.len();
    proof {
        lemma_pow256_values();
    }
    while i > 0
        invariant
            i <= width <= 7,
            at + width <= bytes@.len() == total,
            value == le_value(bytes@.subrange(at + i, at + width)),
            value < pow256((width - i) as nat),
            pow256(7) == 0x100_0000_0000_0000,
        decreases i,
    {
        proof {
            lemma_pow256_grows((width - i) as nat, 6);
            assert(bytes@.subrange(at + i - 1, at + width).drop_first() =~= bytes@.subrange(
                at + i,
                at + width,
            ));
        }
        i = i - 1;
        value = value * 256 + bytes[at + i] as u64;
    }
    value
}

/// Reads the `width` bytes at `at` as a big-endian number.
pub fn read_be(bytes: &[u8], at: usize, width: usize) -> (value: u64)
    requires
        width <= 7,
        at + width <= bytes@.len(),
    ensures
        value == be_value(bytes@.subrange(at as int, at + width)),
        value < pow256(width as nat),
{
    let mut value: u64 = 0;
    let mut i: usize = 0;
    let total: usize = bytes.len();
    proof {
        lemma_pow256_values();
        assert(bytes@.subrange(at as int, at as int) =~= Seq::<u8>::empty());
    }
    while i < width
        invariant
            i <= width <= 7,
            at + width <= bytes@.len() == total,
            value == be_value(bytes@.subrange(at as int, at + i)),
            value < pow256(i as nat),
            pow256(7) == 0x100_0000_0000_0000,
        decreases width - i,
    {
        proof {
            lemma_pow256_grows(i as nat, 6);
            assert(bytes@.subrange(at as int, at + i + 1).drop_last() =~= bytes@.subrange(
                at as int,
                at + i,
            ));
        }
        value = value * 256 + bytes[at + i] as u64;
        i = i + 1;
    }
    value
}

/// Copies `src` over the bytes of `buffer` that begin at `at`.
pub fn copy_into(buffer: &mut [u8], at: usize, src: &[u8])
    requires
        at + src@.len() <= old(buffer)@.len(),
    ensures
        final(buffer)@ == splice(old(buffer)@, at as int, src@),
{
    let ghost before = buffer@;
    let n: usize = src.len();
    let total: usize = buffer.len();
    let mut i: usize = 0;
    while i < n
        invariant
            i <= n,
            n == src@.len(),
            at + n <= before.len() == total,
            buffer@ == splice(before, at as int, src@.subrange(0, i as int)),
        decreases n - i,
    {
        buffer[at + i] = src[i];
        proof {
            assert(buffer@ =~= splice(before, at as int, src@.subrange(0, i + 1)));
        }
        i = i + 1;
    }
    proof {
        assert(src@.subrange(0, n as int) =~= src@);
    }
}

/// Sets the bytes of `buffer` from `from` up to `to` to zero.
pub fn fill_zero(buffer: &mut [u8], from: usize, to: usize)
    requires
        from <= to <= old(buffer)@.len(),
    ensures
        final(buffer)@ == splice(old(buffer)@, from as int, zeros(to - from)),
{
    let ghost before = buffer@;
    let mut i: usize = from;
    while i < to
        invariant
            from <= i <= to <= before.len(),
            buffer@ == splice(before, from as int, zeros(i - from)),
        decreases to - i,
    {
        buffer[i] = 0;
        proof {
            assert(buffer@ =~= splice(before, from as int, zeros(i + 1 - from)));
        }
        i = i + 1;
    }
}

/// Writes `piece` at `cursor`, as the next part of a region that began at
/// `start` and will end at `end`, and returns where the part after it goes.
/// Outside the region the buffer stays as it is.
pub fn append(buffer: &mut [u8], start: usize, cursor: usize, end: usize, piece: &[u8]) -> (next:
    usize)
    requires
        start <= cursor,
        cursor + piece@.len() <= end <= old(buffer)@.len(),
    ensures
        next == cursor + piece@.len(),
        final(buffer)@.len() == old(buffer)@.len(),
        final(buffer)@.subrange(0, start as int) == old(buffer)@.subrange(0, start as int),
        final(buffer)@.subrange(start as int, next as int) == old(buffer)@.subrange(
            start as int,
            cursor as int,
        ) + piece@,
        final(buffer)@.subrange(end as int, old(buffer)@.len() as int) == old(buffer)@.subrange(
            end as int,
            old(buffer)@.len() as int,
        ),
{
    let ghost before = buffer@;
    copy_into(buffer, cursor, piece);
    let n: usize = piece.len();
    proof {
        assert(buffer@.subrange(0, start as int) =~= before.subrange(0, start as int));
        assert(buffer@.subrange(start as int, cursor + n) =~= before.subrange(
            start as int,
            cursor as int,
        ) + piece@);
        assert(buffer@.subrange(end as int, before.len() as int) =~= before.subrange(
            end as int,
            before.len() as int,
        ));
    }
    cursor + n
}

/// Writes `count` zero bytes at `cursor`, as [`append`] writes a piece.
pub fn append_zeros(
    buffer: &mut [u8],
    start: usize,
    cursor: usize,
    end: usize,
    count: usize,
) -> (next: usize)
    requires
        start <= cursor,
        cursor + count <= end <= old(buffer)@.len(),
    ensures
        next == cursor + count,
        final(buffer)@.len() == old(buffer)@.len(),
        final(buffer)@.subrange(0, start as int) == old(buffer)@.subrange(0, start as int),
        final(buffer)@.subrange(start as int, next as int) == old(buffer)@.subrange(
            start as int,
            cursor as int,
        ) + zeros(count as int),
        final(buffer)@.subrange(end as int, old(buffer)@.len() as int) == old(buffer)@.subrange(
            end as int,
            old(buffer)@.len() as int,
        ),
{
    let ghost before = buffer@;
    fill_zero(buffer, cursor, cursor + count);
    proof {
        assert(buffer@.subrange(0, start as int) =~= before.subrange(0, start as int));
        assert(buffer@.subrange(start as int, cursor + count) =~= before.subrange(
            start as int,
            cursor as int,
        ) + zeros(count as int));
        assert(buffer@.subrange(end as int, before.len() as int) =~= before.subrange(
            end as int,
            before.len() as int,
        ));
    }
    cursor + count
}

/// A byte string is its three parts, one after the other.
pub proof fn lemma_three_parts(b: Seq<u8>, p: int, q: int)
    requires
        0 <= p <= q <= b.len(),
    ensures
        b == b.subrange(0, p) + b.subrange(p, q) + b.subrange(q, b.len() as int),
{
    assert(b =~= b.subrange(0, p) + b.subrange(p, q) + b.subrange(q, b.len() as int));
}

/// Byte strings that agree on a range agree on every range within it.
pub proof fn lemma_agree_within(a: Seq<u8>, b: Seq<u8>, lo: int, hi: int, from: int, to: int)
    requires
        0 <= lo <= from <= to <= hi <= a.len(),
        hi <= b.len(),
        a.subrange(lo, hi) == b.subrange(lo, hi),
    ensures
        a.subrange(from, to) == b.subrange(from, to),
{
    assert forall|i: int| 0 <= i < to - from implies a.subrange(from, to)[i] == b.subrange(
        from,
        to,
    )[i] by {
        assert(a.subrange(lo, hi)[from - lo + i] == a[from + i]);
        assert(b.subrange(lo, hi)[from - lo + i] == b[from + i]);
    }
    assert(a.subrange(from, to) =~= b.subrange(from, to));
}

/// Powers of 256 grow with the exponent.
pub proof fn lemma_pow256_grows(a: nat, b: nat)
    requires
        a <= b,
    ensures
        pow256(a) <= pow256(b),
        pow256(a) >= 1,
    decreases b,
{
    if a < b {
        lemma_pow256_grows(a, (b - 1) as nat);
    } else if a > 0 {
        lemma_pow256_grows((a - 1) as nat, (a - 1) as nat);
    }
}

/// The `N` bytes of `src` that begin at `at`, as an array.
pub fn array_from<const N: usize>(src: &[u8], at: usize) -> (out: [u8; N])
    requires
        at + N <= src@.len(),
    ensures
        out@ == src@.subrange(at as int, at + N),
{
    let mut out: [u8; N] = [0u8; N];
    let total: usize = src.len();
    let mut i: usize = 0;
    while i < N
        invariant
            i <= N,
            at + N <= src@.len() == total,
            out@.len() == N,
            out@.subrange(0, i as int) == src@.subrange(at as int, at + i),
        decreases N - i,
    {
        let ghost before = out@;
        out[i] = src[at + i];
        proof {
            assert(out@.subrange(0, i + 1) =~= before.subrange(0, i as int).push(src@[at + i]));
            assert(src@.subrange(at as int, at + i + 1) =~= src@.subrange(
                at as int,
                at + i,
            ).push(src@[at + i]));
        }
        i = i + 1;
    }
    proof {
        assert(out@.subrange(0, N as int) =~= out@);
    }
    out
}

/// Whether `a` and `b` hold the same bytes.
pub fn same_bytes(a: &[u8], b: &[u8]) -> (same: bool)
    ensures
        same == (a@ == b@),
{
    if a.len() != b.len() {
        return false;
    }
    let n: usize = a.len();
    let mut i: usize = 0;
    while i < n
        invariant
            i <= n,
            n == a@.len() == b@.len(),
            a@.subrange(0, i as int) == b@.subrange(0, i as int),
        decreases n - i,
    {
        if a[i] != b[i] {
            return false;
        }
        proof {
            assert(a@.subrange(0, i + 1) =~= a@.subrange(0, i as int).push(a@[i as int]));
            assert(b@.subrange(0, i + 1) =~= b@.subrange(0, i as int).push(b@[i as int]));
        }
        i = i + 1;
    }
    proof {
        assert(a@.subrange(0, n as int) =~= a@);
        assert(b@.subrange(0, n as int) =~= b@);
    }
    true
}

/// Whether `a` comes before `b`, byte by byte from the front.
pub fn bytes_lt(a: &[u8], b: &[u8]) -> (before: bool)
    ensures
        before == lex_lt(a@, b@),
{
    let n: usize = a.len();
    let m: usize = b.len();
    let mut i: usize = 0;
    while i < n && i < m
        invariant
            i <= n == a@.len(),
            i <= m == b@.len(),
            a@.subrange(0, i as int) == b@.subrange(0, i as int),
        decreases n - i,
    {
        if a[i] != b[i] {
            let before: bool = a[i] < b[i];
            proof {
                lemma_lex_lt_at_first_difference(a@, b@, i as int);
            }
            return before;
        }
        proof {
            assert(a@.subrange(0, i + 1) =~= a@.subrange(0, i as int).push(a@[i as int]));
            assert(b@.subrange(0, i + 1) =~= b@.subrange(0, i as int).push(b@[i as int]));
        }
        i = i + 1;
    }
    proof {
        lemma_lex_lt_of_prefix(a@, b@, i as int);
    }
    n < m
}

/// Where two strings first differ at `k`, the byte there decides their order.
pub proof fn lemma_lex_lt_at_first_difference(a: Seq<u8>, b: Seq<u8>, k: int)
    requires
        0 <= k < a.len(),
        k < b.len(),
        a.subrange(0, k) == b.subrange(0, k),
        a[k] != b[k],
    ensures
        lex_lt(a, b) == (a[k] < b[k]),
{
    if lex_lt(a, b) {
        let j = choose|j: int| ordered_at(a, b, j);
        if j > k {
            assert(a.subrange(0, j)[k] == a[k]);
            assert(b.subrange(0, j)[k] == b[k]);
            assert(false);
        } else if j < k {
            assert(a.subrange(0, k)[j] == a[j]);
            assert(b.subrange(0, k)[j] == b[j]);
            assert(false);
        }
        assert(a[k] < b[k]);
    } else if a[k] < b[k] {
        assert(ordered_at(a, b, k));
        assert(false);
    }
}

/// Where one string is a prefix of the other, the shorter comes first.
pub proof fn lemma_lex_lt_of_prefix(a: Seq<u8>, b: Seq<u8>, k: int)
    requires
        0 <= k <= a.len(),
        k <= b.len(),
        k == a.len() || k == b.len(),
        a.subrange(0, k) == b.subrange(0, k),
    ensures
        lex_lt(a, b) == (a.len() < b.len()),
{
    if lex_lt(a, b) {
        let j = choose|j: int| ordered_at(a, b, j);
        if j < k {
            assert(a.subrange(0, k)[j] == a[j]);
            assert(b.subrange(0, k)[j] == b[j]);
            assert(false);
        }
        assert(a.len() < b.len());
    } else if a.len() < b.len() {
        assert(ordered_at(a, b, k));
        assert(false);
    }
}

} // verus!
