//! What a written JPEG file promises: its scan can be read in one way only, so
//! that the file holds every coefficient, its partial blocks repeat the edges of
//! the picture, and a quality beyond its ends is that of the end.

use vstd::arithmetic::power2;
use vstd::prelude::*;

use crate::bits;
use crate::jpeg::{self, Block, HuffTable, RgbBlock, Tables};

verus! {

/// Whether a table holds the codes that lengths and symbols define.
pub open spec fn defined_by(t: HuffTable, counts: Seq<u8>, vals: Seq<u8>) -> bool {
    &&& jpeg::codes_fit(counts)
    &&& jpeg::holds_codes(t, counts, vals, jpeg::codes_before(counts, 16) as int)
}

proof fn lemma_cancel(a: Seq<bool>, x: Seq<bool>, y: Seq<bool>)
    requires
        a + x == a + y,
    ensures
        x == y,
{
    assert((a + x).skip(a.len() as int) =~= x);
    assert((a + y).skip(a.len() as int) =~= y);
}

/// The first bits of a number are those of its quotient by a power of two.
proof fn lemma_first_bits(v: nat, m: nat, n: nat)
    ensures
        bits::bits_of(v, m + n).take(m as int) == bits::bits_of(v / power2::pow2(n), m),
{
    let p = power2::pow2(n);
    power2::lemma_pow2_pos(n);
    vstd::arithmetic::div_mod::lemma_fundamental_div_mod(v as int, p as int);
    assert(v == (v / p) * p + v % p) by (nonlinear_arith)
        requires
            v == p * (v / p) + v % p,
    ;
    bits::lemma_bits_split(v / p, v % p, m, n);
    bits::lemma_bits_len(v / p, m);
    assert((bits::bits_of(v / p, m) + bits::bits_of(v % p, n)).take(m as int) =~= bits::bits_of(
        v / p,
        m,
    ));
}

proof fn lemma_place(vals: Seq<u8>, n: int, s: int)
    ensures
        jpeg::place(vals, n, s) matches Some(k) ==> 0 <= k < n && vals[k] == s,
    decreases n,
{
    if n > 0 && vals[n - 1] != s {
        lemma_place(vals, n - 1, s);
    }
}

proof fn lemma_symbol_order(
    t: HuffTable,
    counts: Seq<u8>,
    vals: Seq<u8>,
    a: int,
    b: int,
    k: int,
    j: int,
    x: Seq<bool>,
    y: Seq<bool>,
)
    requires
        defined_by(t, counts, vals),
        jpeg::table_wf(t),
        0 <= a < 256,
        0 <= b < 256,
        jpeg::place(vals, jpeg::codes_before(counts, 16) as int, a) == Some(k),
        jpeg::place(vals, jpeg::codes_before(counts, 16) as int, b) == Some(j),
        0 <= k < j < jpeg::codes_before(counts, 16),
    ensures
        jpeg::symbol_bits(t, a) + x != jpeg::symbol_bits(t, b) + y,
{
    jpeg::law_codes_prefix_free(counts, k, j);
    assert(t.size@[a] == jpeg::size_at(counts, k));
    assert(t.size@[b] == jpeg::size_at(counts, j));
    let m = t.size@[a] as nat;
    let n = (t.size@[b] - t.size@[a]) as nat;
    let ca = t.code@[a] as nat;
    let cb = t.code@[b] as nat;
    if jpeg::symbol_bits(t, a) + x == jpeg::symbol_bits(t, b) + y {
        bits::lemma_bits_len(ca, m);
        bits::lemma_bits_len(cb, m + n);
        assert((jpeg::symbol_bits(t, a) + x).take(m as int) =~= bits::bits_of(ca, m));
        assert((jpeg::symbol_bits(t, b) + y).take(m as int) =~= bits::bits_of(cb, m + n).take(
            m as int,
        ));
        lemma_first_bits(cb, m, n);
        let q = cb / power2::pow2(n);
        power2::lemma_pow2_pos(n);
        power2::lemma_pow2_adds(m, n);
        assert(q < power2::pow2(m)) by (nonlinear_arith)
            requires
                cb < power2::pow2(m) * power2::pow2(n),
                power2::pow2(n) > 0,
                q == cb / power2::pow2(n),
        ;
        bits::lemma_value_of_bits(q, m);
        bits::lemma_value_of_bits(ca, m);
        assert(q == ca);
    }
}

/// Two rows of bits that begin with symbols of a table and are equal begin with
/// the same symbol, and go on alike.
proof fn lemma_symbol_unique(
    t: HuffTable,
    counts: Seq<u8>,
    vals: Seq<u8>,
    a: int,
    b: int,
    x: Seq<bool>,
    y: Seq<bool>,
)
    requires
        defined_by(t, counts, vals),
        jpeg::table_wf(t),
        0 <= a < 256,
        0 <= b < 256,
        t.size@[a] > 0,
        t.size@[b] > 0,
        jpeg::symbol_bits(t, a) + x == jpeg::symbol_bits(t, b) + y,
    ensures
        a == b,
        x == y,
{
    let n = jpeg::codes_before(counts, 16) as int;
    lemma_place(vals, n, a);
    lemma_place(vals, n, b);
    let k = jpeg::place(vals, n, a)->0;
    let j = jpeg::place(vals, n, b)->0;
    if k < j {
        lemma_symbol_order(t, counts, vals, a, b, k, j, x, y);
    } else if j < k {
        lemma_symbol_order(t, counts, vals, b, a, j, k, y, x);
    }
    lemma_cancel(jpeg::symbol_bits(t, a), x, y);
}

/// Coefficients of one category are told apart by their bits.
proof fn lemma_extra_unique(v: int, w: int, x: Seq<bool>, y: Seq<bool>)
    requires
        jpeg::category(v) == jpeg::category(w),
        jpeg::extra_bits(v) + x == jpeg::extra_bits(w) + y,
    ensures
        v == w,
        x == y,
{
    let n = jpeg::category(v);
    lemma_extra_range(v);
    lemma_extra_range(w);
    bits::lemma_bits_len(jpeg::extra(v) as nat, n);
    bits::lemma_bits_len(jpeg::extra(w) as nat, n);
    assert((jpeg::extra_bits(v) + x).take(n as int) =~= jpeg::extra_bits(v));
    assert((jpeg::extra_bits(w) + y).take(n as int) =~= jpeg::extra_bits(w));
    bits::lemma_value_of_bits(jpeg::extra(v) as nat, n);
    bits::lemma_value_of_bits(jpeg::extra(w) as nat, n);
    lemma_cancel(jpeg::extra_bits(v), x, y);
    if v != 0 {
        jpeg::law_category_and_extra_decode(v);
    }
    if w != 0 {
        jpeg::law_category_and_extra_decode(w);
    }
}

proof fn lemma_extra_range(v: int)
    ensures
        0 <= jpeg::extra(v) < power2::pow2(jpeg::category(v)),
{
    power2::lemma2_to64();
    if v != 0 {
        jpeg::law_category_and_extra_decode(v);
        power2::lemma_pow2_pos((jpeg::category(v) - 1) as nat);
        power2::lemma_pow2_pos(jpeg::category(v));
        jpeg::lemma_extra(v);
    }
}

/// Whether the AC coefficients of a block all have codes, whatever the run of
/// zeros before them.
pub open spec fn ac_encodable(c: Seq<i16>, ac: HuffTable) -> bool {
    &&& c.len() == 64
    &&& ac.size@[0] > 0
    &&& ac.size@[0xf0] > 0
    &&& forall|i: int|
        1 <= i < 64 && #[trigger] c[i] != 0 ==> jpeg::category(c[i] as int) < 16 && forall|run: int|
            0 <= run < 16 ==> #[trigger] ac.size@[16 * run + jpeg::category(c[i] as int)] > 0
}

proof fn lemma_long_runs_add(ac: HuffTable, m: int, n: int)
    requires
        0 <= m,
        0 <= n,
    ensures
        jpeg::long_runs(ac, m + n) == jpeg::long_runs(ac, m) + jpeg::long_runs(ac, n),
    decreases m,
{
    if m > 0 {
        lemma_long_runs_add(ac, m - 1, n);
    }
    assert(jpeg::long_runs(ac, m + n) =~= jpeg::long_runs(ac, m) + jpeg::long_runs(ac, n));
}

proof fn lemma_category_positive(v: int)
    requires
        v != 0,
    ensures
        jpeg::category(v) > 0,
{
    jpeg::law_category_and_extra_decode(v);
}

/// A coefficient with a shorter run before it and a later one, or the end of
/// the block, begin differently.
proof fn lemma_runs_differ(
    c: Seq<i16>,
    d: Seq<i16>,
    ac: HuffTable,
    counts: Seq<u8>,
    vals: Seq<u8>,
    i: int,
    j: int,
    zc: int,
    zd: int,
    x: Seq<bool>,
    y: Seq<bool>,
)
    requires
        defined_by(ac, counts, vals),
        jpeg::table_wf(ac),
        ac_encodable(c, ac),
        ac_encodable(d, ac),
        1 <= i < j <= 64,
        0 <= zc,
        zd == zc + (j - i),
        c[i] != 0,
        j < 64 ==> d[j] != 0,
    ensures
        jpeg::ac_bits(c, ac, i, zc) + x != jpeg::ac_bits(d, ac, j, zd) + y,
{
    if jpeg::ac_bits(c, ac, i, zc) + x == jpeg::ac_bits(d, ac, j, zd) + y {
        let kc = jpeg::category(c[i] as int) as int;
        lemma_category_positive(c[i] as int);
        let qc = zc / 16;
        let sc = 16 * (zc % 16) + kc;
        assert(ac.size@[16 * (zc % 16) + jpeg::category(c[i] as int)] > 0);
        let tail_c = jpeg::extra_bits(c[i] as int) + jpeg::ac_bits(c, ac, i + 1, 0) + x;
        assert(jpeg::ac_bits(c, ac, i, zc) + x =~= jpeg::long_runs(ac, qc) + (jpeg::symbol_bits(
            ac,
            sc,
        ) + tail_c));
        if j == 64 {
            if qc > 0 {
                let rest = jpeg::long_runs(ac, qc - 1) + (jpeg::symbol_bits(ac, sc) + tail_c);
                assert(jpeg::long_runs(ac, qc) + (jpeg::symbol_bits(ac, sc) + tail_c)
                    =~= jpeg::symbol_bits(ac, 0xf0) + rest);
                lemma_symbol_unique(ac, counts, vals, 0xf0, 0, rest, y);
            } else {
                assert(jpeg::long_runs(ac, qc) + (jpeg::symbol_bits(ac, sc) + tail_c)
                    =~= jpeg::symbol_bits(ac, sc) + tail_c);
                lemma_symbol_unique(ac, counts, vals, sc, 0, tail_c, y);
            }
        } else {
            let kd = jpeg::category(d[j] as int) as int;
            lemma_category_positive(d[j] as int);
            let qd = zd / 16;
            let sd = 16 * (zd % 16) + kd;
            assert(ac.size@[16 * (zd % 16) + jpeg::category(d[j] as int)] > 0);
            let tail_d = jpeg::extra_bits(d[j] as int) + jpeg::ac_bits(d, ac, j + 1, 0) + y;
            assert(jpeg::ac_bits(d, ac, j, zd) + y =~= jpeg::long_runs(ac, qd) + (
            jpeg::symbol_bits(ac, sd) + tail_d));
            lemma_long_runs_add(ac, qc, qd - qc);
            let rest_d = jpeg::long_runs(ac, qd - qc) + (jpeg::symbol_bits(ac, sd) + tail_d);
            assert(jpeg::long_runs(ac, qd) + (jpeg::symbol_bits(ac, sd) + tail_d)
                =~= jpeg::long_runs(ac, qc) + rest_d);
            lemma_cancel(jpeg::long_runs(ac, qc), jpeg::symbol_bits(ac, sc) + tail_c, rest_d);
            if qd > qc {
                let rest = jpeg::long_runs(ac, qd - qc - 1) + (jpeg::symbol_bits(ac, sd) + tail_d);
                assert(rest_d =~= jpeg::symbol_bits(ac, 0xf0) + rest);
                lemma_symbol_unique(ac, counts, vals, sc, 0xf0, tail_c, rest);
            } else {
                assert(rest_d =~= jpeg::symbol_bits(ac, sd) + tail_d);
                lemma_symbol_unique(ac, counts, vals, sc, sd, tail_c, tail_d);
            }
        }
    }
}

/// The next coefficient that is not zero, or the end of the block.
spec fn next_nonzero(d: Seq<i16>, j: int) -> int
    decreases 64 - j,
{
    if j >= 64 || d[j] != 0 {
        j
    } else {
        next_nonzero(d, j + 1)
    }
}

proof fn lemma_skip_zeros(d: Seq<i16>, ac: HuffTable, j: int, z: int)
    requires
        j <= 64,
    ensures
        j <= next_nonzero(d, j) <= 64,
        next_nonzero(d, j) < 64 ==> d[next_nonzero(d, j)] != 0,
        jpeg::ac_bits(d, ac, j, z) == jpeg::ac_bits(
            d,
            ac,
            next_nonzero(d, j),
            z + (next_nonzero(d, j) - j),
        ),
    decreases 64 - j,
{
    if j < 64 && d[j] == 0 {
        lemma_skip_zeros(d, ac, j + 1, z + 1);
    }
}

proof fn lemma_ac_unique(
    c: Seq<i16>,
    d: Seq<i16>,
    ac: HuffTable,
    counts: Seq<u8>,
    vals: Seq<u8>,
    i: int,
    z: int,
    x: Seq<bool>,
    y: Seq<bool>,
)
    requires
        defined_by(ac, counts, vals),
        jpeg::table_wf(ac),
        ac_encodable(c, ac),
        ac_encodable(d, ac),
        1 <= i <= 64,
        0 <= z,
        jpeg::ac_bits(c, ac, i, z) + x == jpeg::ac_bits(d, ac, i, z) + y,
    ensures
        forall|k: int| i <= k < 64 ==> c[k] == d[k],
        x == y,
    decreases 64 - i,
{
    if i == 64 {
        lemma_cancel(jpeg::ac_bits(c, ac, i, z), x, y);
    } else if c[i] == 0 && d[i] == 0 {
        lemma_ac_unique(c, d, ac, counts, vals, i + 1, z + 1, x, y);
    } else if c[i] == 0 {
        let j = next_nonzero(c, i);
        lemma_skip_zeros(c, ac, i, z);
        lemma_runs_differ(d, c, ac, counts, vals, i, j, z, z + (j - i), y, x);
    } else if d[i] == 0 {
        let j = next_nonzero(d, i);
        lemma_skip_zeros(d, ac, i, z);
        lemma_runs_differ(c, d, ac, counts, vals, i, j, z, z + (j - i), x, y);
    } else {
        let kc = jpeg::category(c[i] as int) as int;
        let kd = jpeg::category(d[i] as int) as int;
        let sc = 16 * (z % 16) + kc;
        let sd = 16 * (z % 16) + kd;
        assert(ac.size@[16 * (z % 16) + jpeg::category(c[i] as int)] > 0);
        assert(ac.size@[16 * (z % 16) + jpeg::category(d[i] as int)] > 0);
        let rest_c = jpeg::ac_bits(c, ac, i + 1, 0) + x;
        let rest_d = jpeg::ac_bits(d, ac, i + 1, 0) + y;
        let runs = jpeg::long_runs(ac, z / 16);
        let tail_c = jpeg::extra_bits(c[i] as int) + rest_c;
        let tail_d = jpeg::extra_bits(d[i] as int) + rest_d;
        assert(jpeg::ac_bits(c, ac, i, z) + x =~= runs + (jpeg::symbol_bits(ac, sc) + tail_c));
        assert(jpeg::ac_bits(d, ac, i, z) + y =~= runs + (jpeg::symbol_bits(ac, sd) + tail_d));
        lemma_cancel(
            runs,
            jpeg::symbol_bits(ac, sc) + tail_c,
            jpeg::symbol_bits(ac, sd) + tail_d,
        );
        lemma_symbol_unique(ac, counts, vals, sc, sd, tail_c, tail_d);
        lemma_extra_unique(c[i] as int, d[i] as int, rest_c, rest_d);
        lemma_ac_unique(c, d, ac, counts, vals, i + 1, 0, x, y);
    }
}

/// Whether a block, with the first coefficient of the block before, has codes
/// for all it holds.
pub open spec fn encodable(c: Seq<i16>, prev: int, dc: HuffTable, ac: HuffTable) -> bool {
    &&& ac_encodable(c, ac)
    &&& jpeg::category(c[0] - prev) < 256
    &&& dc.size@[jpeg::category(c[0] - prev) as int] > 0
}

proof fn lemma_block_unique(
    c: Seq<i16>,
    d: Seq<i16>,
    prev: int,
    dc: HuffTable,
    dc_counts: Seq<u8>,
    dc_vals: Seq<u8>,
    ac: HuffTable,
    ac_counts: Seq<u8>,
    ac_vals: Seq<u8>,
    x: Seq<bool>,
    y: Seq<bool>,
)
    requires
        defined_by(dc, dc_counts, dc_vals),
        defined_by(ac, ac_counts, ac_vals),
        jpeg::table_wf(dc),
        jpeg::table_wf(ac),
        encodable(c, prev, dc, ac),
        encodable(d, prev, dc, ac),
        jpeg::block_bits(c, prev, dc, ac) + x == jpeg::block_bits(d, prev, dc, ac) + y,
    ensures
        c == d,
        x == y,
{
    let vc = c[0] - prev;
    let vd = d[0] - prev;
    let rest_c = jpeg::ac_bits(c, ac, 1, 0) + x;
    let rest_d = jpeg::ac_bits(d, ac, 1, 0) + y;
    assert(jpeg::block_bits(c, prev, dc, ac) + x =~= jpeg::symbol_bits(
        dc,
        jpeg::category(vc) as int,
    ) + (jpeg::extra_bits(vc) + rest_c));
    assert(jpeg::block_bits(d, prev, dc, ac) + y =~= jpeg::symbol_bits(
        dc,
        jpeg::category(vd) as int,
    ) + (jpeg::extra_bits(vd) + rest_d));
    lemma_symbol_unique(
        dc,
        dc_counts,
        dc_vals,
        jpeg::category(vc) as int,
        jpeg::category(vd) as int,
        jpeg::extra_bits(vc) + rest_c,
        jpeg::extra_bits(vd) + rest_d,
    );
    lemma_extra_unique(vc, vd, rest_c, rest_d);
    lemma_ac_unique(c, d, ac, ac_counts, ac_vals, 1, 0, x, y);
    assert(c =~= d);
}

/// The first coefficient of a component of block `n - 1`, or 0 before the
/// first.
pub open spec fn prev_dc(c: spec_fn(Block) -> Seq<i16>, blocks: Seq<Block>, n: int) -> int {
    if n == 0 {
        0
    } else {
        c(blocks[n - 1])[0] as int
    }
}

/// Whether block `n` has codes for all it holds.
pub open spec fn block_encodable(blocks: Seq<Block>, n: int, t: Tables) -> bool {
    let b = blocks[n];
    &&& encodable(b.y@, prev_dc(|b: Block| b.y@, blocks, n), t.dc_lum, t.ac_lum)
    &&& encodable(b.cb@, prev_dc(|b: Block| b.cb@, blocks, n), t.dc_chr, t.ac_chr)
    &&& encodable(b.cr@, prev_dc(|b: Block| b.cr@, blocks, n), t.dc_chr, t.ac_chr)
}

/// Whether two blocks hold the same coefficients.
pub open spec fn same_block(a: Block, b: Block) -> bool {
    a.y@ == b.y@ && a.cb@ == b.cb@ && a.cr@ == b.cr@
}

/// The tables of a file.
pub open spec fn tables_wf(t: Tables) -> bool {
    &&& jpeg::standard(t)
    &&& jpeg::table_wf(t.dc_lum)
    &&& jpeg::table_wf(t.ac_lum)
    &&& jpeg::table_wf(t.dc_chr)
    &&& jpeg::table_wf(t.ac_chr)
}

/// The bits of block `n - 1` and those behind it.
spec fn block_tail(a: Seq<Block>, n: int, t: Tables, x: Seq<bool>) -> Seq<bool> {
    let p = a[n - 1];
    jpeg::block_bits(
        p.y@,
        prev_dc(|b: Block| b.y@, a, n - 1),
        t.dc_lum,
        t.ac_lum,
    ) + (jpeg::block_bits(p.cb@, prev_dc(|b: Block| b.cb@, a, n - 1), t.dc_chr, t.ac_chr) + (
    jpeg::block_bits(p.cr@, prev_dc(|b: Block| b.cr@, a, n - 1), t.dc_chr, t.ac_chr) + x))
}

proof fn lemma_regroup(
    s: Seq<bool>,
    a: Seq<bool>,
    b: Seq<bool>,
    c: Seq<bool>,
    x: Seq<bool>,
)
    ensures
        s + a + b + c + x == s + (a + (b + (c + x))),
{
    assert(s + a + b + c + x =~= s + (a + (b + (c + x))));
}

proof fn lemma_scan_step(a: Seq<Block>, n: int, t: Tables, x: Seq<bool>)
    requires
        0 < n <= a.len(),
    ensures
        jpeg::scan_bits(a, n, t) + x == jpeg::scan_bits(a, n - 1, t) + block_tail(a, n, t, x),
{
    let p = a[n - 1];
    lemma_regroup(
        jpeg::scan_bits(a, n - 1, t),
        jpeg::block_bits(p.y@, prev_dc(|b: Block| b.y@, a, n - 1), t.dc_lum, t.ac_lum),
        jpeg::block_bits(p.cb@, prev_dc(|b: Block| b.cb@, a, n - 1), t.dc_chr, t.ac_chr),
        jpeg::block_bits(p.cr@, prev_dc(|b: Block| b.cr@, a, n - 1), t.dc_chr, t.ac_chr),
        x,
    );
}

proof fn lemma_tail_unique(
    a: Seq<Block>,
    b: Seq<Block>,
    n: int,
    t: Tables,
    x: Seq<bool>,
    y: Seq<bool>,
)
    requires
        0 < n <= a.len(),
        n <= b.len(),
        tables_wf(t),
        block_encodable(a, n - 1, t),
        block_encodable(b, n - 1, t),
        n > 1 ==> same_block(a[n - 2], b[n - 2]),
        block_tail(a, n, t, x) == block_tail(b, n, t, y),
    ensures
        same_block(a[n - 1], b[n - 1]),
        x == y,
{
    jpeg::lemma_standard_tables();
    let p = a[n - 1];
    let q = b[n - 1];
    let py = prev_dc(|b: Block| b.y@, a, n - 1);
    let pcb = prev_dc(|b: Block| b.cb@, a, n - 1);
    let pcr = prev_dc(|b: Block| b.cr@, a, n - 1);
    let a2 = jpeg::block_bits(p.cb@, pcb, t.dc_chr, t.ac_chr);
    let a3 = jpeg::block_bits(p.cr@, pcr, t.dc_chr, t.ac_chr);
    let b2 = jpeg::block_bits(q.cb@, pcb, t.dc_chr, t.ac_chr);
    let b3 = jpeg::block_bits(q.cr@, pcr, t.dc_chr, t.ac_chr);
    lemma_block_unique(
        p.y@,
        q.y@,
        py,
        t.dc_lum,
        jpeg::DC_LUM_BITS@,
        jpeg::DC_LUM_VALS@,
        t.ac_lum,
        jpeg::AC_LUM_BITS@,
        jpeg::AC_LUM_VALS@,
        a2 + (a3 + x),
        b2 + (b3 + y),
    );
    lemma_block_unique(
        p.cb@,
        q.cb@,
        pcb,
        t.dc_chr,
        jpeg::DC_CHR_BITS@,
        jpeg::DC_CHR_VALS@,
        t.ac_chr,
        jpeg::AC_CHR_BITS@,
        jpeg::AC_CHR_VALS@,
        a3 + x,
        b3 + y,
    );
    lemma_block_unique(
        p.cr@,
        q.cr@,
        pcr,
        t.dc_chr,
        jpeg::DC_CHR_BITS@,
        jpeg::DC_CHR_VALS@,
        t.ac_chr,
        jpeg::AC_CHR_BITS@,
        jpeg::AC_CHR_VALS@,
        x,
        y,
    );
}

proof fn lemma_scan_unique(
    a: Seq<Block>,
    b: Seq<Block>,
    n: int,
    t: Tables,
    x: Seq<bool>,
    y: Seq<bool>,
)
    requires
        0 <= n <= a.len(),
        n <= b.len(),
        tables_wf(t),
        forall|i: int| 0 <= i < n ==> #[trigger] block_encodable(a, i, t),
        forall|i: int| 0 <= i < n ==> #[trigger] block_encodable(b, i, t),
        jpeg::scan_bits(a, n, t) + x == jpeg::scan_bits(b, n, t) + y,
    ensures
        forall|i: int| 0 <= i < n ==> #[trigger] same_block(a[i], b[i]),
        x == y,
    decreases n,
{
    if n == 0 {
        assert(jpeg::scan_bits(a, n, t) + x =~= x);
        assert(jpeg::scan_bits(b, n, t) + y =~= y);
    } else {
        let (u, v) = (block_tail(a, n, t, x), block_tail(b, n, t, y));
        lemma_scan_step(a, n, t, x);
        lemma_scan_step(b, n, t, y);
        lemma_scan_unique(a, b, n - 1, t, u, v);
        if n > 1 {
            assert(same_block(a[n - 2], b[n - 2]));
        }
        assert(block_encodable(a, n - 1, t));
        assert(block_encodable(b, n - 1, t));
        lemma_tail_unique(a, b, n, t, x, y);
        assert forall|i: int| 0 <= i < n implies #[trigger] same_block(a[i], b[i]) by {}
    }
}

/// Bits and number of one length determine each other.
proof fn lemma_bits_of_value(s: Seq<bool>)
    ensures
        bits::bits_of(bits::value_of(s), s.len()) == s,
        bits::value_of(s) < power2::pow2(s.len()),
    decreases s.len(),
{
    power2::lemma2_to64();
    if s.len() == 0 {
        assert(bits::bits_of(0, 0) =~= s);
    } else {
        lemma_bits_of_value(s.drop_last());
        power2::lemma_pow2_unfold(s.len());
        assert(bits::bits_of(bits::value_of(s), s.len()) =~= s);
    }
}

proof fn lemma_packed_unique(s: Seq<bool>, r: Seq<bool>)
    requires
        s.len() % 8 == 0,
        r.len() % 8 == 0,
        bits::packed(s) == bits::packed(r),
    ensures
        s == r,
{
    power2::lemma2_to64();
    assert(bits::packed(s).len() == s.len() / 8);
    assert(bits::packed(r).len() == r.len() / 8);
    assert(s.len() == r.len());
    assert forall|i: int| 0 <= i < s.len() implies s[i] == r[i] by {
        let k = i / 8;
        let a = s.subrange(8 * k, 8 * k + 8);
        let b = r.subrange(8 * k, 8 * k + 8);
        lemma_bits_of_value(a);
        lemma_bits_of_value(b);
        assert(bits::packed(s)[k] == bits::value_of(a) as u8);
        assert(bits::packed(r)[k] == bits::value_of(b) as u8);
        assert(a == b);
        assert(a[i % 8] == s[i]);
        assert(b[i % 8] == r[i]);
    }
    assert(s =~= r);
}

proof fn lemma_padded_len(s: Seq<bool>)
    ensures
        bits::padded(s).len() % 8 == 0,
{
}

proof fn lemma_middle(h: Seq<u8>, x: Seq<u8>, y: Seq<u8>, e: Seq<u8>)
    requires
        h + x + e == h + y + e,
    ensures
        x == y,
{
    let n = h.len() as int;
    assert((h + x + e).len() == n + x.len() + e.len());
    assert((h + y + e).len() == n + y.len() + e.len());
    assert(x.len() == y.len());
    assert((h + x + e).subrange(n, n + x.len()) =~= x);
    assert((h + y + e).subrange(n, n + y.len()) =~= y);
}

/// The bytes of a scan behind a header and before the end marker.
spec fn framed(h: Seq<u8>, a: Seq<Block>, t: Tables) -> Seq<u8> {
    h + bits::stuffed(bits::packed(bits::padded(jpeg::scan_bits(a, a.len() as int, t)))) + seq![
        0xffu8,
        0xd9,
    ]
}

proof fn lemma_behind_header(a: Seq<Block>, b: Seq<Block>, h: Seq<u8>, t: Tables)
    requires
        tables_wf(t),
        a.len() == b.len(),
        forall|i: int| 0 <= i < a.len() ==> #[trigger] block_encodable(a, i, t),
        forall|i: int| 0 <= i < b.len() ==> #[trigger] block_encodable(b, i, t),
        framed(h, a, t) == framed(h, b, t),
    ensures
        forall|i: int| 0 <= i < a.len() ==> #[trigger] same_block(a[i], b[i]),
{
    let n = a.len() as int;
    let sa = jpeg::scan_bits(a, n, t);
    let sb = jpeg::scan_bits(b, n, t);
    let ra = bits::packed(bits::padded(sa));
    let rb = bits::packed(bits::padded(sb));
    lemma_middle(
        h,
        bits::stuffed(ra),
        bits::stuffed(rb),
        seq![0xffu8, 0xd9],
    );
    bits::law_unstuffed(ra);
    bits::law_unstuffed(rb);
    lemma_padded_len(sa);
    lemma_padded_len(sb);
    lemma_packed_unique(bits::padded(sa), bits::padded(sb));
    let xa = Seq::new(((8 - sa.len() % 8) % 8) as nat, |i: int| true);
    let xb = Seq::new(((8 - sb.len() % 8) % 8) as nat, |i: int| true);
    lemma_scan_unique(a, b, n, t, xa, xb);
}

/// A file holds the coefficients of its blocks: two pictures with as many
/// blocks, whose symbols all have codes, that give the same file have the same
/// coefficients.
pub proof fn law_file_determines_coefficients(
    a: Seq<Block>,
    b: Seq<Block>,
    width: u32,
    height: u32,
    quality: u32,
    t: Tables,
)
    requires
        tables_wf(t),
        a.len() == b.len(),
        forall|i: int| 0 <= i < a.len() ==> #[trigger] block_encodable(a, i, t),
        forall|i: int| 0 <= i < b.len() ==> #[trigger] block_encodable(b, i, t),
        jpeg::file_bytes(a, width, height, quality, t) == jpeg::file_bytes(
            b,
            width,
            height,
            quality,
            t,
        ),
    ensures
        forall|i: int| 0 <= i < a.len() ==> #[trigger] same_block(a[i], b[i]),
{
    lemma_behind_header(a, b, jpeg::header(width, height, quality), t);
}

/// The zigzag scan visits every place of a block once.
pub proof fn law_zigzag_is_a_permutation(i: int, j: int)
    requires
        0 <= i < j < 64,
    ensures
        jpeg::ZIGZAG@[i] < 64,
        jpeg::ZIGZAG@[j] < 64,
        jpeg::ZIGZAG@[i] != jpeg::ZIGZAG@[j],
{
}

/// How many bytes stand before the scan.
pub open spec fn header_len() -> int {
    623
}

/// However large the picture and whatever the quality, as many bytes stand before
/// the scan.
pub proof fn law_header_len(width: u32, height: u32, quality: u32)
    ensures
        jpeg::header(width, height, quality).len() == header_len(),
{
}

/// A quality brought into its range.
pub open spec fn held_quality(quality: u32) -> u32 {
    if quality < 1 {
        1
    } else if quality > 100 {
        100
    } else {
        quality
    }
}

/// A quality outside 1 to 100 gives the tables by which coefficients are divided,
/// and the file, of the nearest one inside.
pub proof fn law_quality_is_held(
    blocks: Seq<Block>,
    base: Seq<u8>,
    width: u32,
    height: u32,
    quality: u32,
)
    ensures
        jpeg::scaled_table(base, quality) == jpeg::scaled_table(base, held_quality(quality)),
        jpeg::picture_file(blocks, width, height, quality) == jpeg::picture_file(
            blocks,
            width,
            height,
            held_quality(quality),
        ),
{
    let held = held_quality(quality);
    assert(jpeg::quality_scale(quality) == jpeg::quality_scale(held));
    assert(jpeg::scaled_table(base, quality) =~= jpeg::scaled_table(base, held));
    let lum = jpeg::STD_LUM_QUANT@;
    let chr = jpeg::STD_CHR_QUANT@;
    assert(jpeg::scaled_table(lum, quality) =~= jpeg::scaled_table(lum, held));
    assert(jpeg::scaled_table(chr, quality) =~= jpeg::scaled_table(chr, held));
}

/// A side that whole blocks cover.
pub open spec fn whole_side(n: u32) -> u32 {
    (jpeg::blocks_across(n) * 8) as u32
}

/// A place, or the last one where it lies beyond.
pub open spec fn nearest(p: int, n: u32) -> int {
    if p < n {
        p
    } else {
        n - 1
    }
}

/// Where a byte of a pixel stands.
pub open spec fn byte_at(width: u32, x: int, y: int, c: int) -> int {
    (y * width + x) * 3 + c
}

/// Whether a picture is another one widened to whole blocks by repeating the
/// pixels at its right and lower edge.
pub open spec fn is_widened(rgb: Seq<u8>, width: u32, height: u32, big: Seq<u8>) -> bool {
    forall|x: int, y: int, c: int|
        0 <= x < whole_side(width) && 0 <= y < whole_side(height) && 0 <= c < 3 ==> big[
        #[trigger] byte_at(whole_side(width), x, y, c)] == rgb[byte_at(
            width,
            nearest(x, width),
            nearest(y, height),
            c,
        )]
}

proof fn lemma_same_pixels(
    rgb: Seq<u8>,
    width: u32,
    height: u32,
    big: Seq<u8>,
    bx: int,
    by: int,
    a: RgbBlock,
    b: RgbBlock,
    i: int,
)
    requires
        width <= u32::MAX - 7,
        height <= u32::MAX - 7,
        is_widened(rgb, width, height, big),
        0 <= bx < jpeg::blocks_across(width),
        0 <= by < jpeg::blocks_across(height),
        0 <= i < 64,
        jpeg::sampled(rgb, width, height, bx, by, a, i),
        jpeg::sampled(big, whole_side(width), whole_side(height), bx, by, b, i),
    ensures
        a.r@[i] == b.r@[i],
        a.g@[i] == b.g@[i],
        a.b@[i] == b.b@[i],
{
    let w = whole_side(width);
    let x = bx * 8 + i % 8;
    let y = by * 8 + i / 8;
    assert(0 <= x < w && 0 <= y < whole_side(height));
    assert(jpeg::sample_at(w, whole_side(height), bx, by, i) == byte_at(w, x, y, 0));
    assert(jpeg::sample_at(width, height, bx, by, i) == byte_at(
        width,
        nearest(x, width),
        nearest(y, height),
        0,
    ));
    assert(big[byte_at(w, x, y, 0)] == a.r@[i]);
    assert(big[byte_at(w, x, y, 1)] == a.g@[i]);
    assert(big[byte_at(w, x, y, 2)] == a.b@[i]);
}

proof fn lemma_same_cut(
    rgb: Seq<u8>,
    width: u32,
    height: u32,
    big: Seq<u8>,
    a: Seq<RgbBlock>,
    b: Seq<RgbBlock>,
    n: int,
)
    requires
        width <= u32::MAX - 7,
        height <= u32::MAX - 7,
        is_widened(rgb, width, height, big),
        jpeg::is_cut(rgb, width, height, a),
        jpeg::is_cut(big, whole_side(width), whole_side(height), b),
        0 <= n < a.len(),
        a.len() == b.len(),
    ensures
        a[n] == b[n],
{
    let across = jpeg::blocks_across(width);
    let down = jpeg::blocks_across(height);
    assert(jpeg::blocks_across(whole_side(width)) == across);
    assert(0 < across) by (nonlinear_arith)
        requires
            0 <= n < across * down,
            0 <= across,
    ;
    assert(0 <= n / across < down && 0 <= n % across < across) by (nonlinear_arith)
        requires
            0 <= n < across * down,
            0 < across,
    ;
    assert(jpeg::cut_at(rgb, width, height, a, n));
    assert(jpeg::cut_at(big, whole_side(width), whole_side(height), b, n));
    assert forall|i: int| 0 <= i < 64 implies a[n].r@[i] == b[n].r@[i] && a[n].g@[i] == b[n].g@[i]
        && a[n].b@[i] == b[n].b@[i] by {
        assert(jpeg::sampled(rgb, width, height, n % across, n / across, a[n], i));
        assert(jpeg::sampled(
            big,
            whole_side(width),
            whole_side(height),
            n % across,
            n / across,
            b[n],
            i,
        ));
        lemma_same_pixels(rgb, width, height, big, n % across, n / across, a[n], b[n], i);
    }
    assert(a[n].r@ =~= b[n].r@);
    assert(a[n].g@ =~= b[n].g@);
    assert(a[n].b@ =~= b[n].b@);
    assert(a[n].r =~= b[n].r);
    assert(a[n].g =~= b[n].g);
    assert(a[n].b =~= b[n].b);
}

/// A picture whose sides are no whole number of blocks is written as one widened
/// by repeating its edges: both have the same blocks, and whatever coefficients are
/// made of a block's pixels, the files agree from the scan on.
pub proof fn law_edges_are_repeated(
    rgb: Seq<u8>,
    width: u32,
    height: u32,
    big: Seq<u8>,
    a: Seq<RgbBlock>,
    b: Seq<RgbBlock>,
    coefficients: spec_fn(RgbBlock) -> Block,
    quality: u32,
)
    requires
        width <= u32::MAX - 7,
        height <= u32::MAX - 7,
        is_widened(rgb, width, height, big),
        jpeg::is_cut(rgb, width, height, a),
        jpeg::is_cut(big, whole_side(width), whole_side(height), b),
    ensures
        a == b,
        jpeg::picture_file(a.map_values(coefficients), width, height, quality).skip(header_len())
            == jpeg::picture_file(
            b.map_values(coefficients),
            whole_side(width),
            whole_side(height),
            quality,
        ).skip(header_len()),
{
    assert(jpeg::blocks_across(whole_side(width)) == jpeg::blocks_across(width));
    assert(jpeg::blocks_across(whole_side(height)) == jpeg::blocks_across(height));
    assert forall|n: int| 0 <= n < a.len() implies #[trigger] a[n] == b[n] by {
        lemma_same_cut(rgb, width, height, big, a, b, n);
    }
    assert(a =~= b);
    law_header_len(width, height, quality);
    law_header_len(whole_side(width), whole_side(height), quality);
    let c = a.map_values(coefficients);
    let f = jpeg::picture_file(c, width, height, quality);
    let g = jpeg::picture_file(c, whole_side(width), whole_side(height), quality);
    assert(f.skip(header_len()) =~= g.skip(header_len()));
}

} // verus!
