//! Properties relating several calls, proved over the contracts of the library.
use vstd::prelude::*;
use crate::generator::{
    Generator, LegacyGenerator, OldPaperLegacyGenerator, base_seed_for, bedrock_spec, threshold,
    valid_layer,
};
use crate::scan::{
    MatchResult, ScanConfig, query, band_size, band_count, band_end, in_band, covered, lemma_band_size_bounds,
    lemma_band_count_bounds,
};

verus! {

/// The band that sample index `i` belongs to.
pub open spec fn band_of(size: nat, i: int) -> int {
    i / (size as int)
}

/// Two generators made from the same world seed have the same base seed and
/// give the same answer at every block.
pub proof fn lemma_construction_deterministic<G: Generator>(world_seed: i64, g1: G, g2: G)
    requires
        g1.base_seed() == base_seed_for(world_seed),
        g2.base_seed() == base_seed_for(world_seed),
    ensures
        g1.base_seed() == g2.base_seed(),
        forall|x: i32, y: i32, z: i32| #[trigger] query(&g1, x, y, z) == query(&g2, x, y, z),
{
    reveal(query);
}

/// Made from the same world seed, the two generators differ only in the layer
/// the hash is taken at: the canonical decision with the hash forced to layer 0
/// is the defective generator's decision.
pub proof fn lemma_variants_differ_only_in_hash_layer(
    world_seed: i64,
    canonical: LegacyGenerator,
    defective: OldPaperLegacyGenerator,
    x: i32,
    y: i32,
    z: i32,
)
    requires
        canonical.base_seed() == base_seed_for(world_seed),
        defective.base_seed() == base_seed_for(world_seed),
    ensures
        query(&canonical, x, y, z) == bedrock_spec(base_seed_for(world_seed), x, y, y, z),
        query(&defective, x, y, z) == bedrock_spec(base_seed_for(world_seed), x, 0, y, z),
        y == 0 ==> query(&canonical, x, y, z) == query(&defective, x, y, z),
{
    reveal(query);
}

/// Lower layers take more: each layer's threshold is at least that of the layer
/// above, it is the nearest integer to 20%, 40%, 60% or 80% of the 2^24 draws,
/// and a draw that gives bedrock at a layer gives it at every lower layer.
pub proof fn lemma_threshold_monotone(base_seed: i64, x: i32, hash_y: i32, z: i32, y1: i32, y2: i32)
    requires
        valid_layer(y1),
        valid_layer(y2),
        y1 <= y2,
    ensures
        threshold(y2) <= threshold(y1),
        -5 <= 2 * (5 * threshold(y2) - (5 - y2) * 0x1000000) <= 5,
        bedrock_spec(base_seed, x, hash_y, y2, z) ==> bedrock_spec(base_seed, x, hash_y, y1, z),
{
}

/// For the defective generator, whose hash ignores the layer, the monotonicity
/// holds block by block: bedrock at a layer is bedrock at every lower layer.
pub proof fn lemma_defective_monotone_per_block(g: OldPaperLegacyGenerator, x: i32, z: i32, y1: i32, y2: i32)
    requires
        valid_layer(y1),
        valid_layer(y2),
        y1 <= y2,
    ensures
        query(&g, x, y2, z) ==> query(&g, x, y1, z),
{
    reveal(query);
    lemma_threshold_monotone(g.seed, x, 0, z, y1, y2);
}

/// Index `i` lies in band `i / size`, and in no other: for any number of
/// workers, the bands cover the `n` sample points with no gap and no overlap,
/// and there are no more bands than workers.
pub proof fn lemma_partition_complete(n: nat, workers: nat)
    requires
        workers > 0,
    ensures
        n > 0 ==> band_count(n, band_size(n, workers)) <= workers,
        forall|i: int|
            0 <= i < n ==> 0 <= #[trigger] band_of(band_size(n, workers), i) < band_count(
                n,
                band_size(n, workers),
            ) && in_band(n, band_size(n, workers), band_of(band_size(n, workers), i), i),
        forall|k: int, i: int|
            0 <= k < band_count(n, band_size(n, workers)) && #[trigger] in_band(
                n,
                band_size(n, workers),
                k,
                i,
            ) ==> 0 <= i < n && k == band_of(band_size(n, workers), i),
{
    let size = band_size(n, workers);
    if n == 0 {
        assert(size == 0);
        return;
    }
    lemma_band_size_bounds(n, workers);
    lemma_band_count_bounds(n, size);
    lemma_count_at_most_workers(n, workers);
    assert forall|i: int| 0 <= i < n implies 0 <= #[trigger] band_of(size, i) < band_count(n, size)
        && in_band(n, size, band_of(size, i), i) by {
        vstd::arithmetic::div_mod::lemma_fundamental_div_mod(i, size as int);
        let k = i / size as int;
        assert(0 <= k);
        assert(k * size <= i < (k + 1) * size) by (nonlinear_arith)
            requires
                i == size * k + (i % (size as int)),
                0 <= (i % (size as int)) < size,
        ;
        if k >= band_count(n, size) {
            assert(band_count(n, size) * size <= k * size) by (nonlinear_arith)
                requires
                    k >= band_count(n, size),
                    size >= 1,
            ;
        }
    }
    assert forall|k: int, i: int|
        0 <= k < band_count(n, size) && #[trigger] in_band(n, size, k, i) implies 0 <= i < n && k
        == band_of(size, i) by {
        assert(k * size <= i < (k + 1) * size);
        assert((k + 1) * size == k * size + size) by (nonlinear_arith);
        assert(0 <= k * size) by (nonlinear_arith)
            requires
                0 <= k,
        ;
        vstd::arithmetic::div_mod::lemma_fundamental_div_mod_converse(i, size as int, k, i - k * size);
    }
}

/// Summed over the bands, the columns reported come to the number of x sample
/// points, whatever the number of workers: each column is reported once.
pub proof fn lemma_progress_accounting(n: nat, workers: nat)
    requires
        workers > 0,
    ensures
        covered(n, band_size(n, workers), band_count(n, band_size(n, workers))) == n,
{
    let size = band_size(n, workers);
    if n == 0 {
        assert(size == 0);
        return;
    }
    lemma_band_size_bounds(n, workers);
    lemma_band_count_bounds(n, size);
    lemma_covered_prefix(n, size, band_count(n, size));
}

proof fn lemma_covered_prefix(n: nat, size: nat, k: nat)
    requires
        1 <= size,
        k <= band_count(n, size),
        (band_count(n, size) - 1) * size < n,
    ensures
        covered(n, size, k) == if k * size < n { (k * size) as int } else { n as int },
    decreases k,
{
    if k > 0 {
        lemma_covered_prefix(n, size, (k - 1) as nat);
        assert((k - 1) * size < n) by (nonlinear_arith)
            requires
                k <= band_count(n, size),
                (band_count(n, size) - 1) * size < n,
                size >= 1,
        ;
        assert((k - 1) * size + size == k * size) by (nonlinear_arith);
        assert(((k - 1) + 1) * size == k * size);
        assert(band_end(n, size, k - 1) == if k * size < n { (k * size) as int } else { n as int });
    }
}

proof fn lemma_count_at_most_workers(n: nat, w: nat)
    requires
        1 <= n,
        1 <= w,
    ensures
        band_count(n, band_size(n, w)) <= w,
{
    let size = band_size(n, w);
    lemma_band_size_bounds(n, w);
    lemma_band_count_bounds(n, size);
    vstd::arithmetic::div_mod::lemma_fundamental_div_mod(n as int, w as int);
    let c = band_count(n, size);
    assert(n <= w * size) by (nonlinear_arith)
        requires
            n == w * (n / w) + n % w,
            0 <= n % w < w,
            size == if n % w == 0 { n / w } else { n / w + 1 },
    ;
    assert(c <= w) by (nonlinear_arith)
        requires
            (c - 1) * size < n,
            n <= w * size,
            size >= 1,
    ;
}

/// A scan finds exactly what is planted: when a single sample point of the
/// range matches, with result `m`, the scan of the whole range gives `m` and
/// nothing else.
pub proof fn lemma_single_match<G: Generator>(c: ScanConfig, g: G, i0: int, j0: int, m: MatchResult)
    requires
        c.wf(),
        0 <= i0 < c.x_count(),
        0 <= j0 < c.z_count(),
        c.point_at(&g, i0, j0) == Some(m),
        forall|i: int, j: int|
            0 <= i < c.x_count() && 0 <= j < c.z_count() && !(i == i0 && j == j0)
                ==> #[trigger] c.point_at(&g, i, j) is None,
    ensures
        c.columns_between(&g, 0, c.x_count()) == seq![m],
{
    lemma_columns_single(c, g, i0, j0, m, c.x_count());
}

proof fn lemma_columns_single<G: Generator>(c: ScanConfig, g: G, i0: int, j0: int, m: MatchResult, k: nat)
    requires
        0 <= i0 < c.x_count(),
        0 <= j0 < c.z_count(),
        k <= c.x_count(),
        c.point_at(&g, i0, j0) == Some(m),
        forall|i: int, j: int|
            0 <= i < c.x_count() && 0 <= j < c.z_count() && !(i == i0 && j == j0)
                ==> #[trigger] c.point_at(&g, i, j) is None,
    ensures
        c.columns_between(&g, 0, k) == if k > i0 { seq![m] } else { Seq::<MatchResult>::empty() },
    decreases k,
{
    if k > 0 {
        lemma_columns_single(c, g, i0, j0, m, (k - 1) as nat);
        lemma_column_single(c, g, k - 1, i0, j0, m, c.z_count());
        let col = c.column_results(&g, crate::scan::sample_at(c.x_start, k - 1) as i32, c.z_count());
        if k - 1 == i0 {
            assert(Seq::<MatchResult>::empty() + col =~= seq![m]);
        } else if k - 1 > i0 {
            assert(seq![m] + col =~= seq![m]);
        } else {
            assert(Seq::<MatchResult>::empty() + col =~= Seq::<MatchResult>::empty());
        }
    }
}

proof fn lemma_column_single<G: Generator>(
    c: ScanConfig,
    g: G,
    i: int,
    i0: int,
    j0: int,
    m: MatchResult,
    n: nat,
)
    requires
        0 <= i < c.x_count(),
        0 <= j0 < c.z_count(),
        n <= c.z_count(),
        c.point_at(&g, i0, j0) == Some(m),
        forall|i: int, j: int|
            0 <= i < c.x_count() && 0 <= j < c.z_count() && !(i == i0 && j == j0)
                ==> #[trigger] c.point_at(&g, i, j) is None,
    ensures
        c.column_results(&g, crate::scan::sample_at(c.x_start, i) as i32, n) == if i == i0 && n
            > j0 {
            seq![m]
        } else {
            Seq::<MatchResult>::empty()
        },
    decreases n,
{
    if n > 0 {
        lemma_column_single(c, g, i, i0, j0, m, (n - 1) as nat);
        assert(c.point_at(&g, i, n - 1) == c.point_result(
            &g,
            crate::scan::sample_at(c.x_start, i) as i32,
            crate::scan::sample_at(c.z_start, n - 1) as i32,
        ));
        if i == i0 && n - 1 == j0 {
            assert(Seq::<MatchResult>::empty().push(m) =~= seq![m]);
        }
    }
}

} // verus!
