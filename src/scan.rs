//! Searching a rectangle of sample points for a known floor pattern.
use vstd::prelude::*;
use crate::generator::{Generator, GeneratorError, bedrock_spec, valid_layer};

verus! {

/// Spacing of the sample points on both axes.
pub const STRIDE: i32 = 16;

/// One block of a pattern: its offset from the sample point and whether it is bedrock.
#[derive(Debug, Clone, Copy, PartialEq, Eq, Structural)]
pub struct Check {
    pub dx: i32,
    pub dz: i32,
    pub expected: bool,
}

/// A pattern: blocks that must all agree, and blocks that are counted.
#[derive(Debug)]
pub struct MatchTemplate {
    pub certain: Vec<Check>,
    pub uncertain: Vec<Check>,
}

/// A sample point whose certain blocks all agree and whose count of agreeing
/// uncertain blocks, `score` out of `total`, is high enough.
#[derive(Debug, Clone, Copy, PartialEq, Eq, Structural)]
pub struct MatchResult {
    pub x: i32,
    pub z: i32,
    pub score: usize,
    pub total: usize,
}

/// A contiguous run of x sample points, by index: `start` included, `end` excluded.
#[derive(Debug, Clone, Copy, PartialEq, Eq, Structural)]
pub struct Band {
    pub start: usize,
    pub end: usize,
}

/// What makes a search configuration unusable.
#[derive(Debug, Clone, Copy, PartialEq, Eq, Structural)]
pub enum ConfigError {
    EmptyXRange,
    EmptyZRange,
    NoWorkers,
    InvalidLayer,
    ThresholdTooLarge,
    OffsetOutOfRange,
}

/// The generator's answer at a block.
#[verifier::opaque]
pub open spec fn query<G: Generator>(g: &G, x: i32, y: i32, z: i32) -> bool {
    bedrock_spec(g.base_seed(), x, G::hash_layer(y), y, z)
}

/// Whether the block of `c` relative to the sample point `(x, z)` is as expected.
pub open spec fn check_holds<G: Generator>(g: &G, c: Check, x: i32, y: i32, z: i32) -> bool {
    query(g, (x + c.dx) as i32, y, (z + c.dz) as i32) == c.expected
}

/// Whether every check holds at `(x, z)`.
pub open spec fn all_hold<G: Generator>(g: &G, checks: Seq<Check>, x: i32, y: i32, z: i32) -> bool {
    forall|i: int| 0 <= i < checks.len() ==> check_holds(g, #[trigger] checks[i], x, y, z)
}

/// How many checks hold at `(x, z)`.
pub open spec fn score_of<G: Generator>(g: &G, checks: Seq<Check>, x: i32, y: i32, z: i32) -> nat
    decreases checks.len(),
{
    if checks.len() == 0 {
        0
    } else {
        score_of(g, checks.drop_last(), x, y, z) + if check_holds(g, checks.last(), x, y, z) {
            1nat
        } else {
            0nat
        }
    }
}

/// Whether every offset of `checks`, added to any point of `[lo, hi)`, stays in `i32`.
pub open spec fn offsets_fit(checks: Seq<Check>, xlo: i32, xhi: i32, zlo: i32, zhi: i32) -> bool {
    forall|i: int|
        0 <= i < checks.len() ==> {
            let c = #[trigger] checks[i];
            i32::MIN <= xlo + c.dx && xhi - 1 + c.dx <= i32::MAX && i32::MIN <= zlo + c.dz && zhi
                - 1 + c.dz <= i32::MAX
        }
}

/// Number of sample points `lo, lo + 16, ...` below `hi`.
pub open spec fn sample_count(lo: i32, hi: i32) -> nat {
    if hi <= lo {
        0
    } else {
        ((hi - lo + 15) / 16) as nat
    }
}

/// Sample point number `i` from `lo`.
pub open spec fn sample_at(lo: i32, i: int) -> int {
    lo + 16 * i
}

/// `a / b` rounded up.
pub open spec fn ceil_div(a: nat, b: nat) -> nat {
    if a % b == 0 {
        a / b
    } else {
        a / b + 1
    }
}

/// Points in each band when `n` sample points go to `workers` workers.
pub open spec fn band_size(n: nat, workers: nat) -> nat {
    ceil_div(n, workers)
}

/// Number of bands of `size` points that hold `n` points.
pub open spec fn band_count(n: nat, size: nat) -> nat {
    if size == 0 {
        0
    } else {
        ceil_div(n, size)
    }
}

/// First index of band `k`.
pub open spec fn band_start(size: nat, k: int) -> int {
    k * size
}

/// Index after the last of band `k`: the band holds `size` points, the last one
/// what is left of `n`.
pub open spec fn band_end(n: nat, size: nat, k: int) -> int {
    if (k + 1) * size < n {
        (k + 1) * size
    } else {
        n as int
    }
}

/// Whether index `i` lies in band `k`.
pub open spec fn in_band(n: nat, size: nat, k: int, i: int) -> bool {
    band_start(size, k) <= i < band_end(n, size, k)
}

/// Points in the first `k` bands, added band by band.
pub open spec fn covered(n: nat, size: nat, k: nat) -> int
    decreases k,
{
    if k == 0 {
        0
    } else {
        covered(n, size, (k - 1) as nat) + (band_end(n, size, k - 1) - band_start(size, k - 1))
    }
}

proof fn lemma_sample_in_range(lo: i32, hi: i32, i: int)
    requires
        lo < hi,
        0 <= i < sample_count(lo, hi),
    ensures
        lo <= sample_at(lo, i) < hi,
{
    let d = hi - lo + 15;
    vstd::arithmetic::div_mod::lemma_fundamental_div_mod(d, 16);
    assert(16 * i <= 16 * (d / 16) - 16) by (nonlinear_arith)
        requires
            0 <= i < d / 16,
    ;
}

/// The checks that a search applies at every sample point, and where it looks.
pub struct ScanConfig {
    pub x_start: i32,
    pub x_end: i32,
    pub z_start: i32,
    pub z_end: i32,
    pub y: i32,
    pub workers: usize,
    pub threshold: usize,
    pub template: MatchTemplate,
}

impl ScanConfig {
    /// The configuration can be searched: both ranges nonempty, at least one
    /// worker, a valid layer, a threshold no larger than the uncertain tier, and
    /// no offset leaving `i32` from any point of the ranges.
    pub open spec fn wf(&self) -> bool {
        &&& self.x_start < self.x_end
        &&& self.z_start < self.z_end
        &&& self.workers > 0
        &&& valid_layer(self.y)
        &&& self.threshold <= self.template.uncertain@.len()
        &&& offsets_fit(self.template.certain@, self.x_start, self.x_end, self.z_start, self.z_end)
        &&& offsets_fit(self.template.uncertain@, self.x_start, self.x_end, self.z_start, self.z_end)
    }

    /// The result at sample point `(x, z)`, if it is a match.
    pub open spec fn point_result<G: Generator>(&self, g: &G, x: i32, z: i32) -> Option<MatchResult> {
        let certain = self.template.certain@;
        let uncertain = self.template.uncertain@;
        let score = score_of(g, uncertain, x, self.y, z);
        if all_hold(g, certain, x, self.y, z) && score + self.threshold >= uncertain.len() {
            Some(MatchResult { x, z, score: score as usize, total: uncertain.len() as usize })
        } else {
            None
        }
    }

    /// The matches among the first `n` sample points of column `x`, in order of z.
    pub open spec fn column_results<G: Generator>(&self, g: &G, x: i32, n: nat) -> Seq<MatchResult>
        decreases n,
    {
        if n == 0 {
            Seq::empty()
        } else {
            let prev = self.column_results(g, x, (n - 1) as nat);
            match self.point_result(g, x, sample_at(self.z_start, n - 1) as i32) {
                Some(m) => prev.push(m),
                None => prev,
            }
        }
    }

    /// The result at sample point `i` of the x axis and `j` of the z axis.
    pub open spec fn point_at<G: Generator>(&self, g: &G, i: int, j: int) -> Option<MatchResult> {
        self.point_result(g, sample_at(self.x_start, i) as i32, sample_at(self.z_start, j) as i32)
    }

    /// The matches of columns `a` up to `b` (excluded), column by column.
    pub open spec fn columns_between<G: Generator>(&self, g: &G, a: nat, b: nat) -> Seq<MatchResult>
        decreases b,
    {
        if b <= a {
            Seq::empty()
        } else {
            self.columns_between(g, a, (b - 1) as nat) + self.column_results(
                g,
                sample_at(self.x_start, b - 1) as i32,
                self.z_count(),
            )
        }
    }

    /// Number of x sample points.
    pub open spec fn x_count(&self) -> nat {
        sample_count(self.x_start, self.x_end)
    }

    /// Number of z sample points.
    pub open spec fn z_count(&self) -> nat {
        sample_count(self.z_start, self.z_end)
    }
}

/// Whether every offset of `checks` stays in `i32` from every point of the ranges.
fn offsets_within(checks: &Vec<Check>, xlo: i32, xhi: i32, zlo: i32, zhi: i32) -> (r: bool)
    ensures
        r == offsets_fit(checks@, xlo, xhi, zlo, zhi),
{
    let mut i: usize = 0;
    while i < checks.len()
        invariant
            i <= checks@.len(),
            offsets_fit(checks@.take(i as int), xlo, xhi, zlo, zhi),
        decreases checks@.len() - i,
    {
        let c = checks[i];
        let ok = xlo as i64 + c.dx as i64 >= i32::MIN as i64 && xhi as i64 - 1 + c.dx as i64
            <= i32::MAX as i64 && zlo as i64 + c.dz as i64 >= i32::MIN as i64 && zhi as i64 - 1
            + c.dz as i64 <= i32::MAX as i64;
        if !ok {
            assert(!offsets_fit(checks@, xlo, xhi, zlo, zhi)) by {
                assert(checks@[i as int] == c);
            }
            return false;
        }
        proof {
            assert forall|j: int| 0 <= j < i + 1 implies {
                let d = #[trigger] checks@.take(i + 1)[j];
                i32::MIN <= xlo + d.dx && xhi - 1 + d.dx <= i32::MAX && i32::MIN <= zlo + d.dz
                    && zhi - 1 + d.dz <= i32::MAX
            } by {
                if j < i {
                    assert(checks@.take(i + 1)[j] == checks@.take(i as int)[j]);
                }
            }
        }
        i += 1;
    }
    assert(checks@.take(i as int) =~= checks@);
    true
}

/// The generator's answer at a block, on a valid layer.
fn probe<G: Generator>(g: &G, x: i32, y: i32, z: i32) -> (r: bool)
    requires
        valid_layer(y),
    ensures
        r == query(g, x, y, z),
{
    reveal(query);
    match g.is_bedrock(x, y, z) {
        Ok(b) => b,
        Err(GeneratorError::InvalidLayer { .. }) => false,
    }
}

/// Number of sample points `lo, lo + 16, ...` below `hi`.
pub fn samples_in(lo: i32, hi: i32) -> (r: usize)
    ensures
        r == sample_count(lo, hi),
{
    if hi <= lo {
        0
    } else {
        let d: i64 = hi as i64 - lo as i64 + 15;
        (d / 16) as usize
    }
}

/// Whether every offset of `checks` stays in `i32` from the point `(x, z)`.
pub open spec fn fits_at(checks: Seq<Check>, x: i32, z: i32) -> bool {
    forall|i: int|
        0 <= i < checks.len() ==> {
            let c = #[trigger] checks[i];
            i32::MIN <= x + c.dx <= i32::MAX && i32::MIN <= z + c.dz <= i32::MAX
        }
}

proof fn lemma_fits_at(checks: Seq<Check>, xlo: i32, xhi: i32, zlo: i32, zhi: i32, x: i32, z: i32)
    requires
        offsets_fit(checks, xlo, xhi, zlo, zhi),
        xlo <= x < xhi,
        zlo <= z < zhi,
    ensures
        fits_at(checks, x, z),
{
    assert forall|i: int| 0 <= i < checks.len() implies {
        let c = #[trigger] checks[i];
        i32::MIN <= x + c.dx <= i32::MAX && i32::MIN <= z + c.dz <= i32::MAX
    } by {
        let c = checks[i];
        assert(i32::MIN <= xlo + c.dx && xhi - 1 + c.dx <= i32::MAX);
        assert(i32::MIN <= zlo + c.dz && zhi - 1 + c.dz <= i32::MAX);
    }
}

/// Whether every certain check holds at `(x, z)`; those expected to be bedrock
/// are tried first, and the first that fails ends the search.
fn certain_tier_holds<G: Generator>(g: &G, checks: &Vec<Check>, x: i32, y: i32, z: i32) -> (r: bool)
    requires
        valid_layer(y),
        fits_at(checks@, x, z),
    ensures
        r == all_hold(g, checks@, x, y, z),
{
    let mut pass: usize = 0;
    while pass < 2
        invariant
            valid_layer(y),
            fits_at(checks@, x, z),
            pass <= 2,
            forall|j: int|
                0 <= j < checks@.len() && (pass >= 2 || (pass >= 1 && checks@[j].expected))
                    ==> check_holds(g, #[trigger] checks@[j], x, y, z),
        decreases 2 - pass,
    {
        let want = pass == 0;
        let mut i: usize = 0;
        while i < checks.len()
            invariant
                valid_layer(y),
                fits_at(checks@, x, z),
                pass < 2,
                want == (pass == 0),
                i <= checks@.len(),
                forall|j: int|
                    0 <= j < checks@.len() && (pass >= 1 && checks@[j].expected) ==> check_holds(
                        g,
                        #[trigger] checks@[j],
                        x,
                        y,
                        z,
                    ),
                forall|j: int|
                    0 <= j < i && checks@[j].expected == want ==> check_holds(
                        g,
                        #[trigger] checks@[j],
                        x,
                        y,
                        z,
                    ),
            decreases checks@.len() - i,
        {
            let c = checks[i];
            assert(checks@[i as int] == c);
            if c.expected == want {
                let b = probe(g, x + c.dx, y, z + c.dz);
                if b != c.expected {
                    assert(!check_holds(g, checks@[i as int], x, y, z));
                    return false;
                }
            }
            i += 1;
        }
        pass += 1;
    }
    true
}

/// How many of `checks` hold at `(x, z)`.
fn uncertain_score<G: Generator>(g: &G, checks: &Vec<Check>, x: i32, y: i32, z: i32) -> (r: usize)
    requires
        valid_layer(y),
        fits_at(checks@, x, z),
    ensures
        r == score_of(g, checks@, x, y, z),
        r <= checks@.len(),
{
    let mut score: usize = 0;
    let mut i: usize = 0;
    while i < checks.len()
        invariant
            valid_layer(y),
            fits_at(checks@, x, z),
            i <= checks@.len(),
            score == score_of(g, checks@.take(i as int), x, y, z),
            score <= i,
        decreases checks@.len() - i,
    {
        let c = checks[i];
        assert(checks@[i as int] == c);
        let b = probe(g, x + c.dx, y, z + c.dz);
        assert(checks@.take(i + 1).drop_last() =~= checks@.take(i as int));
        if b == c.expected {
            score += 1;
        }
        i += 1;
    }
    assert(checks@.take(i as int) =~= checks@);
    score
}

impl ScanConfig {
    /// Checks a configuration and makes it, or says the first thing wrong with it.
    pub fn new(
        x_start: i32,
        x_end: i32,
        z_start: i32,
        z_end: i32,
        y: i32,
        workers: usize,
        threshold: usize,
        template: MatchTemplate,
    ) -> (r: Result<ScanConfig, ConfigError>)
        ensures
            x_end <= x_start ==> r == Err::<ScanConfig, ConfigError>(ConfigError::EmptyXRange),
            x_start < x_end && z_end <= z_start ==> r == Err::<ScanConfig, ConfigError>(
                ConfigError::EmptyZRange,
            ),
            x_start < x_end && z_start < z_end && workers == 0 ==> r == Err::<
                ScanConfig,
                ConfigError,
            >(ConfigError::NoWorkers),
            x_start < x_end && z_start < z_end && workers > 0 && !valid_layer(y) ==> r == Err::<
                ScanConfig,
                ConfigError,
            >(ConfigError::InvalidLayer),
            x_start < x_end && z_start < z_end && workers > 0 && valid_layer(y) && threshold
                > template.uncertain@.len() ==> r == Err::<ScanConfig, ConfigError>(
                ConfigError::ThresholdTooLarge,
            ),
            x_start < x_end && z_start < z_end && workers > 0 && valid_layer(y) && threshold
                <= template.uncertain@.len() && !(offsets_fit(
                template.certain@,
                x_start,
                x_end,
                z_start,
                z_end,
            ) && offsets_fit(template.uncertain@, x_start, x_end, z_start, z_end)) ==> r == Err::<
                ScanConfig,
                ConfigError,
            >(ConfigError::OffsetOutOfRange),
            x_start < x_end && z_start < z_end && workers > 0 && valid_layer(y) && threshold
                <= template.uncertain@.len() && offsets_fit(
                template.certain@,
                x_start,
                x_end,
                z_start,
                z_end,
            ) && offsets_fit(template.uncertain@, x_start, x_end, z_start, z_end) ==> r is Ok,
            r is Ok ==> {
                let c = r->Ok_0;
                &&& c.wf()
                &&& c.x_start == x_start && c.x_end == x_end
                &&& c.z_start == z_start && c.z_end == z_end
                &&& c.y == y && c.workers == workers && c.threshold == threshold
                &&& c.template.certain@ == template.certain@
                &&& c.template.uncertain@ == template.uncertain@
            },
    {
        if x_end <= x_start {
            return Err(ConfigError::EmptyXRange);
        }
        if z_end <= z_start {
            return Err(ConfigError::EmptyZRange);
        }
        if workers == 0 {
            return Err(ConfigError::NoWorkers);
        }
        if y < 1 || y > 4 {
            return Err(ConfigError::InvalidLayer);
        }
        if threshold > template.uncertain.len() {
            return Err(ConfigError::ThresholdTooLarge);
        }
        if !offsets_within(&template.certain, x_start, x_end, z_start, z_end) || !offsets_within(
            &template.uncertain,
            x_start,
            x_end,
            z_start,
            z_end,
        ) {
            return Err(ConfigError::OffsetOutOfRange);
        }
        Ok(ScanConfig { x_start, x_end, z_start, z_end, y, workers, threshold, template })
    }

    /// Evaluates the template at sample point `(x, z)`: the certain tier first,
    /// checks expected to be bedrock before the others, stopping at the first
    /// disagreement; then the score of the uncertain tier.
    pub fn evaluate_point<G: Generator>(&self, g: &G, x: i32, z: i32) -> (r: Option<MatchResult>)
        requires
            self.wf(),
            self.x_start <= x < self.x_end,
            self.z_start <= z < self.z_end,
        ensures
            r == self.point_result(g, x, z),
    {
        proof {
            lemma_fits_at(self.template.certain@, self.x_start, self.x_end, self.z_start, self.z_end, x, z);
            lemma_fits_at(self.template.uncertain@, self.x_start, self.x_end, self.z_start, self.z_end, x, z);
        }
        if !certain_tier_holds(g, &self.template.certain, x, self.y, z) {
            return None;
        }
        let score = uncertain_score(g, &self.template.uncertain, x, self.y, z);
        if score >= self.template.uncertain.len() - self.threshold {
            Some(MatchResult { x, z, score, total: self.template.uncertain.len() })
        } else {
            None
        }
    }
}

impl ScanConfig {
    /// Number of x sample points.
    pub fn x_samples(&self) -> (r: usize)
        ensures
            r == self.x_count(),
    {
        samples_in(self.x_start, self.x_end)
    }

    /// Number of z sample points.
    pub fn z_samples(&self) -> (r: usize)
        ensures
            r == self.z_count(),
    {
        samples_in(self.z_start, self.z_end)
    }

    /// The x coordinate of sample point `i`.
    pub fn x_at(&self, i: usize) -> (r: i32)
        requires
            self.x_start < self.x_end,
            i < self.x_count(),
        ensures
            r == sample_at(self.x_start, i as int),
    {
        proof {
            lemma_sample_in_range(self.x_start, self.x_end, i as int);
        }
        (self.x_start as i64 + STRIDE as i64 * i as i64) as i32
    }

    /// Scans the column at `x`: every z sample point, in order, and the matches found.
    pub fn scan_column<G: Generator>(&self, g: &G, x: i32) -> (r: Vec<MatchResult>)
        requires
            self.wf(),
            self.x_start <= x < self.x_end,
        ensures
            r@ == self.column_results(g, x, self.z_count()),
    {
        let n = self.z_samples();
        let mut found: Vec<MatchResult> = Vec::new();
        let mut i: usize = 0;
        while i < n
            invariant
                self.wf(),
                self.x_start <= x < self.x_end,
                n == self.z_count(),
                i <= n,
                found@ == self.column_results(g, x, i as nat),
            decreases n - i,
        {
            proof {
                lemma_sample_in_range(self.z_start, self.z_end, i as int);
            }
            let z = (self.z_start as i64 + STRIDE as i64 * i as i64) as i32;
            match self.evaluate_point(g, x, z) {
                Some(m) => found.push(m),
                None => {},
            }
            i += 1;
        }
        found
    }

    /// Progress that one scanned column stands for: its number of sample points.
    pub fn column_progress(&self) -> (r: u64)
        ensures
            r == self.z_count(),
    {
        self.z_samples() as u64
    }

    /// Progress of the whole scan: every sample point.
    pub fn total_progress(&self) -> (r: u64)
        ensures
            r == self.x_count() * self.z_count(),
    {
        let a = self.x_samples() as u64;
        let b = self.z_samples() as u64;
        proof {
            lemma_sample_count_bound(self.x_start, self.x_end);
            lemma_sample_count_bound(self.z_start, self.z_end);
            assert(a * b <= 0x10000001 * 0x10000001) by (nonlinear_arith)
                requires
                    a <= 0x10000001,
                    b <= 0x10000001,
            ;
        }
        a * b
    }

    /// Splits the x sample points into contiguous bands, one per worker at most:
    /// each holds `ceil(n / workers)` points, the last what is left.
    pub fn partition_bands(&self) -> (r: Vec<Band>)
        requires
            self.wf(),
        ensures
            r@.len() == band_count(self.x_count(), band_size(self.x_count(), self.workers as nat)),
            forall|k: int|
                0 <= k < r@.len() ==> {
                    let size = band_size(self.x_count(), self.workers as nat);
                    &&& (#[trigger] r@[k]).start == band_start(size, k)
                    &&& r@[k].end == band_end(self.x_count(), size, k)
                },
    {
        let n = self.x_samples();
        let w = self.workers;
        proof {
            lemma_sample_count_bound(self.x_start, self.x_end);
            lemma_sample_count_positive(self.x_start, self.x_end);
        }
        let size = if n % w == 0 { n / w } else { n / w + 1 };
        proof {
            lemma_band_size_bounds(n as nat, w as nat);
        }
        let count = if n % size == 0 { n / size } else { n / size + 1 };
        proof {
            lemma_band_count_bounds(n as nat, size as nat);
        }
        let mut bands: Vec<Band> = Vec::new();
        let mut k: usize = 0;
        while k < count
            invariant
                n == self.x_count(),
                size == band_size(n as nat, w as nat),
                w == self.workers,
                1 <= size <= n <= 0x10000001,
                count == band_count(n as nat, size as nat),
                (count - 1) * size < n,
                k <= count,
                bands@.len() == k,
                forall|j: int|
                    0 <= j < k ==> {
                        &&& (#[trigger] bands@[j]).start == band_start(size as nat, j)
                        &&& bands@[j].end == band_end(n as nat, size as nat, j)
                    },
            decreases count - k,
        {
            assert(k * size <= (count - 1) * size) by (nonlinear_arith)
                requires
                    k < count,
            ;
            assert((k + 1) * size <= n + size) by (nonlinear_arith)
                requires
                    k * size < n,
            ;
            let start = k * size;
            let end = if (k + 1) * size < n { (k + 1) * size } else { n };
            bands.push(Band { start, end });
            k += 1;
        }
        bands
    }
}

proof fn lemma_sample_count_bound(lo: i32, hi: i32)
    ensures
        sample_count(lo, hi) <= 0x10000001,
{
}

proof fn lemma_sample_count_positive(lo: i32, hi: i32)
    requires
        lo < hi,
    ensures
        sample_count(lo, hi) >= 1,
{
}

pub(crate) proof fn lemma_band_size_bounds(n: nat, w: nat)
    requires
        1 <= n,
        1 <= w,
    ensures
        1 <= band_size(n, w) <= n,
{
    vstd::arithmetic::div_mod::lemma_fundamental_div_mod(n as int, w as int);
    if n % w == 0 {
        assert(n / w >= 1) by (nonlinear_arith)
            requires
                n == w * (n / w),
                n >= 1,
                w >= 1,
        ;
        assert(n / w <= n) by (nonlinear_arith)
            requires
                n == w * (n / w),
                w >= 1,
                n / w >= 0,
        ;
    } else {
        assert(n / w < n) by (nonlinear_arith)
            requires
                n == w * (n / w) + n % w,
                n % w > 0,
                w >= 1,
                n / w >= 0,
        ;
    }
}

pub(crate) proof fn lemma_band_count_bounds(n: nat, size: nat)
    requires
        1 <= size <= n,
    ensures
        1 <= band_count(n, size),
        (band_count(n, size) - 1) * size < n,
        n <= band_count(n, size) * size,
{
    vstd::arithmetic::div_mod::lemma_fundamental_div_mod(n as int, size as int);
    let q = n / size;
    let m = n % size;
    assert(q >= 1) by (nonlinear_arith)
        requires
            n == size * q + m,
            0 <= m < size,
            size <= n,
            q >= 0,
    ;
    if m == 0 {
        assert((q - 1) * size < n && n <= q * size) by (nonlinear_arith)
            requires
                n == size * q,
                size >= 1,
        ;
    } else {
        assert(q * size < n && n <= (q + 1) * size) by (nonlinear_arith)
            requires
                n == size * q + m,
                0 < m < size,
        ;
    }
}

/// The sum of a sequence of increments.
pub open spec fn total_of(s: Seq<u64>) -> int
    decreases s.len(),
{
    if s.len() == 0 {
        0
    } else {
        total_of(s.drop_last()) + s.last()
    }
}

/// Increments that are all `c` add up to `c` times their number.
pub proof fn lemma_total_of_constant(s: Seq<u64>, c: int)
    requires
        forall|i: int| 0 <= i < s.len() ==> s[i] == c,
    ensures
        total_of(s) == s.len() * c,
    decreases s.len(),
{
    if s.len() > 0 {
        lemma_total_of_constant(s.drop_last(), c);
        assert((s.len() - 1) * c + c == s.len() * c) by (nonlinear_arith);
    }
}

/// What a whole scan gives: the matches, and the progress increments in the
/// order the columns were finished.
#[derive(Debug)]
pub struct ScanReport {
    pub results: Vec<MatchResult>,
    pub increments: Vec<u64>,
}

proof fn lemma_columns_join<G: Generator>(c: &ScanConfig, g: &G, a: nat, b: nat, d: nat)
    requires
        a <= b <= d,
    ensures
        c.columns_between(g, a, b) + c.columns_between(g, b, d) == c.columns_between(g, a, d),
    decreases d,
{
    if d == b {
        assert(c.columns_between(g, a, b) + Seq::<MatchResult>::empty() =~= c.columns_between(g, a, b));
    } else {
        lemma_columns_join(c, g, a, b, (d - 1) as nat);
        let col = c.column_results(g, sample_at(c.x_start, d - 1) as i32, c.z_count());
        assert(c.columns_between(g, a, b) + (c.columns_between(g, b, (d - 1) as nat) + col) =~= (
        c.columns_between(g, a, b) + c.columns_between(g, b, (d - 1) as nat)) + col);
    }
}

impl ScanConfig {
    /// Scans the columns of `band`, appending their matches to `results` and one
    /// increment per finished column, the column's number of sample points, to
    /// `increments`.
    pub fn scan_band<G: Generator>(
        &self,
        g: &G,
        band: Band,
        results: &mut Vec<MatchResult>,
        increments: &mut Vec<u64>,
    )
        requires
            self.wf(),
            band.start <= band.end <= self.x_count(),
        ensures
            final(results)@ == old(results)@ + self.columns_between(
                g,
                band.start as nat,
                band.end as nat,
            ),
            final(increments)@.len() == old(increments)@.len() + (band.end - band.start),
            forall|i: int|
                0 <= i < old(increments)@.len() ==> final(increments)@[i] == old(increments)@[i],
            forall|i: int|
                old(increments)@.len() <= i < final(increments)@.len() ==> final(increments)@[i]
                    == self.z_count(),
    {
        let step = self.column_progress();
        let mut i: usize = band.start;
        while i < band.end
            invariant
                self.wf(),
                band.start <= i <= band.end <= self.x_count(),
                step == self.z_count(),
                results@ == old(results)@ + self.columns_between(g, band.start as nat, i as nat),
                increments@.len() == old(increments)@.len() + (i - band.start),
                forall|k: int|
                    0 <= k < old(increments)@.len() ==> increments@[k] == old(increments)@[k],
                forall|k: int|
                    old(increments)@.len() <= k < increments@.len() ==> increments@[k]
                        == self.z_count(),
            decreases band.end - i,
        {
            let x = self.x_at(i);
            proof {
                lemma_sample_in_range(self.x_start, self.x_end, i as int);
            }
            let column = self.scan_column(g, x);
            let ghost before = results@;
            let mut column = column;
            results.append(&mut column);
            assert(results@ =~= old(results)@ + self.columns_between(g, band.start as nat, (i + 1) as nat));
            increments.push(step);
            i += 1;
        }
    }

    /// Scans the whole range band by band, as the workers would, and gathers
    /// the matches and the progress increments.
    pub fn scan<G: Generator>(&self, g: &G) -> (r: ScanReport)
        requires
            self.wf(),
        ensures
            r.results@ == self.columns_between(g, 0, self.x_count()),
            r.increments@.len() == self.x_count(),
            forall|i: int| 0 <= i < r.increments@.len() ==> r.increments@[i] == self.z_count(),
            total_of(r.increments@) == self.x_count() * self.z_count(),
    {
        let bands = self.partition_bands();
        let ghost n = self.x_count();
        let ghost size = band_size(n, self.workers as nat);
        proof {
            lemma_sample_count_bound(self.x_start, self.x_end);
            lemma_sample_count_positive(self.x_start, self.x_end);
            lemma_band_size_bounds(n, self.workers as nat);
            lemma_band_count_bounds(n, size);
        }
        let mut results: Vec<MatchResult> = Vec::new();
        let mut increments: Vec<u64> = Vec::new();
        let mut k: usize = 0;
        while k < bands.len()
            invariant
                self.wf(),
                n == self.x_count(),
                1 <= size <= n,
                size == band_size(n, self.workers as nat),
                bands@.len() == band_count(n, size),
                (band_count(n, size) - 1) * size < n,
                n <= band_count(n, size) * size,
                forall|j: int|
                    0 <= j < bands@.len() ==> {
                        &&& (#[trigger] bands@[j]).start == band_start(size, j)
                        &&& bands@[j].end == band_end(n, size, j)
                    },
                k <= bands@.len(),
                results@ == self.columns_between(g, 0, band_end(n, size, k - 1) as nat),
                k < bands@.len() ==> k * size < n,
                k > 0 ==> band_end(n, size, k - 1) == if k * size < n { (k * size) as int } else { n as int },
                k == 0 ==> band_end(n, size, k - 1) == 0,
                increments@.len() == band_end(n, size, k - 1),
                forall|i: int| 0 <= i < increments@.len() ==> increments@[i] == self.z_count(),
            decreases bands@.len() - k,
        {
            let band = bands[k];
            assert(k * size <= (bands@.len() - 1) * size) by (nonlinear_arith)
                requires
                    k < bands@.len(),
            ;
            assert((k + 1) * size == k * size + size) by (nonlinear_arith);
            proof {
                lemma_columns_join(self, g, 0, band.start as nat, band.end as nat);
            }
            self.scan_band(g, band, &mut results, &mut increments);
            if k + 1 < bands.len() {
                assert((k + 1) * size <= (bands@.len() - 1) * size) by (nonlinear_arith)
                    requires
                        k + 1 < bands@.len(),
                ;
            } else {
                assert(bands@.len() * size == (k + 1) * size);
            }
            assert(band_end(n, size, (k + 1) - 1) == band_end(n, size, k as int));
            k += 1;
        }
        assert(band_end(n, size, k - 1) == n);
        proof {
            lemma_total_of_constant(increments@, self.z_count() as int);
        }
        ScanReport { results, increments }
    }
}

/// A progress counter: increments come in, and the consumer asks whether the
/// total is reached.
pub struct Progress {
    pub completed: u64,
    pub total: u64,
}

impl Progress {
    /// A counter with nothing completed.
    pub fn new(total: u64) -> (r: Progress)
        ensures
            r.completed == 0,
            r.total == total,
    {
        Progress { completed: 0, total }
    }

    /// Adds an increment, holding at `u64::MAX` rather than wrapping.
    pub fn update(&mut self, n: u64)
        ensures
            final(self).total == old(self).total,
            final(self).completed == if old(self).completed + n > u64::MAX {
                u64::MAX as int
            } else {
                old(self).completed + n
            },
    {
        self.completed = self.completed.saturating_add(n);
    }

    /// Whether the total is reached.
    pub fn is_complete(&self) -> (r: bool)
        ensures
            r == (self.completed >= self.total),
    {
        self.completed >= self.total
    }
}

} // verus!
