//! The work that the cost model counts. Times come from it by dividing by measured rates.

use vstd::prelude::*;

use crate::cost::{
    default_variant, dims_fit, lemma_cascade_is_not_beaten, lemma_modelled_rate, modelled_rate,
    picked, shape_allows, variant_rate, well_served, KernelRates, MetalHwModel, RateBase,
    SgemmSettings, SgemmVariant,
};

verus! {

/// The work of a matrix product, and the rate that it is done at: a measured one, times a factor
/// in tenths. Its time in nanoseconds is the work by the rate times a billion, and one dispatch.
#[derive(Clone, Copy, Debug, PartialEq, Eq, Structural)]
pub struct ProductCost {
    pub flops: u128,
    pub base: RateBase,
    pub tenths: u32,
}

/// Additions and multiplications of a product.
pub open spec fn product_work(m: int, k: int, n: int) -> int {
    2 * (m * k * n)
}

pub open spec fn product_cost(
    hw: MetalHwModel,
    s: SgemmSettings,
    m: int,
    k: int,
    n: int,
) -> ProductCost {
    let (base, tenths) = variant_rate(picked(hw, s, m, k, n), m, n);
    ProductCost { flops: product_work(m, k, n) as u128, base, tenths }
}

/// The work of one forward pass of a transformer.
#[derive(Clone, Copy, Debug, PartialEq, Eq, Structural)]
pub struct ForwardCost {
    /// The projection to queries, keys and values, the one behind attention, and the two of the
    /// feed-forward part.
    pub qkv: ProductCost,
    pub out: ProductCost,
    pub fc1: ProductCost,
    pub fc2: ProductCost,
    /// Operations of attention: two products over all pairs of tokens.
    pub attention_flops: u128,
    /// Dispatches besides those of the products: one for attention, four for the rest.
    pub dispatches: u64,
    pub layers: usize,
}

pub open spec fn attention_work(batch: int, seq: int, hidden: int) -> int {
    4 * (batch * (seq * seq) * hidden)
}

/// The work of a forward pass. It does not depend on how many heads the hidden width is cut into.
pub open spec fn forward_cost(
    hw: MetalHwModel,
    s: SgemmSettings,
    batch: int,
    seq: int,
    hidden: int,
    intermediate: int,
    num_layers: usize,
) -> ForwardCost {
    ForwardCost {
        qkv: product_cost(hw, s, batch * seq, hidden, 3 * hidden),
        out: product_cost(hw, s, batch * seq, hidden, hidden),
        fc1: product_cost(hw, s, batch * seq, hidden, intermediate),
        fc2: product_cost(hw, s, batch * seq, intermediate, hidden),
        attention_flops: attention_work(batch, seq, hidden) as u128,
        dispatches: 5,
        layers: num_layers,
    }
}

/// Where the projections can be counted in 64 bits, attention can be in 128.
proof fn lemma_attention_countable(batch: usize, seq: usize, hidden: usize)
    requires
        batch * seq <= usize::MAX,
        dims_fit((batch * seq) as usize, hidden, (3 * hidden) as usize),
        3 * hidden <= usize::MAX,
    ensures
        0 <= (batch * seq) * hidden <= u128::MAX,
        0 <= (batch * seq) * hidden * seq,
        4 * ((batch * seq) * hidden * seq) <= u128::MAX,
        attention_work(batch as int, seq as int, hidden as int) == 4 * ((batch * seq) * hidden
            * seq),
{
    let m = batch * seq;
    let h = hidden as int;
    let s = seq as int;
    let b = batch as int;
    assert(4 * (b * (s * s) * h) == 4 * ((b * s) * h * s)) by (nonlinear_arith);
    if h == 0 || b == 0 {
        assert(m * h == 0 && m * h * s == 0) by (nonlinear_arith)
            requires
                h == 0 || b == 0,
                m == b * s,
        ;
    } else {
        assert(s <= m) by (nonlinear_arith)
            requires
                m == b * s,
                b >= 1,
                s >= 0,
        ;
        assert(m * h * (3 * h) >= 3 * m && m * h * (3 * h) >= 3 * (m * h) && 0 <= m * h)
            by (nonlinear_arith)
            requires
                m >= 0,
                h >= 1,
        ;
        let p = m * h;
        assert(0 <= p * s && 9 * (p * s) <= 0xffff_ffff_ffff_ffff * 0xffff_ffff_ffff_ffff)
            by (nonlinear_arith)
            requires
                0 <= p,
                3 * p <= 0xffff_ffff_ffff_ffff,
                0 <= s,
                3 * s <= 0xffff_ffff_ffff_ffff,
        ;
    }
}

impl MetalHwModel {
    pub fn sgemm_cost(&self, s: &SgemmSettings, m: usize, k: usize, n: usize) -> (r: ProductCost)
        requires
            dims_fit(m, k, n),
        ensures
            r == product_cost(*self, *s, m as int, k as int, n as int),
    {
        let (base, tenths) = self.sgemm_variant_rate(self.pick_sgemm(s, m, k, n), m, n);
        assert(m * k <= 0xffff_ffff_ffff_ffff * 0xffff_ffff_ffff_ffff && 0 <= m * k * n)
            by (nonlinear_arith)
            requires
                m <= 0xffff_ffff_ffff_ffff,
                k <= 0xffff_ffff_ffff_ffff,
        ;
        ProductCost { flops: 2 * ((m as u128) * (k as u128) * (n as u128)), base, tenths }
    }

    /// The work of a forward pass, in parts. The heads together are as wide as the hidden layer,
    /// so their number makes no difference.
    pub fn transformer_forward_cost(
        &self,
        s: &SgemmSettings,
        batch: usize,
        seq: usize,
        hidden: usize,
        intermediate: usize,
        num_heads: usize,
        num_layers: usize,
    ) -> (r: ForwardCost)
        requires
            batch * seq <= usize::MAX,
            3 * hidden <= usize::MAX,
            dims_fit((batch * seq) as usize, hidden, (3 * hidden) as usize),
            dims_fit((batch * seq) as usize, hidden, hidden),
            dims_fit((batch * seq) as usize, hidden, intermediate),
            dims_fit((batch * seq) as usize, intermediate, hidden),
        ensures
            r == forward_cost(
                *self,
                *s,
                batch as int,
                seq as int,
                hidden as int,
                intermediate as int,
                num_layers,
            ),
            r.attention_flops == attention_work(batch as int, seq as int, hidden as int),
    {
        let m: usize = batch * seq;
        proof {
            lemma_attention_countable(batch, seq, hidden);
        }
        ForwardCost {
            qkv: self.sgemm_cost(s, m, hidden, 3 * hidden),
            out: self.sgemm_cost(s, m, hidden, hidden),
            fc1: self.sgemm_cost(s, m, hidden, intermediate),
            fc2: self.sgemm_cost(s, m, intermediate, hidden),
            attention_flops: 4 * ((m as u128) * (hidden as u128) * (seq as u128)),
            dispatches: 5,
            layers: num_layers,
        }
    }
}

/// A time in nanoseconds, as a fraction.
pub struct Nanos {
    pub num: int,
    pub den: int,
}

/// What was measured on a device: the rates of the product kernels and of attention, in operations
/// per second, and the overheads of a dispatch and of a round trip, in nanoseconds.
pub struct Measured {
    pub kernels: KernelRates,
    pub attention: int,
    pub dispatch: int,
    pub roundtrip: int,
}

pub open spec fn sum_of(a: Nanos, b: Nanos) -> Nanos {
    Nanos { num: a.num * b.den + b.num * a.den, den: a.den * b.den }
}

/// The first time is at most the second times `num / den`.
pub open spec fn within_factor(a: Nanos, b: Nanos, num: int, den: int) -> bool {
    den * (a.num * b.den) <= num * (b.num * a.den)
}

/// Work that is done at a rate, in tenths of an operation per second, behind one dispatch: a second
/// has a billion nanoseconds.
pub open spec fn work_time(flops: int, tenths: int, dispatch: int) -> Nanos {
    Nanos { num: flops * 10_000_000_000 + dispatch * tenths, den: tenths }
}

/// The rate of a product, in tenths of the unit that its base is measured in.
pub open spec fn rate_of(c: ProductCost, r: KernelRates) -> int {
    match c.base {
        RateBase::Simd4x4 => r.simd_4x4 * c.tenths,
        RateBase::Simd => r.simd * c.tenths,
        RateBase::Padded => r.padded * c.tenths,
        RateBase::Tiled => r.tiled * c.tenths,
    }
}

pub open spec fn product_time(c: ProductCost, r: KernelRates, dispatch: int) -> Nanos {
    work_time(c.flops as int, rate_of(c, r), dispatch)
}

/// The time of one layer besides its products: attention, and the other dispatches.
pub open spec fn rest_time(c: ForwardCost, d: Measured) -> Nanos {
    Nanos {
        num: c.attention_flops * 1_000_000_000 + c.dispatches * (d.dispatch * d.attention),
        den: d.attention,
    }
}

pub open spec fn layer_time(c: ForwardCost, d: Measured) -> Nanos {
    sum_of(
        sum_of(
            sum_of(
                product_time(c.qkv, d.kernels, d.dispatch),
                product_time(c.out, d.kernels, d.dispatch),
            ),
            sum_of(
                product_time(c.fc1, d.kernels, d.dispatch),
                product_time(c.fc2, d.kernels, d.dispatch),
            ),
        ),
        rest_time(c, d),
    )
}

/// The layers one behind the other, and one round trip.
pub open spec fn forward_time(c: ForwardCost, d: Measured) -> Nanos {
    let layer = layer_time(c, d);
    Nanos { num: c.layers * layer.num + d.roundtrip * layer.den, den: layer.den }
}

/// A product takes its work by the rate of the kernel that is picked for it, and one dispatch.
/// Beyond the dispatch, its time grows in proportion to the work.
pub proof fn lemma_product_time(
    hw: MetalHwModel,
    s: SgemmSettings,
    m: int,
    k: int,
    n: int,
    r: KernelRates,
    dispatch: int,
    by: int,
)
    requires
        0 <= product_work(m, k, n) <= u128::MAX,
    ensures
        ({
            let rate = modelled_rate(r, picked(hw, s, m, k, n), m, n);
            let work = product_work(m, k, n);
            let t = product_time(product_cost(hw, s, m, k, n), r, dispatch);
            &&& t.den == rate
            &&& t.num - dispatch * rate == work * 10_000_000_000
            &&& work_time(by * work, rate, dispatch).num - dispatch * rate == by * (t.num - dispatch
                * rate)
        }),
{
    let work = product_work(m, k, n);
    assert((by * work) * 10_000_000_000 == by * (work * 10_000_000_000)) by (nonlinear_arith);
}

/// No kernel on the device that the shape allows would make a product clearly cheaper: the time of
/// the pick is at most one and a half times that of any other, wherever the cascade decides, as
/// long as the simpler kernels are not much faster than the more demanding ones.
pub proof fn lemma_pick_is_not_much_slower(
    hw: MetalHwModel,
    s: SgemmSettings,
    m: int,
    k: int,
    n: int,
    c: SgemmVariant,
    r: KernelRates,
    dispatch: int,
)
    requires
        0 <= m,
        0 <= k,
        0 <= n,
        product_work(m, k, n) <= u128::MAX,
        s.pin is None,
        s.table is None,
        well_served(hw, s, m, k, n),
        shape_allows(c, m, k, n),
        c != SgemmVariant::Mps && c != SgemmVariant::Simd64SplitK,
        0 < r.tiled,
        0 < r.padded,
        0 < r.simd,
        r.simd_4x4 >= r.simd,
        r.simd_4x4 >= r.padded,
        r.simd_4x4 >= r.tiled,
        3 * r.simd >= 2 * r.padded,
        3 * r.simd >= 2 * r.tiled,
        3 * r.padded >= 2 * r.tiled,
        0 <= dispatch,
    ensures
        within_factor(
            product_time(product_cost(hw, s, m, k, n), r, dispatch),
            work_time(product_work(m, k, n), modelled_rate(r, c, m, n), dispatch),
            3,
            2,
        ),
{
    let v = default_variant(hw, s, m, k, n);
    assert(picked(hw, s, m, k, n) == v);
    assert(0 <= m * k * n) by (nonlinear_arith)
        requires
            0 <= m,
            0 <= k,
            0 <= n,
    ;
    lemma_cascade_is_not_beaten(hw, s, m, k, n, c, r);
    lemma_modelled_rate(r, v, m, n);
    lemma_modelled_rate(r, c, m, n);
    let w = product_work(m, k, n) * 10_000_000_000;
    let rv = modelled_rate(r, v, m, n);
    let rc = modelled_rate(r, c, m, n);
    lemma_product_time(hw, s, m, k, n, r, dispatch, 1);
    assert(2 * ((w + dispatch * rv) * rc) <= 3 * ((w + dispatch * rc) * rv)) by (nonlinear_arith)
        requires
            0 <= w,
            0 <= dispatch,
            0 < rv,
            0 < rc,
            2 * rc <= 3 * rv,
    ;
}

/// A forward pass takes the same time in each layer, and one round trip. Within a layer attention
/// takes its work by its own rate, which grows in proportion to the batch and with the square of
/// the sequence.
pub proof fn lemma_forward_time(
    hw: MetalHwModel,
    s: SgemmSettings,
    batch: int,
    seq: int,
    hidden: int,
    intermediate: int,
    num_layers: usize,
    d: Measured,
    by: int,
)
    requires
        0 <= attention_work(batch, seq, hidden) <= u128::MAX,
        0 <= attention_work(by * batch, seq, hidden) <= u128::MAX,
        0 <= attention_work(batch, by * seq, hidden) <= u128::MAX,
    ensures
        ({
            let c = forward_cost(hw, s, batch, seq, hidden, intermediate, num_layers);
            let more = forward_cost(hw, s, by * batch, seq, hidden, intermediate, num_layers);
            let longer = forward_cost(hw, s, batch, by * seq, hidden, intermediate, num_layers);
            let others = 5 * (d.dispatch * d.attention);
            let attention = rest_time(c, d).num - others;
            &&& forward_time(c, d).den == layer_time(c, d).den
            &&& forward_time(c, d).num - d.roundtrip * layer_time(c, d).den == num_layers
                * layer_time(c, d).num
            &&& attention == attention_work(batch, seq, hidden) * 1_000_000_000
            &&& rest_time(more, d).num - others == by * attention
            &&& rest_time(longer, d).num - others == by * by * attention
        }),
{
    lemma_attention_scales(batch, seq, hidden, by);
    let work = attention_work(batch, seq, hidden);
    let bb = by * by;
    assert((by * work) * 1_000_000_000 == by * (work * 1_000_000_000)) by (nonlinear_arith);
    assert((bb * work) * 1_000_000_000 == bb * (work * 1_000_000_000)) by (nonlinear_arith);
}

/// Attention grows with the square of the sequence, and in proportion to the batch.
pub proof fn lemma_attention_scales(batch: int, seq: int, hidden: int, by: int)
    ensures
        attention_work(batch, by * seq, hidden) == by * by * attention_work(batch, seq, hidden),
        attention_work(by * batch, seq, hidden) == by * attention_work(batch, seq, hidden),
{
    assert((by * seq) * (by * seq) == by * by * (seq * seq)) by (nonlinear_arith);
    let sq = seq * seq;
    let bb = by * by;
    assert(4 * (batch * (bb * sq) * hidden) == bb * (4 * (batch * sq * hidden)))
        by (nonlinear_arith);
    assert(4 * ((by * batch) * sq * hidden) == by * (4 * (batch * sq * hidden)))
        by (nonlinear_arith);
}

/// A product's work grows in proportion to each of its dimensions.
pub proof fn lemma_product_work_scales(m: int, k: int, n: int, by: int)
    ensures
        product_work(by * m, k, n) == by * product_work(m, k, n),
        product_work(m, by * k, n) == by * product_work(m, k, n),
        product_work(m, k, by * n) == by * product_work(m, k, n),
{
    assert(2 * ((by * m) * k * n) == by * (2 * (m * k * n))) by (nonlinear_arith);
    assert(2 * (m * (by * k) * n) == by * (2 * (m * k * n))) by (nonlinear_arith);
    assert(2 * (m * k * (by * n)) == by * (2 * (m * k * n))) by (nonlinear_arith);
}

} // verus!
