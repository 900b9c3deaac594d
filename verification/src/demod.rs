//! Demodulation modes and the sample-rate reduction that turns a stream of
//! IQ-rate values into an audio-rate stream.
//!
//! The per-sample signal arithmetic (envelope, phase discriminator) is done on
//! floating-point samples by the caller; what is decided here is *which* of
//! those values reach the audio output.
use vstd::prelude::*;
use vstd::arithmetic::div_mod::lemma_fundamental_div_mod_converse;

verus! {

/// Demodulation mode of the receiver. On the C interface `Am` is `0` and
/// `Wbfm` is `1`.
#[derive(Debug, Clone, Copy, PartialEq, Eq, Structural)]
pub enum DemodMode {
    Am,
    Wbfm,
}

impl DemodMode {
    /// The mode's number on the C interface.
    pub open spec fn spec_code(self) -> u32 {
        match self {
            DemodMode::Am => 0,
            DemodMode::Wbfm => 1,
        }
    }

    /// The mode that a number from the C interface selects: `0` is AM, every
    /// other number is wide-band FM.
    pub open spec fn spec_from_code(code: u32) -> DemodMode {
        if code == 0 {
            DemodMode::Am
        } else {
            DemodMode::Wbfm
        }
    }

    /// The mode's number on the C interface.
    pub fn code(&self) -> (c: u32)
        ensures
            c == self.spec_code(),
            *self == DemodMode::Am ==> c == 0,
            *self == DemodMode::Wbfm ==> c == 1,
    {
        match self {
            DemodMode::Am => 0,
            DemodMode::Wbfm => 1,
        }
    }

    /// Reads a mode from the C interface: `0` selects AM, any other value
    /// selects wide-band FM.
    pub fn from_code(code: u32) -> (m: DemodMode)
        ensures
            m == DemodMode::spec_from_code(code),
            code == 0 ==> m == DemodMode::Am,
            code != 0 ==> m == DemodMode::Wbfm,
    {
        if code == 0 {
            DemodMode::Am
        } else {
            DemodMode::Wbfm
        }
    }
}

/// Reading back the number of a mode gives the mode again, so the C
/// interface's numbers and the modes correspond one to one: AM is `0`,
/// wide-band FM is `1`, `0` reads as AM and every other number as wide-band
/// FM.
pub proof fn lemma_mode_code_roundtrip(mode: DemodMode, code: u32)
    ensures
        DemodMode::spec_from_code(mode.spec_code()) == mode,
        DemodMode::Am.spec_code() == 0,
        DemodMode::Wbfm.spec_code() == 1,
        code == 0 ==> DemodMode::spec_from_code(code) == DemodMode::Am,
        code != 0 ==> DemodMode::spec_from_code(code) == DemodMode::Wbfm,
{
}

/// Abstract state of a [`Decimator`]: the decimation factor and how many
/// input values have gone by since the last one that was kept.
pub struct DecimatorState {
    pub factor: nat,
    pub phase: nat,
}

/// The values that the AM path keeps: every `factor`-th value, starting with
/// the first one of the block.
pub open spec fn strided<T>(values: Seq<T>, factor: nat) -> Seq<T> {
    Seq::new(stride_count(values.len(), factor), |k: int| values[k * factor])
}

/// How many values a stride of `factor` picks from `n` values (`n / factor`
/// rounded up).
pub open spec fn stride_count(n: nat, factor: nat) -> nat {
    if n == 0 {
        0
    } else {
        ((n - 1) as nat / factor + 1) as nat
    }
}

/// The values that the wide-band FM path keeps when its counter starts at
/// `phase`: a value is kept each time the running count of values reaches a
/// multiple of `factor`, so the `k`-th kept value is the one at index
/// `(k + 1) * factor - phase - 1`.
pub open spec fn counted<T>(values: Seq<T>, factor: nat, phase: nat) -> Seq<T> {
    Seq::new(
        ((phase + values.len()) / factor) as nat,
        |k: int| values[(k + 1) * factor - phase - 1],
    )
}

/// Splitting a stream into blocks does not change what the wide-band FM
/// decimation keeps: decimating `a` and then `b`, with the counter carried
/// over, gives the same values as decimating `a + b` in one block.
pub proof fn lemma_counted_blocks_compose<T>(a: Seq<T>, b: Seq<T>, factor: nat, phase: nat)
    requires
        1 <= factor,
        phase < factor,
    ensures
        counted(a + b, factor, phase) == counted(a, factor, phase) + counted(
            b,
            factor,
            (phase + a.len()) % factor,
        ),
{
    let d = factor as int;
    let p = phase as int;
    let la = a.len() as int;
    let lb = b.len() as int;
    let q = (p + la) / d;
    let r = (p + la) % d;
    vstd::arithmetic::div_mod::lemma_fundamental_div_mod(p + la, d);
    vstd::arithmetic::div_mod::lemma_mod_pos_bound(p + la, d);
    let q2 = (r + lb) / d;
    let r2 = (r + lb) % d;
    vstd::arithmetic::div_mod::lemma_fundamental_div_mod(r + lb, d);
    vstd::arithmetic::div_mod::lemma_mod_pos_bound(r + lb, d);
    assert(p + la + lb == (q + q2) * d + r2) by (nonlinear_arith)
        requires
            p + la == d * q + r,
            r + lb == d * q2 + r2,
    ;
    lemma_fundamental_div_mod_converse(p + la + lb, d, q + q2, r2);
    assert(q >= 0 && q2 >= 0) by (nonlinear_arith)
        requires
            p + la == d * q + r,
            r + lb == d * q2 + r2,
            0 <= r < d,
            0 <= r2 < d,
            0 <= p,
            0 <= la,
            0 <= lb,
    ;
    let whole = counted(a + b, factor, phase);
    let left = counted(a, factor, phase);
    let right = counted(b, factor, r as nat);
    assert(left.len() == q);
    assert(right.len() == q2);
    assert(whole.len() == q + q2);
    assert forall|k: int| 0 <= k < q + q2 implies #[trigger] whole[k] == (left + right)[k] by {
        if k < q {
            assert(0 <= (k + 1) * d - p - 1 < la) by (nonlinear_arith)
                requires
                    0 <= k < q,
                    p + la == d * q + r,
                    0 <= r < d,
                    0 <= p < d,
            ;
        } else {
            let m = k - q;
            assert((q + m + 1) * d - p - 1 == la + ((m + 1) * d - r - 1)) by (nonlinear_arith)
                requires
                    p + la == d * q + r,
            ;
            assert(0 <= (m + 1) * d - r - 1 < lb) by (nonlinear_arith)
                requires
                    0 <= m < q2,
                    r + lb == d * q2 + r2,
                    0 <= r < d,
                    0 <= r2 < d,
            ;
        }
    }
    assert(whole =~= left + right);
}

/// What the AM path keeps, for every block and factor: `ceil(n / factor)`
/// values, the `k`-th of them being the input value at index `k * factor`, so
/// every index below `n` that is a multiple of the factor is kept and no other.
pub proof fn lemma_strided_characterization<T>(values: Seq<T>, factor: nat)
    requires
        1 <= factor,
    ensures
        values.len() == 0 ==> strided(values, factor).len() == 0,
        values.len() > 0 ==> (strided(values, factor).len() - 1) * factor < values.len()
            <= strided(values, factor).len() * factor,
        forall|k: int|
            0 <= k < strided(values, factor).len() ==> #[trigger] strided(values, factor)[k]
                == values[k * factor],
        forall|k: int| 0 <= k < strided(values, factor).len() ==> #[trigger] (k * factor) < values.len(),
{
    let d = factor as int;
    let n = values.len() as int;
    let len = strided(values, factor).len() as int;
    if n > 0 {
        let q = (n - 1) / d;
        let r = (n - 1) % d;
        vstd::arithmetic::div_mod::lemma_fundamental_div_mod(n - 1, d);
        vstd::arithmetic::div_mod::lemma_mod_pos_bound(n - 1, d);
        assert(len == q + 1);
        assert((len - 1) * d < n <= len * d) by (nonlinear_arith)
            requires
                n - 1 == d * q + r,
                0 <= r < d,
                len == q + 1,
        ;
    }
    assert forall|k: int| 0 <= k < strided(values, factor).len() implies #[trigger] (k * factor)
        < values.len() by {
        assert(k * d <= (len - 1) * d) by (nonlinear_arith)
            requires
                0 <= k < len,
                1 <= d,
        ;
    }
}

/// What the wide-band FM path keeps, for every block, factor and starting
/// counter: `count * factor <= phase + n < count * factor + factor`, and the
/// `k`-th kept value is the input value at which the running count
/// `phase + index + 1` reaches `(k + 1) * factor`.
pub proof fn lemma_counted_characterization<T>(values: Seq<T>, factor: nat, phase: nat)
    requires
        1 <= factor,
        phase < factor,
    ensures
        counted(values, factor, phase).len() * factor <= phase + values.len() < counted(
            values,
            factor,
            phase,
        ).len() * factor + factor,
        forall|k: int|
            0 <= k < counted(values, factor, phase).len() ==> #[trigger] counted(
                values,
                factor,
                phase,
            )[k] == values[(k + 1) * factor - phase - 1],
        forall|k: int|
            0 <= k < counted(values, factor, phase).len() ==> 0 <= #[trigger] ((k + 1) * factor)
                - phase - 1 < values.len(),
{
    let d = factor as int;
    let p = phase as int;
    let n = values.len() as int;
    let len = counted(values, factor, phase).len() as int;
    vstd::arithmetic::div_mod::lemma_fundamental_div_mod(p + n, d);
    vstd::arithmetic::div_mod::lemma_mod_pos_bound(p + n, d);
    assert(len * d <= p + n < len * d + d) by (nonlinear_arith)
        requires
            p + n == d * len + (p + n) % d,
            0 <= (p + n) % d < d,
    ;
    assert forall|k: int|
        0 <= k < counted(values, factor, phase).len() implies 0 <= #[trigger] ((k + 1) * factor)
        - phase - 1 < values.len() by {
        assert(0 <= (k + 1) * d - p - 1 < n) by (nonlinear_arith)
            requires
                0 <= k < len,
                len * d <= p + n,
                0 <= p < d,
        ;
    }
}

/// With factor one, both decimation paths keep every value.
pub proof fn lemma_factor_one_keeps_all<T>(values: Seq<T>)
    ensures
        strided(values, 1) == values,
        counted(values, 1, 0) == values,
{
    assert(strided(values, 1) =~= values);
    assert(counted(values, 1, 0) =~= values);
}

/// Sample-rate reduction by an integer factor, with the counter that carries
/// over from one block of samples to the next.
pub struct Decimator {
    decimation: usize,
    counter: usize,
}

impl View for Decimator {
    type V = DecimatorState;

    closed spec fn view(&self) -> DecimatorState {
        DecimatorState { factor: self.decimation as nat, phase: self.counter as nat }
    }
}

impl Decimator {
    #[verifier::type_invariant]
    spec fn inv(self) -> bool {
        1 <= self.decimation && self.counter < self.decimation
    }

    /// Well-formedness: the factor is at least one and the counter is below it.
    /// Every decimator is well-formed; [`Decimator::factor`] and the selection
    /// functions state it.
    pub open spec fn wf(&self) -> bool {
        &&& 1 <= self@.factor <= usize::MAX
        &&& self@.phase < self@.factor
    }

    /// A decimator with factor `ratio`, or `1` where `ratio` is zero, and its
    /// counter at zero.
    pub fn new(ratio: usize) -> (d: Decimator)
        ensures
            d.wf(),
            d@.factor == (if ratio == 0 { 1 } else { ratio as nat }),
            d@.phase == 0,
    {
        let decimation = if ratio == 0 { 1 } else { ratio };
        Decimator { decimation, counter: 0 }
    }

    /// The decimation factor.
    pub fn factor(&self) -> (f: usize)
        ensures
            f == self@.factor,
            self.wf(),
    {
        proof {
            use_type_invariant(self);
        }
        self.decimation
    }

    /// AM decimation: keeps every `factor`-th value of the block, starting
    /// with its first value. The counter is neither read nor changed.
    pub fn stride_select<T: Copy>(&self, values: &[T]) -> (out: Vec<T>)
        ensures
            self.wf(),
            out@ == strided(values@, self@.factor),
            values@.len() == 0 ==> out@.len() == 0,
            values@.len() > 0 ==> (out@.len() - 1) * self@.factor < values@.len() <= out@.len()
                * self@.factor,
            forall|k: int| 0 <= k < out@.len() ==> #[trigger] out@[k] == values@[k * self@.factor],
            forall|k: int| 0 <= k < out@.len() ==> #[trigger] (k * self@.factor) < values@.len(),
    {
        proof {
            use_type_invariant(self);
            lemma_strided_characterization(values@, self@.factor);
        }
        let ghost d = self.decimation as int;
        let n = values.len();
        let mut out: Vec<T> = Vec::new();
        if n == 0 {
            assert(out@ =~= strided(values@, d as nat));
            return out;
        }
        let step = self.decimation;
        let mut i: usize = 0;
        assert(out.len() * d == 0) by (nonlinear_arith)
            requires
                out.len() == 0,
        ;
        loop
            invariant_except_break
                n == values@.len(),
                step == d,
                1 <= d,
                i < n,
                i == out.len() * d,
                forall|m: int| 0 <= m < out.len() ==> #[trigger] out@[m] == values@[m * d],
            ensures
                n == values@.len(),
                step == d,
                out.len() * d < n + d,
                n <= out.len() * d,
                1 <= out.len(),
                forall|m: int| 0 <= m < out.len() ==> #[trigger] out@[m] == values@[m * d],
            decreases n - i,
        {
            out.push(values[i]);
            assert(i + d == out.len() * d) by (nonlinear_arith)
                requires
                    i == (out.len() - 1) * d,
            ;
            if step >= n - i {
                break;
            }
            i = i + step;
        }
        proof {
            let k = out.len() as int;
            let r = (n - 1) - (k - 1) * d;
            assert((k - 1) * d == k * d - d) by (nonlinear_arith);
            lemma_fundamental_div_mod_converse(n - 1, d, k - 1, r);
        }
        assert(out@ =~= strided(values@, d as nat));
        assert forall|k: int| 0 <= k < out@.len() implies #[trigger] (k * self@.factor)
            < values@.len() by {
            assert(k * d <= (out.len() - 1) * d) by (nonlinear_arith)
                requires
                    0 <= k < out.len(),
                    1 <= d,
            ;
        }
        out
    }

    /// Wide-band FM decimation: counts every value of the block; each time
    /// the count reaches the factor, the value is kept and the count starts
    /// again from zero. The count carries over to the next block.
    pub fn counter_select<T: Copy>(&mut self, values: &[T]) -> (out: Vec<T>)
        ensures
            old(self).wf(),
            final(self).wf(),
            final(self)@.factor == old(self)@.factor,
            final(self)@.phase == (old(self)@.phase + values@.len()) % old(self)@.factor,
            out@ == counted(values@, old(self)@.factor, old(self)@.phase),
            out@.len() * old(self)@.factor <= old(self)@.phase + values@.len() < out@.len()
                * old(self)@.factor + old(self)@.factor,
            forall|k: int|
                0 <= k < out@.len() ==> #[trigger] out@[k] == values@[(k + 1) * old(self)@.factor
                    - old(self)@.phase - 1],
            forall|k: int|
                0 <= k < out@.len() ==> 0 <= #[trigger] ((k + 1) * old(self)@.factor) - old(
                    self,
                )@.phase - 1 < values@.len(),
    {
        proof {
            use_type_invariant(&*self);
            lemma_counted_characterization(values@, self@.factor, self@.phase);
        }
        let ghost d = self.decimation as int;
        let ghost p = self.counter as int;
        let decimation = self.decimation;
        let mut counter = self.counter;
        let n = values.len();
        let mut out: Vec<T> = Vec::new();
        let mut j: usize = 0;
        assert(out.len() * d == 0) by (nonlinear_arith)
            requires
                out.len() == 0,
        ;
        while j < n
            invariant
                n == values@.len(),
                j <= n,
                decimation == d,
                1 <= d,
                counter < d,
                p + j == out.len() * d + counter,
                forall|m: int| 0 <= m < out.len() ==> #[trigger] out@[m] == values@[(m + 1) * d - p - 1],
            decreases n - j,
        {
            let v = values[j];
            counter = counter + 1;
            if counter >= decimation {
                counter = 0;
                proof {
                    assert((out.len() + 1) * d - p - 1 == j) by (nonlinear_arith)
                        requires
                            p + j == out.len() * d + (d - 1),
                    ;
                }
                out.push(v);
                proof {
                    assert(p + j + 1 == out.len() * d + 0) by (nonlinear_arith)
                        requires
                            p + j + 1 == (out.len() - 1) * d + d,
                    ;
                }
            }
            j = j + 1;
        }
        proof {
            lemma_fundamental_div_mod_converse(p + n, d, out.len() as int, counter as int);
        }
        self.counter = counter;
        assert(out@ =~= counted(values@, d as nat, p as nat));
        assert forall|k: int| 0 <= k < out@.len() implies 0 <= #[trigger] ((k + 1) * old(
            self,
        )@.factor) - old(self)@.phase - 1 < values@.len() by {
            assert(0 <= (k + 1) * d - p - 1 < n) by (nonlinear_arith)
                requires
                    0 <= k < out.len(),
                    p + n == out.len() * d + counter,
                    0 <= p < d,
                    0 <= counter,
            ;
        }
        out
    }
}

} // verus!
