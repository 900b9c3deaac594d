//! Frame geometry of the spectrum: the FFT size, the check that a frame and
//! its output buffer have that size, and the reordering of FFT bins that puts
//! the DC bin in the middle of the spectrum.
use vstd::prelude::*;

verus! {

/// Number of IQ samples per FFT frame, and number of bins in a spectrum.
pub const FFT_SIZE: usize = 1024;

/// Whether a block of samples and an output buffer can be processed as one
/// FFT frame: both must hold exactly [`FFT_SIZE`] values. Any other pair of
/// lengths is ignored by the spectrum processor, which then writes nothing.
pub fn fft_frame_ok(samples_len: usize, out_len: usize) -> (ok: bool)
    ensures
        ok == (samples_len == FFT_SIZE && out_len == FFT_SIZE),
{
    samples_len == FFT_SIZE && out_len == FFT_SIZE
}

/// The FFT bin shown at position `i` of a shifted spectrum of `n` bins.
pub open spec fn shifted_bin(i: int, n: int) -> int {
    (i + n / 2) % n
}

/// The FFT bin that position `i` of a spectrum of `n` bins shows, once the
/// negative frequencies are moved to the left half.
pub fn fft_shift_index(i: usize, n: usize) -> (bin: usize)
    requires
        i < n,
    ensures
        bin == shifted_bin(i as int, n as int),
        bin < n,
        i + n / 2 < n ==> bin == i + n / 2,
        i + n / 2 >= n ==> bin == i + n / 2 - n,
{
    let half = n / 2;
    if i < n - half {
        proof {
            vstd::arithmetic::div_mod::lemma_fundamental_div_mod_converse(
                i + half,
                n as int,
                0,
                i + half,
            );
        }
        i + half
    } else {
        proof {
            vstd::arithmetic::div_mod::lemma_fundamental_div_mod_converse(
                i + half,
                n as int,
                1,
                i + half - n,
            );
        }
        i - (n - half)
    }
}

/// Reorders FFT bins so that the DC bin sits in the middle: position `i` of
/// the result holds bin `(i + n / 2) % n`.
pub fn fft_shift<T: Copy>(bins: &[T]) -> (out: Vec<T>)
    ensures
        out@.len() == bins@.len(),
        forall|i: int|
            0 <= i < bins@.len() ==> #[trigger] out@[i] == bins@[shifted_bin(i, bins@.len() as int)],
        forall|i: int|
            0 <= i < bins@.len() - bins@.len() / 2 ==> #[trigger] out@[i] == bins@[i + bins@.len()
                / 2],
        forall|i: int|
            bins@.len() - bins@.len() / 2 <= i < bins@.len() ==> #[trigger] out@[i] == bins@[i
                + bins@.len() / 2 - bins@.len()],
{
    let n = bins.len();
    let mut out: Vec<T> = Vec::new();
    let mut i: usize = 0;
    while i < n
        invariant
            n == bins@.len(),
            i <= n,
            out.len() == i,
            forall|j: int| 0 <= j < i ==> #[trigger] out@[j] == bins@[shifted_bin(j, n as int)],
            forall|j: int| 0 <= j < i && j < n - n / 2 ==> #[trigger] out@[j] == bins@[j + n / 2],
            forall|j: int|
                0 <= j < i && n - n / 2 <= j ==> #[trigger] out@[j] == bins@[j + n / 2 - n],
        decreases n - i,
    {
        let bin = fft_shift_index(i, n);
        out.push(bins[bin]);
        i = i + 1;
    }
    out
}

/// Where each position of a shifted spectrum of `n` bins looks: the first
/// `n - n / 2` positions show bins `n / 2 ..`, the rest show bins `0 ..`;
/// every position shows a bin in range, and distinct positions show distinct
/// bins.
pub proof fn lemma_shifted_bin_explicit(i: int, j: int, n: int)
    requires
        n > 0,
        0 <= i < n,
        0 <= j < n,
    ensures
        i < n - n / 2 ==> shifted_bin(i, n) == i + n / 2,
        i >= n - n / 2 ==> shifted_bin(i, n) == i + n / 2 - n,
        0 <= shifted_bin(i, n) < n,
        i != j ==> shifted_bin(i, n) != shifted_bin(j, n),
{
    vstd::arithmetic::div_mod::lemma_fundamental_div_mod(n, 2);
    let h = n / 2;
    if i + h < n {
        vstd::arithmetic::div_mod::lemma_fundamental_div_mod_converse(i + h, n, 0, i + h);
    } else {
        vstd::arithmetic::div_mod::lemma_fundamental_div_mod_converse(i + h, n, 1, i + h - n);
    }
    if j + h < n {
        vstd::arithmetic::div_mod::lemma_fundamental_div_mod_converse(j + h, n, 0, j + h);
    } else {
        vstd::arithmetic::div_mod::lemma_fundamental_div_mod_converse(j + h, n, 1, j + h - n);
    }
}

/// Shifting the bins of an even-length spectrum twice gives back the original
/// order, and the DC bin (bin 0) lands at position `n / 2`.
pub proof fn lemma_shift_involution(i: int, n: int)
    requires
        n > 0,
        n % 2 == 0,
        0 <= i < n,
    ensures
        0 <= shifted_bin(i, n) < n,
        shifted_bin(shifted_bin(i, n), n) == i,
        shifted_bin(n / 2, n) == 0,
{
    let h = n / 2;
    vstd::arithmetic::div_mod::lemma_fundamental_div_mod(n, 2);
    if i + h < n {
        vstd::arithmetic::div_mod::lemma_fundamental_div_mod_converse(i + h, n, 0, i + h);
        vstd::arithmetic::div_mod::lemma_fundamental_div_mod_converse(i + h + h, n, 1, i);
    } else {
        vstd::arithmetic::div_mod::lemma_fundamental_div_mod_converse(i + h, n, 1, i + h - n);
        vstd::arithmetic::div_mod::lemma_fundamental_div_mod_converse(i + h - n + h, n, 0, i);
    }
    vstd::arithmetic::div_mod::lemma_fundamental_div_mod_converse(h + h, n, 1, 0);
}

} // verus!
