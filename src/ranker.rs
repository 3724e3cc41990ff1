//! Ranks the notes of a magnitude spectrum by the mean energy of their bands.
use vstd::prelude::*;
use crate::note::{Note, NoteContainer};

verus! {

/// The bin that holds a frequency (in millihertz), for a transform of `padded_len` points
/// at `sample_rate` hertz: the frequency divided by the resolution, truncated.
pub open spec fn bin_of(freq_milli_hz: int, padded_len: int, sample_rate: int) -> int {
    (freq_milli_hz * padded_len) / (sample_rate * 1000)
}

/// Sum of the bins `lo..hi`.
pub open spec fn band_sum(m: Seq<u64>, lo: int, hi: int) -> int
    decreases hi - lo,
{
    if hi <= lo {
        0
    } else {
        band_sum(m, lo, hi - 1) + m[hi - 1]
    }
}

/// Mean of the bins between two frequencies, or `None` where that range of bins is
/// empty or runs past the spectrum.
pub open spec fn band_energy(
    m: Seq<u64>,
    lower: int,
    upper: int,
    padded_len: int,
    sample_rate: int,
) -> Option<u64> {
    let lo = bin_of(lower, padded_len, sample_rate);
    let hi = bin_of(upper, padded_len, sample_rate);
    if lo < hi && hi <= m.len() {
        Some((band_sum(m, lo, hi) / (hi - lo)) as u64)
    } else {
        None
    }
}

/// The energy of every row of the table.
pub open spec fn table_energies(
    table: NoteContainer,
    m: Seq<u64>,
    padded_len: int,
    sample_rate: int,
) -> Seq<Option<u64>> {
    Seq::new(
        table.numbers@.len(),
        |i: int|
            band_energy(
                m,
                table.before_frequencies@[i] as int,
                table.after_frequencies@[i] as int,
                padded_len,
                sample_rate,
            ),
    )
}

/// `picked` lists distinct rows with an energy, loudest first, at most `top_n` of them,
/// and a row with an energy is left out only when `top_n` rows at least as loud were taken.
pub open spec fn is_top_selection(e: Seq<Option<u64>>, picked: Seq<usize>, top_n: int) -> bool {
    &&& picked.len() <= top_n
    &&& forall|k: int| 0 <= k < picked.len() ==> picked[k] < e.len() && (#[trigger] e[picked[k] as int]) is Some
    &&& forall|k: int, l: int| 0 <= k < l < picked.len() ==> picked[k] != picked[l]
    &&& forall|k: int, l: int|
        0 <= k < l < picked.len() ==> e[picked[k] as int]->0 >= e[picked[l] as int]->0
    &&& forall|j: int|
        0 <= j < e.len() && (#[trigger] e[j]) is Some && !picked.contains(j as usize) ==> {
            &&& picked.len() == top_n
            &&& forall|k: int| 0 <= k < picked.len() ==> e[picked[k] as int]->0 >= e[j]->0
        }
}

/// A note number moved by `transposition` semitones and held within `0..=127`.
pub open spec fn transposed(number: u8, transposition: i32) -> u8 {
    let v = number as int + transposition as int;
    if v < 0 {
        0
    } else if v > 127 {
        127
    } else {
        v as u8
    }
}

proof fn lemma_band_sum_bound(m: Seq<u64>, lo: int, hi: int)
    requires
        lo <= hi,
    ensures
        0 <= band_sum(m, lo, hi) <= (hi - lo) * u64::MAX,
    decreases hi - lo,
{
    if lo < hi {
        lemma_band_sum_bound(m, lo, hi - 1);
    }
}

/// The bin of a frequency, or `None` when it lies past `len` bins.
fn bin_within(freq_milli_hz: u64, padded_len: usize, sample_rate: u32, len: usize) -> (r: Option<usize>)
    requires
        sample_rate > 0,
    ensures
        match r {
            Some(b) => b == bin_of(freq_milli_hz as int, padded_len as int, sample_rate as int)
                && b <= len,
            None => bin_of(freq_milli_hz as int, padded_len as int, sample_rate as int) > len,
        },
{
    proof {
        let f = freq_milli_hz as int;
        let p = padded_len as int;
        assert(f * p <= u64::MAX * u64::MAX) by (nonlinear_arith)
            requires
                0 <= f <= u64::MAX,
                0 <= p <= u64::MAX,
        ;
    }
    let num: u128 = freq_milli_hz as u128 * padded_len as u128;
    let den: u128 = sample_rate as u128 * 1000;
    let b: u128 = num / den;
    if b > len as u128 {
        None
    } else {
        Some(b as usize)
    }
}

/// Mean energy of the band between two frequencies (millihertz).
pub fn band_average(
    m: &Vec<u64>,
    lower: u64,
    upper: u64,
    padded_len: usize,
    sample_rate: u32,
) -> (r: Option<u64>)
    requires
        sample_rate > 0,
    ensures
        r == band_energy(m@, lower as int, upper as int, padded_len as int, sample_rate as int),
{
    let lo = match bin_within(lower, padded_len, sample_rate, m.len()) {
        Some(b) => b,
        None => return None,
    };
    let hi = match bin_within(upper, padded_len, sample_rate, m.len()) {
        Some(b) => b,
        None => return None,
    };
    if lo >= hi {
        return None;
    }
    let mut sum: u128 = 0;
    let mut i: usize = lo;
    while i < hi
        invariant
            lo <= i <= hi <= m@.len(),
            sum == band_sum(m@, lo as int, i as int),
        decreases hi - i,
    {
        proof {
            lemma_band_sum_bound(m@, lo as int, i as int);
            assert((i - lo) * u64::MAX + u64::MAX <= u128::MAX) by (nonlinear_arith)
                requires
                    i - lo <= usize::MAX,
            ;
        }
        sum = sum + m[i] as u128;
        i = i + 1;
    }
    let count: u128 = (hi - lo) as u128;
    proof {
        lemma_band_sum_bound(m@, lo as int, hi as int);
        assert(sum / count <= u64::MAX) by (nonlinear_arith)
            requires
                sum <= count * u64::MAX,
                count > 0,
        ;
    }
    Some((sum / count) as u64)
}

/// The energy of every row of the table, in table order.
pub fn band_energies(
    table: &NoteContainer,
    m: &Vec<u64>,
    padded_len: usize,
    sample_rate: u32,
) -> (r: Vec<Option<u64>>)
    requires
        table.wf(),
        sample_rate > 0,
    ensures
        r@ == table_energies(*table, m@, padded_len as int, sample_rate as int),
{
    let mut r: Vec<Option<u64>> = Vec::new();
    let mut i: usize = 0;
    while i < table.numbers.len()
        invariant
            table.wf(),
            sample_rate > 0,
            i <= table.numbers@.len(),
            r@ =~= table_energies(*table, m@, padded_len as int, sample_rate as int).take(i as int),
        decreases table.numbers@.len() - i,
    {
        let e = band_average(m, table.before_frequencies[i], table.after_frequencies[i], padded_len, sample_rate);
        r.push(e);
        i = i + 1;
    }
    r
}

/// Picks the rows with the highest energy, loudest first, at most `top_n` of them.
/// Rows without an energy are never picked; ties go either way.
pub fn select_top(e: &Vec<Option<u64>>, top_n: usize) -> (picked: Vec<usize>)
    ensures
        is_top_selection(e@, picked@, top_n as int),
{
    let n = e.len();
    let mut taken: Vec<bool> = Vec::new();
    let mut t: usize = 0;
    while t < n
        invariant
            t <= n == e@.len(),
            taken@.len() == t,
            forall|j: int| 0 <= j < t ==> !taken@[j],
        decreases n - t,
    {
        taken.push(false);
        t = t + 1;
    }
    let mut picked: Vec<usize> = Vec::new();
    let mut done = false;
    while picked.len() < top_n && !done
        invariant
            n == e@.len(),
            taken@.len() == n,
            picked@.len() <= top_n,
            forall|j: int| 0 <= j < n ==> (#[trigger] taken@[j] <==> picked@.contains(j as usize)),
            forall|k: int| 0 <= k < picked@.len() ==> picked@[k] < n && (#[trigger] e@[picked@[k] as int]) is Some,
            forall|k: int, l: int| 0 <= k < l < picked@.len() ==> picked@[k] != picked@[l],
            forall|k: int, l: int|
                0 <= k < l < picked@.len() ==> e@[picked@[k] as int]->0 >= e@[picked@[l] as int]->0,
            forall|j: int, k: int|
                0 <= j < n && e@[j] is Some && !taken@[j] && 0 <= k < picked@.len()
                    ==> #[trigger] e@[picked@[k] as int]->0 >= #[trigger] e@[j]->0,
            done ==> forall|j: int| 0 <= j < n && (#[trigger] e@[j]) is Some ==> taken@[j],
        decreases top_n - picked@.len() + if done { 0int } else { 1int },
    {
        let mut best: Option<usize> = None;
        let mut j: usize = 0;
        while j < n
            invariant
                j <= n == e@.len(),
                taken@.len() == n,
                match best {
                    Some(b) => b < j && e@[b as int] is Some && !taken@[b as int]
                        && forall|i: int| 0 <= i < j && (#[trigger] e@[i]) is Some && !taken@[i]
                            ==> e@[b as int]->0 >= e@[i]->0,
                    None => forall|i: int| 0 <= i < j && (#[trigger] e@[i]) is Some ==> taken@[i],
                },
            decreases n - j,
        {
            if !taken[j] {
                match e[j] {
                    Some(v) => {
                        match best {
                            Some(b) => {
                                let bv = e[b].unwrap();
                                if v > bv {
                                    best = Some(j);
                                }
                            },
                            None => {
                                best = Some(j);
                            },
                        }
                    },
                    None => {},
                }
            }
            j = j + 1;
        }
        match best {
            Some(b) => {
                let ghost old_picked = picked@;
                let ghost old_taken = taken@;
                picked.push(b);
                taken.set(b, true);
                proof {
                    assert forall|i: int| 0 <= i < n implies (#[trigger] taken@[i] <==> picked@.contains(i as usize)) by {
                        if i == b as int {
                            assert(picked@[old_picked.len() as int] == b);
                        } else {
                            assert(old_taken[i] == taken@[i]);
                            if old_picked.contains(i as usize) {
                                let k = choose|k: int| 0 <= k < old_picked.len() && old_picked[k] == i as usize;
                                assert(picked@[k] == i as usize);
                            }
                            if picked@.contains(i as usize) {
                                let k = choose|k: int| 0 <= k < picked@.len() && picked@[k] == i as usize;
                                assert(k < old_picked.len());
                                assert(old_picked[k] == i as usize);
                            }
                        }
                    }
                    assert forall|k: int, l: int| 0 <= k < l < picked@.len() implies picked@[k] != picked@[l] by {
                        if l == old_picked.len() {
                            assert(old_picked.contains(picked@[k]));
                            assert(old_taken[picked@[k] as int]);
                        }
                    }
                }
            },
            None => {
                done = true;
            },
        }
    }
    proof {
        assert forall|j: int|
            0 <= j < e@.len() && (#[trigger] e@[j]) is Some && !picked@.contains(j as usize) implies {
                &&& picked@.len() == top_n
                &&& forall|k: int| 0 <= k < picked@.len() ==> e@[picked@[k] as int]->0 >= e@[j]->0
            } by {
            assert(!taken@[j]);
        }
    }
    picked
}

/// `n` slots holding the transposed notes of the picked rows, then `None`.
pub open spec fn ranked_notes(numbers: Seq<u8>, picked: Seq<usize>, transposition: i32, n: int) -> Seq<
    Option<Note>,
> {
    Seq::new(
        n as nat,
        |k: int|
            if k < picked.len() {
                Some(Note(transposed(numbers[picked[k] as int], transposition)))
            } else {
                None
            },
    )
}

/// The notes of the `N` loudest bands, loudest first, each moved by `transposition`
/// and held within `0..=127`; slots past the bands with an energy are `None`.
pub fn rank<const N: usize>(
    table: &NoteContainer,
    m: &Vec<u64>,
    padded_len: usize,
    sample_rate: u32,
    transposition: i32,
) -> (r: [Option<Note>; N])
    requires
        table.wf(),
        sample_rate > 0,
    ensures
        exists|picked: Seq<usize>|
            #[trigger] is_top_selection(
                table_energies(*table, m@, padded_len as int, sample_rate as int),
                picked,
                N as int,
            ) && r@ == ranked_notes(table.numbers@, picked, transposition, N as int),
        forall|k: int| 0 <= k < N && (#[trigger] r@[k]) is Some ==> (r@[k]->0).0 <= 127,
{
    let e = band_energies(table, m, padded_len, sample_rate);
    let picked = select_top(&e, N);
    let mut r: [Option<Note>; N] = [None; N];
    let mut k: usize = 0;
    while k < N
        invariant
            k <= N,
            table.wf(),
            e@ == table_energies(*table, m@, padded_len as int, sample_rate as int),
            is_top_selection(e@, picked@, N as int),
            forall|i: int|
                0 <= i < N ==> #[trigger] r@[i] == if i < k && i < picked@.len() {
                    Some(Note(transposed(table.numbers@[picked@[i] as int], transposition)))
                } else {
                    None
                },
        decreases N - k,
    {
        if k < picked.len() {
            let number = table.numbers[picked[k]];
            r[k] = Some(Note(transpose(number, transposition)));
        }
        k = k + 1;
    }
    proof {
        assert(r@ =~= ranked_notes(table.numbers@, picked@, transposition, N as int));
    }
    r
}

/// Moves a note number by `transposition` semitones, held within `0..=127`.
pub fn transpose(number: u8, transposition: i32) -> (r: u8)
    ensures
        r == transposed(number, transposition),
        r <= 127,
{
    let v: i64 = number as i64 + transposition as i64;
    if v < 0 {
        0
    } else if v > 127 {
        127
    } else {
        v as u8
    }
}

/// Whatever the transposition, a transposed note number stays a MIDI note number,
/// also for the boundary notes 0 and 127.
pub proof fn lemma_transposed_in_range(number: u8, transposition: i32)
    ensures
        transposed(number, transposition) <= 127,
        transposition <= 0 ==> transposed(number, transposition) <= number,
        transposition >= 0 && number <= 127 ==> transposed(number, transposition) >= number,
{
}

} // verus!
