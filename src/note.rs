//! Notes and the table of frequency bands assigned to them.
use vstd::prelude::*;
use vstd::string::StringSliceAdditionalSpecFns;

verus! {

/// A MIDI note number.
#[derive(Clone, Copy, Debug, PartialEq, Eq, Structural)]
pub struct Note(pub u8);

/// The frequency band of every note, one row per note; frequencies are in millihertz.
pub struct NoteContainer {
    pub numbers: Vec<u8>,
    pub frequencies: Vec<u64>,
    pub before_frequencies: Vec<u64>,
    pub after_frequencies: Vec<u64>,
}

impl NoteContainer {
    /// All columns describe the same rows.
    pub open spec fn wf(&self) -> bool {
        &&& self.frequencies@.len() == self.numbers@.len()
        &&& self.before_frequencies@.len() == self.numbers@.len()
        &&& self.after_frequencies@.len() == self.numbers@.len()
    }
}

/// Why a note table could not be read.
#[derive(Clone, Copy, Debug, PartialEq, Eq, Structural)]
pub enum TableError {
    /// A row lacks one of its four fields, or a field is not a number in range.
    MalformedRow,
}

/// A blank within a row: space, tab, vertical tab, form feed or carriage return.
pub open spec fn is_blank(b: u8) -> bool {
    b == 32 || b == 9 || b == 11 || b == 12 || b == 13
}

pub open spec fn is_digit(b: u8) -> bool {
    48 <= b <= 57
}

/// First position at or after `i` that holds no blank.
pub open spec fn skip_blank(s: Seq<u8>, i: int) -> int
    decreases s.len() - i,
{
    if i < 0 || i >= s.len() || !is_blank(s[i]) {
        i
    } else {
        skip_blank(s, i + 1)
    }
}

/// First position at or after `i` that holds a blank or a line break.
pub open spec fn field_end(s: Seq<u8>, i: int) -> int
    decreases s.len() - i,
{
    if i < 0 || i >= s.len() || is_blank(s[i]) || s[i] == 10 {
        i
    } else {
        field_end(s, i + 1)
    }
}

/// First position at or after `i` that holds a line break.
pub open spec fn line_end(s: Seq<u8>, i: int) -> int
    decreases s.len() - i,
{
    if i < 0 || i >= s.len() || s[i] == 10 {
        i
    } else {
        line_end(s, i + 1)
    }
}

/// First position in `a..e` that holds a decimal point, or `e`.
pub open spec fn find_dot(s: Seq<u8>, a: int, e: int) -> int
    decreases e - a,
{
    if a >= e || s[a] == 46 {
        a
    } else {
        find_dot(s, a + 1, e)
    }
}

pub open spec fn all_digits(s: Seq<u8>, a: int, e: int) -> bool {
    forall|k: int| a <= k < e ==> is_digit(#[trigger] s[k])
}

/// The decimal number written in `a..e`.
pub open spec fn dec(s: Seq<u8>, a: int, e: int) -> int
    decreases e - a,
{
    if e <= a {
        0
    } else {
        dec(s, a, e - 1) * 10 + (s[e - 1] - 48)
    }
}

/// The digit at `k` of a fraction that ends before `e`; zero past its end.
pub open spec fn frac_digit(s: Seq<u8>, k: int, e: int) -> int {
    if k < e {
        s[k] - 48
    } else {
        0
    }
}

/// A note number: decimal digits, at most 127.
pub open spec fn note_field(s: Seq<u8>, a: int, e: int) -> Option<u8> {
    if a < e && all_digits(s, a, e) && dec(s, a, e) <= 127 {
        Some(dec(s, a, e) as u8)
    } else {
        None
    }
}

/// A frequency in hertz, written as digits with an optional fraction after a point,
/// in millihertz; fraction digits past the third are dropped.
pub open spec fn milli_field(s: Seq<u8>, a: int, e: int) -> Option<u64> {
    let d = find_dot(s, a, e);
    let v = dec(s, a, d) * 1000 + 100 * frac_digit(s, d + 1, e) + 10 * frac_digit(s, d + 2, e)
        + frac_digit(s, d + 3, e);
    if a < d && all_digits(s, a, d) && all_digits(s, d + 1, e) && v <= u64::MAX {
        Some(v as u64)
    } else {
        None
    }
}

/// The row that starts at `i`: four fields after optional blanks, the rest of the line
/// ignored; with the position after its line.
pub open spec fn row_at(s: Seq<u8>, i: int) -> Option<((u8, u64, u64, u64), int)> {
    let a0 = skip_blank(s, i);
    let e0 = field_end(s, a0);
    let a1 = skip_blank(s, e0);
    let e1 = field_end(s, a1);
    let a2 = skip_blank(s, e1);
    let e2 = field_end(s, a2);
    let a3 = skip_blank(s, e2);
    let e3 = field_end(s, a3);
    let le = line_end(s, e3);
    let next = if le >= s.len() { s.len() as int } else { le + 1 };
    match (note_field(s, a0, e0), milli_field(s, a1, e1), milli_field(s, a2, e2), milli_field(s, a3, e3)) {
        (Some(n), Some(c), Some(lo), Some(hi)) => Some(((n, c, lo, hi), next)),
        _ => None,
    }
}

/// The rows from position `i` on, or `None` if one of them is malformed.
pub open spec fn rows_from(s: Seq<u8>, i: int) -> Option<Seq<(u8, u64, u64, u64)>>
    decreases s.len() - i,
{
    if i < 0 || i >= s.len() {
        Some(seq![])
    } else {
        match row_at(s, i) {
            None => None,
            Some((row, next)) => if next <= i {
                None
            } else {
                match rows_from(s, next) {
                    None => None,
                    Some(rest) => Some(seq![row] + rest),
                }
            },
        }
    }
}

proof fn lemma_skip_blank(s: Seq<u8>, i: int)
    requires
        0 <= i <= s.len(),
    ensures
        i <= skip_blank(s, i) <= s.len(),
    decreases s.len() - i,
{
    if i < s.len() && is_blank(s[i]) {
        lemma_skip_blank(s, i + 1);
    }
}

proof fn lemma_field_end(s: Seq<u8>, i: int)
    requires
        0 <= i <= s.len(),
    ensures
        i <= field_end(s, i) <= s.len(),
    decreases s.len() - i,
{
    if i < s.len() && !is_blank(s[i]) && s[i] != 10 {
        lemma_field_end(s, i + 1);
    }
}

proof fn lemma_line_end(s: Seq<u8>, i: int)
    requires
        0 <= i <= s.len(),
    ensures
        i <= line_end(s, i) <= s.len(),
    decreases s.len() - i,
{
    if i < s.len() && s[i] != 10 {
        lemma_line_end(s, i + 1);
    }
}

proof fn lemma_find_dot(s: Seq<u8>, a: int, e: int)
    requires
        a <= e,
    ensures
        a <= find_dot(s, a, e) <= e,
    decreases e - a,
{
    if a < e && s[a] != 46 {
        lemma_find_dot(s, a + 1, e);
    }
}

fn exec_skip_blank(s: &[u8], i: usize) -> (r: usize)
    requires
        i <= s@.len(),
    ensures
        r == skip_blank(s@, i as int),
        i <= r <= s@.len(),
{
    let mut j = i;
    while j < s.len() && (s[j] == 32 || s[j] == 9 || s[j] == 11 || s[j] == 12 || s[j] == 13)
        invariant
            i <= j <= s@.len(),
            skip_blank(s@, j as int) == skip_blank(s@, i as int),
        decreases s@.len() - j,
    {
        j = j + 1;
    }
    j
}

fn exec_field_end(s: &[u8], i: usize) -> (r: usize)
    requires
        i <= s@.len(),
    ensures
        r == field_end(s@, i as int),
        i <= r <= s@.len(),
{
    let mut j = i;
    while j < s.len() && !(s[j] == 32 || s[j] == 9 || s[j] == 11 || s[j] == 12 || s[j] == 13 || s[j] == 10)
        invariant
            i <= j <= s@.len(),
            field_end(s@, j as int) == field_end(s@, i as int),
        decreases s@.len() - j,
    {
        j = j + 1;
    }
    j
}

fn exec_line_end(s: &[u8], i: usize) -> (r: usize)
    requires
        i <= s@.len(),
    ensures
        r == line_end(s@, i as int),
        i <= r <= s@.len(),
{
    let mut j = i;
    while j < s.len() && s[j] != 10
        invariant
            i <= j <= s@.len(),
            line_end(s@, j as int) == line_end(s@, i as int),
        decreases s@.len() - j,
    {
        j = j + 1;
    }
    j
}

/// The number written in `a..e`, held at 2^64 once it reaches that, and whether every
/// byte there is a digit.
fn exec_dec(s: &[u8], a: usize, e: usize) -> (r: (u128, bool))
    requires
        a <= e <= s@.len(),
    ensures
        r.1 == all_digits(s@, a as int, e as int),
        r.1 ==> r.0 == if dec(s@, a as int, e as int) < 0x1_0000_0000_0000_0000 {
            dec(s@, a as int, e as int)
        } else {
            0x1_0000_0000_0000_0000
        },
{
    let limit: u128 = 0x1_0000_0000_0000_0000;
    let mut v: u128 = 0;
    let mut k = a;
    while k < e
        invariant
            a <= k <= e <= s@.len(),
            all_digits(s@, a as int, k as int),
            0 <= dec(s@, a as int, k as int),
            v <= limit,
            limit == 0x1_0000_0000_0000_0000,
            v == if dec(s@, a as int, k as int) < limit {
                dec(s@, a as int, k as int)
            } else {
                limit as int
            },
        decreases e - k,
    {
        let b = s[k];
        if !(48 <= b && b <= 57) {
            return (0, false);
        }
        v = v * 10 + (b - 48) as u128;
        if v > limit {
            v = limit;
        }
        k = k + 1;
        assert(dec(s@, a as int, k as int) == dec(s@, a as int, k - 1) * 10 + (s@[k - 1] - 48));
    }
    (v, true)
}

fn exec_find_dot(s: &[u8], a: usize, e: usize) -> (r: usize)
    requires
        a <= e <= s@.len(),
    ensures
        r == find_dot(s@, a as int, e as int),
        a <= r <= e,
{
    let mut j = a;
    while j < e && s[j] != 46
        invariant
            a <= j <= e <= s@.len(),
            find_dot(s@, j as int, e as int) == find_dot(s@, a as int, e as int),
        decreases e - j,
    {
        j = j + 1;
    }
    j
}

fn exec_note_field(s: &[u8], a: usize, e: usize) -> (r: Option<u8>)
    requires
        a <= e <= s@.len(),
    ensures
        r == note_field(s@, a as int, e as int),
{
    if a >= e {
        return None;
    }
    let (v, ok) = exec_dec(s, a, e);
    if ok && v <= 127 {
        Some(v as u8)
    } else {
        None
    }
}

fn exec_milli_field(s: &[u8], a: usize, e: usize) -> (r: Option<u64>)
    requires
        a <= e <= s@.len(),
    ensures
        r == milli_field(s@, a as int, e as int),
{
    let d = exec_find_dot(s, a, e);
    if a >= d {
        return None;
    }
    let (whole, ok) = exec_dec(s, a, d);
    if !ok {
        return None;
    }
    let frac_start = if d < e { d + 1 } else { e };
    let (_, frac_ok) = exec_dec(s, frac_start, e);
    if !frac_ok {
        return None;
    }
    assert(all_digits(s@, d + 1, e as int)) by {
        assert forall|k: int| d + 1 <= k < e implies is_digit(#[trigger] s@[k]) by {
            assert(frac_start <= k);
        }
    }
    let d1: u128 = if e - d > 1 { (s[d + 1] - 48) as u128 } else { 0 };
    let d2: u128 = if e - d > 2 { (s[d + 2] - 48) as u128 } else { 0 };
    let d3: u128 = if e - d > 3 { (s[d + 3] - 48) as u128 } else { 0 };
    assert(d1 == frac_digit(s@, d + 1, e as int));
    assert(d2 == frac_digit(s@, d + 2, e as int));
    assert(d3 == frac_digit(s@, d + 3, e as int));
    let v: u128 = whole * 1000 + 100 * d1 + 10 * d2 + d3;
    if v > 0xffff_ffff_ffff_ffff {
        None
    } else {
        Some(v as u64)
    }
}

fn exec_row_at(s: &[u8], i: usize) -> (r: Option<((u8, u64, u64, u64), usize)>)
    requires
        i < s@.len(),
    ensures
        match r {
            Some((row, next)) => row_at(s@, i as int) == Some((row, next as int)) && i < next <= s@.len(),
            None => row_at(s@, i as int) is None,
        },
{
    let a0 = exec_skip_blank(s, i);
    let e0 = exec_field_end(s, a0);
    let a1 = exec_skip_blank(s, e0);
    let e1 = exec_field_end(s, a1);
    let a2 = exec_skip_blank(s, e1);
    let e2 = exec_field_end(s, a2);
    let a3 = exec_skip_blank(s, e2);
    let e3 = exec_field_end(s, a3);
    let le = exec_line_end(s, e3);
    let next = if le >= s.len() { s.len() } else { le + 1 };
    let n = exec_note_field(s, a0, e0);
    let c = exec_milli_field(s, a1, e1);
    let lo = exec_milli_field(s, a2, e2);
    let hi = exec_milli_field(s, a3, e3);
    match (n, c, lo, hi) {
        (Some(n), Some(c), Some(lo), Some(hi)) => Some(((n, c, lo, hi), next)),
        _ => None,
    }
}

impl NoteContainer {
    /// The rows of the table, field by field.
    pub open spec fn rows(&self) -> Seq<(u8, u64, u64, u64)> {
        Seq::new(
            self.numbers@.len(),
            |i: int|
                (
                    self.numbers@[i],
                    self.frequencies@[i],
                    self.before_frequencies@[i],
                    self.after_frequencies@[i],
                ),
        )
    }

    /// Reads a table of one row per line: note number, centre frequency, lower bound and
    /// upper bound of its band, in hertz, separated by blanks. Any malformed or short row
    /// fails the whole table.
    pub fn new(text: &str) -> (r: Result<NoteContainer, TableError>)
        ensures
            match rows_from(text.spec_bytes(), 0) {
                Some(rows) => r is Ok && r->Ok_0.wf() && r->Ok_0.rows() == rows,
                None => r == Err::<NoteContainer, TableError>(TableError::MalformedRow),
            },
    {
        let s = text.as_bytes();
        let mut notes = NoteContainer {
            numbers: Vec::new(),
            frequencies: Vec::new(),
            before_frequencies: Vec::new(),
            after_frequencies: Vec::new(),
        };
        let mut i: usize = 0;
        while i < s.len()
            invariant
                s@ == text.spec_bytes(),
                i <= s@.len(),
                notes.wf(),
                rows_from(s@, 0) == match rows_from(s@, i as int) {
                    Some(rest) => Some(notes.rows() + rest),
                    None => None,
                },
            decreases s@.len() - i,
        {
            match exec_row_at(s, i) {
                None => {
                    return Err(TableError::MalformedRow);
                },
                Some((row, next)) => {
                    let ghost before = notes.rows();
                    notes.numbers.push(row.0);
                    notes.frequencies.push(row.1);
                    notes.before_frequencies.push(row.2);
                    notes.after_frequencies.push(row.3);
                    proof {
                        assert(notes.rows() =~= before + seq![row]);
                        match rows_from(s@, next as int) {
                            Some(rest) => {
                                assert(before + (seq![row] + rest) =~= notes.rows() + rest);
                            },
                            None => {},
                        }
                    }
                    i = next;
                },
            }
        }
        proof {
            assert(notes.rows() + seq![] =~= notes.rows());
        }
        Ok(notes)
    }
}

/// The name of a pitch class, 0 being C.
pub open spec fn pitch_class_name(k: int) -> Seq<char> {
    if k == 0 {
        "ド/C"@
    } else if k == 1 {
        "ド♯/C♯"@
    } else if k == 2 {
        "レ/D"@
    } else if k == 3 {
        "レ♯/D♯"@
    } else if k == 4 {
        "ミ/E"@
    } else if k == 5 {
        "ファ/F"@
    } else if k == 6 {
        "ファ♯/F♯"@
    } else if k == 7 {
        "ソ/G"@
    } else if k == 8 {
        "ソ♯/G♯"@
    } else if k == 9 {
        "ラ/A"@
    } else if k == 10 {
        "ラ♯/A♯"@
    } else {
        "シ/B"@
    }
}

pub open spec fn digit_char(d: int) -> char {
    ((d + 48) as u8) as char
}

/// A natural number in decimal digits.
pub open spec fn decimal(n: nat) -> Seq<char>
    decreases n,
{
    if n < 10 {
        seq![digit_char(n as int)]
    } else {
        decimal(n / 10) + seq![digit_char((n % 10) as int)]
    }
}

/// An integer in decimal digits, with a leading minus sign when negative.
pub open spec fn signed_decimal(i: int) -> Seq<char> {
    if i < 0 {
        seq!['-'] + decimal((-i) as nat)
    } else {
        decimal(i as nat)
    }
}

/// The name of a note: its pitch class, a space and its octave, C4 being note 60.
pub open spec fn note_name(n: u8) -> Seq<char> {
    pitch_class_name(n as int % 12) + seq![' '] + signed_decimal(n as int / 12 - 1)
}

fn pitch_class_str(k: u8) -> (r: &'static str)
    requires
        k < 12,
    ensures
        r@ == pitch_class_name(k as int),
{
    match k {
        0 => {
            proof {
                reveal_strlit("ド/C");
            }
            "ド/C"
        },
        1 => {
            proof {
                reveal_strlit("ド♯/C♯");
            }
            "ド♯/C♯"
        },
        2 => {
            proof {
                reveal_strlit("レ/D");
            }
            "レ/D"
        },
        3 => {
            proof {
                reveal_strlit("レ♯/D♯");
            }
            "レ♯/D♯"
        },
        4 => {
            proof {
                reveal_strlit("ミ/E");
            }
            "ミ/E"
        },
        5 => {
            proof {
                reveal_strlit("ファ/F");
            }
            "ファ/F"
        },
        6 => {
            proof {
                reveal_strlit("ファ♯/F♯");
            }
            "ファ♯/F♯"
        },
        7 => {
            proof {
                reveal_strlit("ソ/G");
            }
            "ソ/G"
        },
        8 => {
            proof {
                reveal_strlit("ソ♯/G♯");
            }
            "ソ♯/G♯"
        },
        9 => {
            proof {
                reveal_strlit("ラ/A");
            }
            "ラ/A"
        },
        10 => {
            proof {
                reveal_strlit("ラ♯/A♯");
            }
            "ラ♯/A♯"
        },
        _ => {
            proof {
                reveal_strlit("シ/B");
            }
            "シ/B"
        },
    }
}

fn digit_str(d: u8) -> (r: &'static str)
    requires
        d < 10,
    ensures
        r@ == seq![digit_char(d as int)],
{
    match d {
        0 => {
            proof {
                reveal_strlit("0");
            }
            "0"
        },
        1 => {
            proof {
                reveal_strlit("1");
            }
            "1"
        },
        2 => {
            proof {
                reveal_strlit("2");
            }
            "2"
        },
        3 => {
            proof {
                reveal_strlit("3");
            }
            "3"
        },
        4 => {
            proof {
                reveal_strlit("4");
            }
            "4"
        },
        5 => {
            proof {
                reveal_strlit("5");
            }
            "5"
        },
        6 => {
            proof {
                reveal_strlit("6");
            }
            "6"
        },
        7 => {
            proof {
                reveal_strlit("7");
            }
            "7"
        },
        8 => {
            proof {
                reveal_strlit("8");
            }
            "8"
        },
        _ => {
            proof {
                reveal_strlit("9");
            }
            "9"
        },
    }
}

impl Note {
    /// The name of the note, such as `ラ/A 4` for note 69.
    pub fn get_name(&self) -> (r: String)
        ensures
            r@ == note_name(self.0),
    {
        let n = self.0;
        let mut r = String::from_str(pitch_class_str(n % 12));
        proof {
            reveal_strlit(" ");
        }
        r.append(" ");
        let octave: u8 = n / 12;
        if octave == 0 {
            proof {
                reveal_strlit("-1");
            }
            r.append("-1");
            assert(signed_decimal(-1) =~= seq!['-', '1']);
        } else {
            let o = octave - 1;
            if o >= 10 {
                r.append(digit_str(o / 10));
                r.append(digit_str(o % 10));
                assert(decimal(o as nat) =~= decimal((o / 10) as nat) + seq![digit_char((o % 10) as int)]);
            } else {
                r.append(digit_str(o));
            }
        }
        proof {
            assert(r@ =~= note_name(n));
        }
        r
    }
}

} // verus!
