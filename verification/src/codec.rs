//! The save/load text codec: decimal numbers, per-machine payloads,
//! per-cell records, and the whole-world round trip.
//!
//! Records are ASCII bytes. The grammar is fixed here and stated as
//! spec-level parsing functions; the executable renderer and parser
//! are both proved against them, and rendering then parsing is proved
//! to give back exactly what was rendered.

use vstd::prelude::*;

use crate::tower::{Machine, Tower};

verus! {

/// Why a load cannot be completed: a malformed record is fatal for
/// the whole load, never a partial recovery.
#[derive(Clone, Copy, Debug, PartialEq, Eq, Structural)]
pub enum LoadError {
    Malformed,
}

/// An ASCII decimal digit.
pub open spec fn is_digit(b: u8) -> bool {
    48 <= b <= 57
}

/// The decimal digits of `n`, most significant first, no sign, no
/// leading zeros (a single zero for 0).
pub open spec fn dec_digits(n: nat) -> Seq<u8>
    decreases n,
{
    if n < 10 {
        seq![(48 + n) as u8]
    } else {
        dec_digits(n / 10).push((48 + n % 10) as u8)
    }
}

/// The value of a digit string, most significant first.
pub open spec fn digits_val(s: Seq<u8>) -> nat
    decreases s.len(),
{
    if s.len() == 0 {
        0
    } else {
        (digits_val(s.drop_last()) * 10 + (s.last() - 48)) as nat
    }
}

/// The first position at or after `i` that is past the end or holds a
/// non-digit: the end of the digit run starting at `i`.
pub open spec fn run_end(s: Seq<u8>, i: int) -> int
    decreases s.len() - i,
{
    if i < 0 || i >= s.len() || !is_digit(s[i]) {
        i
    } else {
        run_end(s, i + 1)
    }
}

/// Parse an unsigned decimal number at position `i`: the maximal digit
/// run starting there, rejected when it is empty or its value does not
/// fit in 64 bits.
pub open spec fn spec_parse_u64(s: Seq<u8>, i: int) -> Option<(u64, int)> {
    let j = run_end(s, i);
    if j == i {
        None
    } else if digits_val(s.subrange(i, j)) > u64::MAX {
        None
    } else {
        Some((digits_val(s.subrange(i, j)) as u64, j))
    }
}

/// Parse a signed decimal number at position `i`: an optional minus
/// sign and a digit run, rejected when the value does not fit in 32
/// bits.
pub open spec fn spec_parse_i32(s: Seq<u8>, i: int) -> Option<(i32, int)> {
    if 0 <= i < s.len() && s[i] == 45 {
        match spec_parse_u64(s, i + 1) {
            Some((v, j)) => if v <= 0x8000_0000 {
                Some(((-(v as int)) as i32, j))
            } else {
                None
            },
            None => None,
        }
    } else {
        match spec_parse_u64(s, i) {
            Some((v, j)) => if v <= 0x7fff_ffff {
                Some((v as i32, j))
            } else {
                None
            },
            None => None,
        }
    }
}

/// The digits of `x` with a leading minus sign when negative.
pub open spec fn i32_digits(x: int) -> Seq<u8> {
    if x < 0 {
        seq![45u8] + dec_digits((-x) as nat)
    } else {
        dec_digits(x as nat)
    }
}

// ---------------------------------------------------------------
// Facts about the digit model.
// ---------------------------------------------------------------
/// Every byte of a rendering is a digit, and there is at least one.
pub proof fn lemma_dec_digits_are_digits(n: nat)
    ensures
        dec_digits(n).len() >= 1,
        forall|m: int| 0 <= m < dec_digits(n).len() ==> is_digit(#[trigger] dec_digits(n)[m]),
    decreases n,
{
    if n >= 10 {
        lemma_dec_digits_are_digits(n / 10);
    }
}

/// Reading back the digits of `n` yields `n`.
pub proof fn lemma_digits_val_of_dec(n: nat)
    ensures
        digits_val(dec_digits(n)) == n,
    decreases n,
{
    if n < 10 {
        let s = dec_digits(n);
        assert(s == seq![(48 + n) as u8]);
        assert(s.drop_last() =~= Seq::<u8>::empty());
        assert(digits_val(Seq::<u8>::empty()) == 0);
        assert(s.last() == (48 + n) as u8);
        assert(digits_val(s) == (digits_val(s.drop_last()) * 10 + (s.last() - 48)) as nat);
    } else {
        lemma_digits_val_of_dec(n / 10);
        let s = dec_digits(n);
        assert(s.drop_last() =~= dec_digits(n / 10));
        assert(s.last() == (48 + n % 10) as u8);
        assert(digits_val(s) == (digits_val(s.drop_last()) * 10 + (s.last() - 48)) as nat);
        assert((n / 10) * 10 + n % 10 == n);
    }
}

/// A digit run that visibly stops at `j` has `j` as its end.
pub proof fn lemma_run_end_is(s: Seq<u8>, i: int, j: int)
    requires
        0 <= i <= j <= s.len(),
        forall|m: int| i <= m < j ==> is_digit(#[trigger] s[m]),
        j == s.len() || !is_digit(s[j]),
    ensures
        run_end(s, i) == j,
    decreases j - i,
{
    if i < j {
        lemma_run_end_is(s, i + 1, j);
    }
}

/// `run_end` never moves left and stops within the string.
pub proof fn lemma_run_end_bounds(s: Seq<u8>, i: int)
    requires
        0 <= i <= s.len(),
    ensures
        i <= run_end(s, i) <= s.len(),
        forall|m: int| i <= m < run_end(s, i) ==> is_digit(#[trigger] s[m]),
        run_end(s, i) == s.len() || !is_digit(s[run_end(s, i)]),
    decreases s.len() - i,
{
    if i < s.len() && is_digit(s[i]) {
        lemma_run_end_bounds(s, i + 1);
    }
}

/// Parsing at a rendered number that is followed by a non-digit (or
/// the end) gives back exactly that number and stops right after it.
pub proof fn lemma_parse_u64_of_dec(s: Seq<u8>, i: int, n: u64)
    requires
        0 <= i,
        i + dec_digits(n as nat).len() <= s.len(),
        s.subrange(i, i + dec_digits(n as nat).len() as int) == dec_digits(n as nat),
        i + dec_digits(n as nat).len() == s.len() || !is_digit(
            s[i + dec_digits(n as nat).len()],
        ),
    ensures
        spec_parse_u64(s, i) == Some((n, i + dec_digits(n as nat).len() as int)),
{
    let d = dec_digits(n as nat);
    let j = i + d.len() as int;
    lemma_dec_digits_are_digits(n as nat);
    assert(forall|m: int| i <= m < j ==> is_digit(#[trigger] s[m])) by {
        assert(forall|m: int| i <= m < j ==> s[m] == d[m - i]);
    }
    lemma_run_end_is(s, i, j);
    lemma_digits_val_of_dec(n as nat);
    assert(s.subrange(i, j) == d);
}

/// Same for a signed rendering.
pub proof fn lemma_parse_i32_of_digits(s: Seq<u8>, i: int, x: i32)
    requires
        0 <= i,
        i + i32_digits(x as int).len() <= s.len(),
        s.subrange(i, i + i32_digits(x as int).len() as int) == i32_digits(x as int),
        i + i32_digits(x as int).len() == s.len() || !is_digit(
            s[i + i32_digits(x as int).len()],
        ),
        i + i32_digits(x as int).len() == s.len() || s[i + i32_digits(x as int).len()] != 45,
    ensures
        spec_parse_i32(s, i) == Some((x, i + i32_digits(x as int).len() as int)),
{
    let d = i32_digits(x as int);
    if x < 0 {
        let n = (-(x as int)) as u64;
        let dd = dec_digits(n as nat);
        assert(d == seq![45u8] + dd);
        assert(s[i] == d[0]);
        assert(d[0] == 45);
        assert(s.subrange(i + 1, i + 1 + dd.len() as int) =~= dd) by {
            assert(forall|m: int| 0 <= m < dd.len() ==> s[i + 1 + m] == d[m + 1] && d[m + 1]
                == dd[m]);
        }
        lemma_parse_u64_of_dec(s, i + 1, n);
        assert(n <= 0x8000_0000);
        assert((-(n as int)) as i32 == x);
    } else {
        let n = x as u64;
        assert(d == dec_digits(n as nat));
        lemma_parse_u64_of_dec(s, i, n);
        lemma_dec_digits_are_digits(n as nat);
        assert(is_digit(s[i])) by {
            assert(s[i] == d[0]);
        }
        assert(s[i] != 45);
        assert(n <= 0x7fff_ffff);
    }
}

// ---------------------------------------------------------------
// Executable rendering.
// ---------------------------------------------------------------
/// Append the decimal digits of `n`.
pub fn render_u64(n: u64, out: &mut Vec<u8>)
    ensures
        final(out)@ == old(out)@ + dec_digits(n as nat),
    decreases n,
{
    if n < 10 {
        out.push(48 + (n as u8));
        proof {
            assert(final(out)@ =~= old(out)@ + dec_digits(n as nat));
        }
    } else {
        render_u64(n / 10, out);
        out.push(48 + ((n % 10) as u8));
        proof {
            assert(final(out)@ =~= old(out)@ + dec_digits(n as nat));
        }
    }
}

/// Append the decimal rendering of `x`, minus sign included.
pub fn render_i32(x: i32, out: &mut Vec<u8>)
    ensures
        final(out)@ == old(out)@ + i32_digits(x as int),
{
    if x < 0 {
        out.push(45);
        let n: u64 = (-(x as i64)) as u64;
        render_u64(n, out);
        proof {
            assert(final(out)@ =~= old(out)@ + i32_digits(x as int));
        }
    } else {
        render_u64(x as u64, out);
    }
}

// ---------------------------------------------------------------
// Executable parsing.
// ---------------------------------------------------------------
/// Parse an unsigned decimal number at `i`, exactly as the
/// specification parser does.
pub fn parse_u64(s: &[u8], i: usize) -> (r: Option<(u64, usize)>)
    requires
        i <= s@.len(),
    ensures
        match r {
            Some((v, j)) => spec_parse_u64(s@, i as int) == Some((v, j as int)) && i < j <= s@.len(),
            None => spec_parse_u64(s@, i as int) is None,
        },
{
    proof {
        lemma_run_end_bounds(s@, i as int);
    }
    let ghost re = run_end(s@, i as int);
    let len = s.len();
    let mut j = i;
    let mut v: u64 = 0;
    let mut overflow = false;
    while j < len && 48 <= s[j] && s[j] <= 57
        invariant
            i <= j <= len,
            len == s@.len(),
            re == run_end(s@, i as int),
            i <= re <= len,
            forall|m: int| i <= m < re ==> is_digit(#[trigger] s@[m]),
            re == s@.len() || !is_digit(s@[re]),
            j <= re,
            forall|m: int| i <= m < j ==> is_digit(#[trigger] s@[m]),
            !overflow ==> v == digits_val(s@.subrange(i as int, j as int)),
            overflow ==> digits_val(s@.subrange(i as int, j as int)) > u64::MAX,
        decreases len - j,
    {
        let d: u8 = s[j] - 48;
        proof {
            assert(s@.subrange(i as int, j + 1 as int) =~= s@.subrange(i as int, j as int).push(
                s@[j as int],
            ));
            assert(digits_val(s@.subrange(i as int, j + 1)) == digits_val(
                s@.subrange(i as int, j as int),
            ) * 10 + d) by {
                assert(s@.subrange(i as int, j + 1).drop_last() =~= s@.subrange(
                    i as int,
                    j as int,
                ));
            }
        }
        if overflow {
            proof {
                assert(digits_val(s@.subrange(i as int, j as int)) * 10 + d > u64::MAX)
                    by (nonlinear_arith)
                    requires
                        digits_val(s@.subrange(i as int, j as int)) > u64::MAX,
                        d >= 0,
                ;
            }
        } else if v > (u64::MAX - (d as u64)) / 10 {
            overflow = true;
            proof {
                assert(v * 10 + d > u64::MAX) by (nonlinear_arith)
                    requires
                        v > (u64::MAX - d) / 10,
                        0 <= d <= 9,
                        v <= u64::MAX,
                ;
            }
        } else {
            proof {
                assert(v * 10 + d <= u64::MAX) by (nonlinear_arith)
                    requires
                        v <= (u64::MAX - d) / 10,
                        0 <= d <= 9,
                ;
            }
            v = v * 10 + (d as u64);
        }
        j = j + 1;
        proof {
            if j <= re {
            } else {
                assert(j == re + 1);
                assert(is_digit(s@[re]));
                assert(false);
            }
        }
    }
    proof {
        assert(j == re) by {
            if j < re {
                assert(is_digit(s@[j as int]));
            }
        }
    }
    if j == i {
        None
    } else if overflow {
        None
    } else {
        Some((v, j))
    }
}

/// Parse a signed decimal number at `i`, exactly as the specification
/// parser does.
pub fn parse_i32(s: &[u8], i: usize) -> (r: Option<(i32, usize)>)
    requires
        i <= s@.len(),
    ensures
        match r {
            Some((v, j)) => spec_parse_i32(s@, i as int) == Some((v, j as int)) && i < j <= s@.len(),
            None => spec_parse_i32(s@, i as int) is None,
        },
{
    if i < s.len() && s[i] == 45 {
        match parse_u64(s, i + 1) {
            Some((v, j)) => {
                if v <= 0x8000_0000 {
                    let x: i32 = (-(v as i64)) as i32;
                    Some((x, j))
                } else {
                    None
                }
            },
            None => None,
        }
    } else {
        match parse_u64(s, i) {
            Some((v, j)) => {
                if v <= 0x7fff_ffff {
                    Some((v as i32, j))
                } else {
                    None
                }
            },
            None => None,
        }
    }
}

// ---------------------------------------------------------------
// Machine payloads: `buffer: <n> rate: <n>`.
// ---------------------------------------------------------------
/// The literal `"buffer: "`.
pub open spec fn lit_buffer() -> Seq<u8> {
    seq![
        'b' as u8,
        'u' as u8,
        'f' as u8,
        'f' as u8,
        'e' as u8,
        'r' as u8,
        ':' as u8,
        ' ' as u8,
    ]
}

/// The literal `" rate: "`.
pub open spec fn lit_rate() -> Seq<u8> {
    seq![' ' as u8, 'r' as u8, 'a' as u8, 't' as u8, 'e' as u8, ':' as u8, ' ' as u8]
}

/// `t` occurs in `s` starting at `i`.
pub open spec fn starts_with_at(s: Seq<u8>, i: int, t: Seq<u8>) -> bool {
    0 <= i && i + t.len() <= s.len() && s.subrange(i, i + t.len() as int) == t
}

/// The payload of a machine: its buffer and rate in thousandths.
pub open spec fn payload_bytes(m: Machine) -> Seq<u8> {
    lit_buffer() + dec_digits(m.buffer as nat) + lit_rate() + dec_digits(m.rate as nat)
}

/// Parse a machine payload at `i`: the two named numbers in order.
pub open spec fn spec_parse_payload(s: Seq<u8>, i: int) -> Option<((u64, u64), int)> {
    if !starts_with_at(s, i, lit_buffer()) {
        None
    } else {
        match spec_parse_u64(s, i + 8) {
            Some((b, j)) => if starts_with_at(s, j, lit_rate()) {
                match spec_parse_u64(s, j + 7) {
                    Some((r, j2)) => Some(((b, r), j2)),
                    None => None,
                }
            } else {
                None
            },
            None => None,
        }
    }
}

/// Append the literal `"buffer: "`.
fn push_lit_buffer(out: &mut Vec<u8>)
    ensures
        final(out)@ == old(out)@ + lit_buffer(),
{
    out.push('b' as u8);
    out.push('u' as u8);
    out.push('f' as u8);
    out.push('f' as u8);
    out.push('e' as u8);
    out.push('r' as u8);
    out.push(':' as u8);
    out.push(' ' as u8);
    proof {
        assert(final(out)@ =~= old(out)@ + lit_buffer());
    }
}

/// Append the literal `" rate: "`.
fn push_lit_rate(out: &mut Vec<u8>)
    ensures
        final(out)@ == old(out)@ + lit_rate(),
{
    out.push(' ' as u8);
    out.push('r' as u8);
    out.push('a' as u8);
    out.push('t' as u8);
    out.push('e' as u8);
    out.push(':' as u8);
    out.push(' ' as u8);
    proof {
        assert(final(out)@ =~= old(out)@ + lit_rate());
    }
}

/// The literal `"buffer: "` as a byte vector.
fn lit_buffer_vec() -> (v: Vec<u8>)
    ensures
        v@ == lit_buffer(),
{
    let mut v: Vec<u8> = Vec::new();
    push_lit_buffer(&mut v);
    proof {
        assert(v@ =~= lit_buffer());
    }
    v
}

/// The literal `" rate: "` as a byte vector.
fn lit_rate_vec() -> (v: Vec<u8>)
    ensures
        v@ == lit_rate(),
{
    let mut v: Vec<u8> = Vec::new();
    push_lit_rate(&mut v);
    proof {
        assert(v@ =~= lit_rate());
    }
    v
}

/// Whether `lit` occurs in `s` at position `i`.
fn starts_at(s: &[u8], i: usize, lit: &[u8]) -> (b: bool)
    requires
        i <= s@.len(),
    ensures
        b == starts_with_at(s@, i as int, lit@),
{
    let slen = s.len();
    if slen - i < lit.len() {
        return false;
    }
    let n = lit.len();
    let mut m: usize = 0;
    while m < n
        invariant
            n == lit@.len(),
            slen == s@.len(),
            i + n <= slen,
            m <= n,
            forall|q: int| 0 <= q < m ==> s@[i + q] == lit@[q],
        decreases n - m,
    {
        if s[i + m] != lit[m] {
            proof {
                assert(s@.subrange(i as int, i + n as int)[m as int] != lit@[m as int]);
            }
            return false;
        }
        m = m + 1;
    }
    proof {
        assert(s@.subrange(i as int, i + n as int) =~= lit@);
    }
    true
}

/// Append the payload of `m`.
pub fn render_payload(m: &Machine, out: &mut Vec<u8>)
    ensures
        final(out)@ == old(out)@ + payload_bytes(*m),
{
    push_lit_buffer(out);
    render_u64(m.buffer, out);
    push_lit_rate(out);
    render_u64(m.rate, out);
    proof {
        assert(final(out)@ =~= old(out)@ + payload_bytes(*m));
    }
}

/// Parse a machine payload at `i`, exactly as the specification
/// parser does.
pub fn parse_payload(s: &[u8], i: usize) -> (r: Option<((u64, u64), usize)>)
    requires
        i <= s@.len(),
    ensures
        match r {
            Some((bv, j)) => spec_parse_payload(s@, i as int) == Some((bv, j as int)) && i < j
                <= s@.len(),
            None => spec_parse_payload(s@, i as int) is None,
        },
{
    let slen = s.len();
    let litb = lit_buffer_vec();
    if !starts_at(s, i, litb.as_slice()) {
        return None;
    }
    proof {
        assert(i + 8 <= slen);
    }
    let b_and_j = parse_u64(s, i + 8);
    match b_and_j {
        Some((b, j)) => {
            let litr = lit_rate_vec();
            if !starts_at(s, j, litr.as_slice()) {
                return None;
            }
            proof {
                assert(j + 7 <= slen);
            }
            match parse_u64(s, j + 7) {
                Some((r, j2)) => Some(((b, r), j2)),
                None => None,
            }
        },
        None => None,
    }
}

/// Rendering a payload and parsing it back gives exactly the two
/// numbers that were rendered, consuming the whole payload; the byte
/// right after it, if any, must not be a digit.
pub proof fn lemma_parse_payload_of_bytes(s: Seq<u8>, i: int, m: Machine)
    requires
        0 <= i,
        i + payload_bytes(m).len() <= s.len(),
        s.subrange(i, i + payload_bytes(m).len() as int) == payload_bytes(m),
        i + payload_bytes(m).len() == s.len() || !is_digit(s[i + payload_bytes(m).len()]),
    ensures
        spec_parse_payload(s, i) == Some(
            ((m.buffer, m.rate), i + payload_bytes(m).len() as int),
        ),
{
    let p = payload_bytes(m);
    let d1 = dec_digits(m.buffer as nat);
    let d2 = dec_digits(m.rate as nat);
    let l = p.len() as int;
    assert(forall|q: int| 0 <= q < l ==> s[i + q] == #[trigger] p[q]) by {
        assert(forall|q: int| 0 <= q < l ==> #[trigger] p[q] == s.subrange(i, i + l)[q]);
    }
    // Where each piece of the payload sits inside `p`.
    let j1 = i + 8 + d1.len() as int;
    let j2 = j1 + 7 + d2.len() as int;
    assert(j2 == i + l);
    // "buffer: " sits at i.
    assert(s.subrange(i, i + 8) =~= lit_buffer()) by {
        assert forall|k: int| 0 <= k < 8 implies s.subrange(i, i + 8)[k] == lit_buffer()[k] by {
            assert(s[i + k] == p[k]);
            assert(p[k] == lit_buffer()[k]);
        }
    }
    // the buffer digits sit at i + 8, followed by the space of " rate: ".
    assert(s.subrange(i + 8, j1) =~= d1) by {
        assert forall|k: int| 0 <= k < d1.len() implies s.subrange(i + 8, j1)[k] == d1[k] by {
            assert(s[i + 8 + k] == p[8 + k]);
            assert(p[8 + k] == d1[k]);
        }
    }
    assert(s[j1] == p[8 + d1.len() as int]);
    assert(p[8 + d1.len() as int] == lit_rate()[0]);
    assert(lit_rate()[0] == ' ' as u8);
    lemma_parse_u64_of_dec(s, i + 8, m.buffer);
    // " rate: " sits at j1.
    assert(s.subrange(j1, j1 + 7) =~= lit_rate()) by {
        assert forall|k: int| 0 <= k < 7 implies s.subrange(j1, j1 + 7)[k] == lit_rate()[k] by {
            assert(s[j1 + k] == p[8 + d1.len() + k]);
            assert(p[8 + d1.len() + k] == lit_rate()[k]);
        }
    }
    // the rate digits sit at j1 + 7, ending the payload.
    assert(s.subrange(j1 + 7, j2) =~= d2) by {
        assert forall|k: int| 0 <= k < d2.len() implies s.subrange(j1 + 7, j2)[k] == d2[k] by {
            assert(s[j1 + 7 + k] == p[8 + d1.len() + 7 + k]);
            assert(p[8 + d1.len() + 7 + k] == d2[k]);
        }
    }
    lemma_parse_u64_of_dec(s, j1 + 7, m.rate);
}

/// A machine reconstructed from a whole payload for tag `t`: the
/// payload must parse and be consumed exactly.
pub open spec fn spec_machine_of_payload(t: Tower, s: Seq<u8>) -> Option<Machine> {
    match spec_parse_payload(s, 0) {
        Some(((b, r), j)) => if j == s.len() {
            Some(Machine { tower: t, buffer: b, rate: r })
        } else {
            None
        },
        None => None,
    }
}

impl Machine {
    /// The compact text record of this machine's mutable state. The
    /// sentinel is never stored, so it is never serialized.
    pub fn serialize(&self) -> (out: Vec<u8>)
        requires
            self.tower != Tower::Empty,
        ensures
            out@ == payload_bytes(*self),
    {
        let mut out: Vec<u8> = Vec::new();
        render_payload(self, &mut out);
        proof {
            assert(out@ =~= payload_bytes(*self));
        }
        out
    }
}

impl Tower {
    /// Reconstruct a machine of this tag from a payload. Fails, and
    /// says so, exactly on input that is not a whole well-formed
    /// payload. The sentinel is never stored, so it is never
    /// deserialized.
    pub fn deserialize_machine(self, raw: &[u8]) -> (r: Result<Machine, LoadError>)
        requires
            self != Tower::Empty,
        ensures
            r == (match spec_machine_of_payload(self, raw@) {
                Some(m) => Ok::<Machine, LoadError>(m),
                None => Err::<Machine, LoadError>(LoadError::Malformed),
            }),
    {
        match parse_payload(raw, 0) {
            Some(((b, rr), j)) => {
                if j == raw.len() {
                    Ok(Machine { tower: self, buffer: b, rate: rr })
                } else {
                    Err(LoadError::Malformed)
                }
            },
            None => Err(LoadError::Malformed),
        }
    }
}

/// Round trip: for every machine of a storable tag, deserializing its
/// serialization reproduces the same observable buffer and rate: the
/// same machine value.
pub proof fn lemma_machine_round_trip(m: Machine)
    requires
        m.tower != Tower::Empty,
    ensures
        spec_machine_of_payload(m.tower, payload_bytes(m)) == Some(m),
{
    let p = payload_bytes(m);
    assert(p.subrange(0, p.len() as int) =~= p);
    lemma_parse_payload_of_bytes(p, 0, m);
}

// ---------------------------------------------------------------
// Per-cell records: `<x> <y> <tag> buffer: <n> rate: <n>\n`.
// ---------------------------------------------------------------
/// The numeric code a tag is stored under: its enumeration index.
pub open spec fn tag_code(t: Tower) -> u64 {
    t.index_spec() as u64
}

/// The tag stored under a code; the sentinel has no code, so a loaded
/// record can never hold it.
pub open spec fn tower_of_code(n: u64) -> Option<Tower> {
    if n == 1 {
        Some(Tower::Electron)
    } else if n == 2 {
        Some(Tower::StringCreator)
    } else if n == 3 {
        Some(Tower::AntimatterCollector)
    } else if n == 4 {
        Some(Tower::Energy)
    } else {
        None
    }
}

/// One save record: both coordinates, the tag code, the payload, and
/// a terminating newline.
pub open spec fn record_bytes(c: crate::GridPos, m: Machine) -> Seq<u8> {
    i32_digits(c.x as int) + seq![' ' as u8] + i32_digits(c.y as int) + seq![' ' as u8]
        + dec_digits(tag_code(m.tower) as nat) + seq![' ' as u8] + payload_bytes(m) + seq![
        '\n' as u8,
    ]
}

/// Parse one record at `i`.
pub open spec fn spec_parse_record(s: Seq<u8>, i: int) -> Option<((u64, Machine), int)> {
    match spec_parse_i32(s, i) {
        Some((x, j1)) => if j1 < s.len() && s[j1] == ' ' as u8 {
            match spec_parse_i32(s, j1 + 1) {
                Some((y, j2)) => if j2 < s.len() && s[j2] == ' ' as u8 {
                    match spec_parse_u64(s, j2 + 1) {
                        Some((code, j3)) => match tower_of_code(code) {
                            Some(t) => if j3 < s.len() && s[j3] == ' ' as u8 {
                                match spec_parse_payload(s, j3 + 1) {
                                    Some(((b, r), j4)) => if j4 < s.len() && s[j4] == '\n' as u8 {
                                        Some(
                                            (
                                                (
                                                    crate::key_of(crate::GridPos { x, y }),
                                                    Machine { tower: t, buffer: b, rate: r },
                                                ),
                                                j4 + 1,
                                            ),
                                        )
                                    } else {
                                        None
                                    },
                                    None => None,
                                }
                            } else {
                                None
                            },
                            None => None,
                        },
                        None => None,
                    }
                } else {
                    None
                },
                None => None,
            }
        } else {
            None
        },
        None => None,
    }
}

/// Append one record.
pub fn render_record(c: crate::GridPos, m: &Machine, out: &mut Vec<u8>)
    requires
        m.tower != Tower::Empty,
    ensures
        final(out)@ == old(out)@ + record_bytes(c, *m),
{
    render_i32(c.x, out);
    out.push(' ' as u8);
    render_i32(c.y, out);
    out.push(' ' as u8);
    let code: u64 = m.tower.index() as u64;
    render_u64(code, out);
    out.push(' ' as u8);
    render_payload(m, out);
    out.push('\n' as u8);
    proof {
        assert(final(out)@ =~= old(out)@ + record_bytes(c, *m));
    }
}

/// The tag stored under a code.
pub fn tower_from_code(n: u64) -> (r: Option<Tower>)
    ensures
        r == tower_of_code(n),
{
    if n == 1 {
        Some(Tower::Electron)
    } else if n == 2 {
        Some(Tower::StringCreator)
    } else if n == 3 {
        Some(Tower::AntimatterCollector)
    } else if n == 4 {
        Some(Tower::Energy)
    } else {
        None
    }
}

/// Parse one record at `i`, exactly as the specification parser does.
pub fn parse_record(s: &[u8], i: usize) -> (r: Option<((u64, Machine), usize)>)
    requires
        i <= s@.len(),
    ensures
        match r {
            Some((km, j)) => spec_parse_record(s@, i as int) == Some((km, j as int)) && i < j
                <= s@.len(),
            None => spec_parse_record(s@, i as int) is None,
        },
{
    let slen = s.len();
    let (x, j1) = match parse_i32(s, i) {
        Some(v) => v,
        None => {
            return None;
        },
    };
    if !(j1 < slen && s[j1] == ' ' as u8) {
        return None;
    }
    let (y, j2) = match parse_i32(s, j1 + 1) {
        Some(v) => v,
        None => {
            return None;
        },
    };
    if !(j2 < slen && s[j2] == ' ' as u8) {
        return None;
    }
    let (code, j3) = match parse_u64(s, j2 + 1) {
        Some(v) => v,
        None => {
            return None;
        },
    };
    let t = match tower_from_code(code) {
        Some(t) => t,
        None => {
            return None;
        },
    };
    if !(j3 < slen && s[j3] == ' ' as u8) {
        return None;
    }
    let ((b, rr), j4) = match parse_payload(s, j3 + 1) {
        Some(v) => v,
        None => {
            return None;
        },
    };
    if !(j4 < slen && s[j4] == '\n' as u8) {
        return None;
    }
    let k = crate::grid_key(crate::GridPos { x, y });
    Some(((k, Machine { tower: t, buffer: b, rate: rr }), j4 + 1))
}

/// Rendering a record and parsing it back gives exactly the cell key
/// and machine that were rendered, consuming the whole record.
pub proof fn lemma_parse_record_of_bytes(s: Seq<u8>, i: int, c: crate::GridPos, m: Machine)
    requires
        m.tower != Tower::Empty,
        0 <= i,
        i + record_bytes(c, m).len() <= s.len(),
        s.subrange(i, i + record_bytes(c, m).len() as int) == record_bytes(c, m),
    ensures
        spec_parse_record(s, i) == Some(
            ((crate::key_of(c), m), i + record_bytes(c, m).len() as int),
        ),
{
    let p = record_bytes(c, m);
    let l = p.len() as int;
    let dx = i32_digits(c.x as int);
    let dy = i32_digits(c.y as int);
    let dc = dec_digits(tag_code(m.tower) as nat);
    let pl = payload_bytes(m);
    let j1 = i + dx.len() as int;
    let j2 = j1 + 1 + dy.len() as int;
    let j3 = j2 + 1 + dc.len() as int;
    let j4 = j3 + 1 + pl.len() as int;
    assert(j4 + 1 == i + l);
    assert(forall|q: int| 0 <= q < l ==> s[i + q] == #[trigger] p[q]) by {
        assert(forall|q: int| 0 <= q < l ==> #[trigger] p[q] == s.subrange(i, i + l)[q]);
    }
    // the x coordinate, followed by a space.
    assert(s.subrange(i, j1) =~= dx) by {
        assert forall|k: int| 0 <= k < dx.len() implies s.subrange(i, j1)[k] == dx[k] by {
            assert(s[i + k] == p[k]);
            assert(p[k] == dx[k]);
        }
    }
    assert(s[j1] == p[j1 - i] && p[j1 - i] == ' ' as u8);
    lemma_parse_i32_of_digits(s, i, c.x);
    // the y coordinate, followed by a space.
    assert(s.subrange(j1 + 1, j2) =~= dy) by {
        assert forall|k: int| 0 <= k < dy.len() implies s.subrange(j1 + 1, j2)[k] == dy[k] by {
            assert(s[j1 + 1 + k] == p[j1 + 1 - i + k]);
            assert(p[j1 + 1 - i + k] == dy[k]);
        }
    }
    assert(s[j2] == p[j2 - i] && p[j2 - i] == ' ' as u8);
    lemma_parse_i32_of_digits(s, j1 + 1, c.y);
    // the tag code, followed by a space.
    assert(s.subrange(j2 + 1, j3) =~= dc) by {
        assert forall|k: int| 0 <= k < dc.len() implies s.subrange(j2 + 1, j3)[k] == dc[k] by {
            assert(s[j2 + 1 + k] == p[j2 + 1 - i + k]);
            assert(p[j2 + 1 - i + k] == dc[k]);
        }
    }
    assert(s[j3] == p[j3 - i] && p[j3 - i] == ' ' as u8);
    lemma_parse_u64_of_dec(s, j2 + 1, tag_code(m.tower));
    assert(tower_of_code(tag_code(m.tower)) == Some(m.tower));
    // the payload, followed by the newline.
    assert(s.subrange(j3 + 1, j4) =~= pl) by {
        assert forall|k: int| 0 <= k < pl.len() implies s.subrange(j3 + 1, j4)[k] == pl[k] by {
            assert(s[j3 + 1 + k] == p[j3 + 1 - i + k]);
            assert(p[j3 + 1 - i + k] == pl[k]);
        }
    }
    assert(s[j4] == p[j4 - i] && p[j4 - i] == '\n' as u8);
    lemma_parse_payload_of_bytes(s, j3 + 1, m);
}

// ---------------------------------------------------------------
// Parsing is local: a successful parse whose checked bytes all lie
// inside `s` reads the same on any extension of `s`.
// ---------------------------------------------------------------
/// A digit run that stops strictly inside `s` stops at the same place
/// in any extension.
proof fn lemma_run_end_extend(s: Seq<u8>, t: Seq<u8>, i: int)
    requires
        0 <= i <= s.len(),
        run_end(s, i) < s.len(),
    ensures
        run_end(s + t, i) == run_end(s, i),
{
    let j = run_end(s, i);
    lemma_run_end_bounds(s, i);
    assert(forall|m: int| i <= m < j ==> is_digit(#[trigger] (s + t)[m])) by {
        assert(forall|m: int| i <= m < j ==> (s + t)[m] == s[m]);
    }
    assert((s + t)[j] == s[j]);
    lemma_run_end_is(s + t, i, j);
}

proof fn lemma_parse_u64_extend(s: Seq<u8>, t: Seq<u8>, i: int, v: u64, j: int)
    requires
        0 <= i <= s.len(),
        spec_parse_u64(s, i) == Some((v, j)),
        j < s.len(),
    ensures
        spec_parse_u64(s + t, i) == Some((v, j)),
{
    lemma_run_end_bounds(s, i);
    lemma_run_end_extend(s, t, i);
    assert((s + t).subrange(i, j) =~= s.subrange(i, j));
}

/// A successful unsigned parse moves strictly forward and stays
/// inside the string.
proof fn lemma_parse_u64_bounds(s: Seq<u8>, i: int, v: u64, j: int)
    requires
        0 <= i <= s.len(),
        spec_parse_u64(s, i) == Some((v, j)),
    ensures
        i < j <= s.len(),
{
    lemma_run_end_bounds(s, i);
}

/// A successful signed parse moves strictly forward and stays inside
/// the string.
proof fn lemma_parse_i32_bounds(s: Seq<u8>, i: int, v: i32, j: int)
    requires
        0 <= i <= s.len(),
        spec_parse_i32(s, i) == Some((v, j)),
    ensures
        i < j <= s.len(),
{
    if 0 <= i < s.len() && s[i] == 45 {
        match spec_parse_u64(s, i + 1) {
            Some((u, ju)) => {
                lemma_parse_u64_bounds(s, i + 1, u, ju);
            },
            None => {
                assert(false);
            },
        }
    } else {
        match spec_parse_u64(s, i) {
            Some((u, ju)) => {
                lemma_parse_u64_bounds(s, i, u, ju);
            },
            None => {
                assert(false);
            },
        }
    }
}

proof fn lemma_parse_i32_extend(s: Seq<u8>, t: Seq<u8>, i: int, v: i32, j: int)
    requires
        0 <= i <= s.len(),
        spec_parse_i32(s, i) == Some((v, j)),
        j < s.len(),
    ensures
        spec_parse_i32(s + t, i) == Some((v, j)),
{
    if 0 <= i < s.len() && s[i] == 45 {
        assert((s + t)[i] == s[i]);
        match spec_parse_u64(s, i + 1) {
            Some((u, ju)) => {
                lemma_parse_u64_extend(s, t, i + 1, u, ju);
            },
            None => {
                assert(false);
            },
        }
    } else {
        if 0 <= i < s.len() {
            assert((s + t)[i] == s[i]);
        }
        match spec_parse_u64(s, i) {
            Some((u, ju)) => {
                assert(i < s.len()) by {
                    lemma_run_end_bounds(s, i);
                }
                lemma_parse_u64_extend(s, t, i, u, ju);
            },
            None => {
                assert(false);
            },
        }
    }
}

proof fn lemma_starts_with_extend(s: Seq<u8>, t: Seq<u8>, i: int, lit: Seq<u8>)
    requires
        starts_with_at(s, i, lit),
    ensures
        starts_with_at(s + t, i, lit),
{
    assert((s + t).subrange(i, i + lit.len() as int) =~= s.subrange(i, i + lit.len() as int));
}

proof fn lemma_parse_payload_extend(s: Seq<u8>, t: Seq<u8>, i: int, b: u64, r: u64, j: int)
    requires
        0 <= i <= s.len(),
        spec_parse_payload(s, i) == Some(((b, r), j)),
        j < s.len(),
    ensures
        spec_parse_payload(s + t, i) == Some(((b, r), j)),
{
    lemma_starts_with_extend(s, t, i, lit_buffer());
    match spec_parse_u64(s, i + 8) {
        Some((bv, jb)) => {
            assert(jb + 7 <= s.len());
            lemma_parse_u64_extend(s, t, i + 8, bv, jb);
            lemma_starts_with_extend(s, t, jb, lit_rate());
            match spec_parse_u64(s, jb + 7) {
                Some((rv, jr)) => {
                    lemma_parse_u64_extend(s, t, jb + 7, rv, jr);
                },
                None => {
                    assert(false);
                },
            }
        },
        None => {
            assert(false);
        },
    }
}

/// A record that parses within `s` parses the same on any extension.
proof fn lemma_parse_record_extend(s: Seq<u8>, t: Seq<u8>, i: int, km: (u64, Machine), j: int)
    requires
        0 <= i <= s.len(),
        spec_parse_record(s, i) == Some((km, j)),
    ensures
        spec_parse_record(s + t, i) == Some((km, j)),
{
    match spec_parse_i32(s, i) {
        Some((x, j1)) => {
            assert(j1 < s.len() && s[j1] == ' ' as u8);
            lemma_parse_i32_bounds(s, i, x, j1);
            lemma_parse_i32_extend(s, t, i, x, j1);
            assert((s + t)[j1] == s[j1]);
            match spec_parse_i32(s, j1 + 1) {
                Some((y, j2)) => {
                    assert(j2 < s.len() && s[j2] == ' ' as u8);
                    lemma_parse_i32_bounds(s, j1 + 1, y, j2);
                    lemma_parse_i32_extend(s, t, j1 + 1, y, j2);
                    assert((s + t)[j2] == s[j2]);
                    match spec_parse_u64(s, j2 + 1) {
                        Some((code, j3)) => {
                            assert(j3 < s.len() && s[j3] == ' ' as u8);
                            lemma_parse_u64_bounds(s, j2 + 1, code, j3);
                            lemma_parse_u64_extend(s, t, j2 + 1, code, j3);
                            assert((s + t)[j3] == s[j3]);
                            match spec_parse_payload(s, j3 + 1) {
                                Some(((b, r), j4)) => {
                                    assert(j4 < s.len() && s[j4] == '\n' as u8);
                                    assert(0 <= j4) by {
                                        match spec_parse_u64(s, j3 + 1 + 8) {
                                            Some((bv, jb)) => {
                                                lemma_parse_u64_bounds(s, j3 + 1 + 8, bv, jb);
                                                match spec_parse_u64(s, jb + 7) {
                                                    Some((rv, jr)) => {
                                                        lemma_parse_u64_bounds(s, jb + 7, rv, jr);
                                                    },
                                                    None => {
                                                        assert(false);
                                                    },
                                                }
                                            },
                                            None => {
                                                assert(false);
                                            },
                                        }
                                    }
                                    lemma_parse_payload_extend(s, t, j3 + 1, b, r, j4);
                                    assert((s + t)[j4] == s[j4]);
                                },
                                None => {
                                    assert(false);
                                },
                            }
                        },
                        None => {
                            assert(false);
                        },
                    }
                },
                None => {
                    assert(false);
                },
            }
        },
        None => {
            assert(false);
        },
    }
}

// ---------------------------------------------------------------
// Whole-world text: a sequence of records.
// ---------------------------------------------------------------
/// Parse records from `i` on, folding them into `acc`; a later record
/// for the same cell overrides an earlier one. Any malformed tail is
/// fatal.
pub open spec fn spec_parse_world_at(s: Seq<u8>, i: int, acc: Map<u64, Machine>) -> Option<
    Map<u64, Machine>,
>
    decreases s.len() - i,
{
    if i < 0 || i > s.len() {
        None
    } else if i == s.len() {
        Some(acc)
    } else {
        match spec_parse_record(s, i) {
            Some(((k, m), j)) => if i < j <= s.len() {
                spec_parse_world_at(s, j, acc.insert(k, m))
            } else {
                None
            },
            None => None,
        }
    }
}

/// Parse a whole save text into grid contents.
pub open spec fn spec_parse_world(s: Seq<u8>) -> Option<Map<u64, Machine>> {
    spec_parse_world_at(s, 0, Map::empty())
}

/// Appending one rendered record to a text that parses extends the
/// parsed contents by exactly that entry.
pub proof fn lemma_world_parse_extend(
    s: Seq<u8>,
    i: int,
    acc: Map<u64, Machine>,
    c: crate::GridPos,
    m: Machine,
)
    requires
        0 <= i <= s.len(),
        spec_parse_world_at(s, i, acc) is Some,
        m.tower != Tower::Empty,
    ensures
        match spec_parse_world_at(s, i, acc) {
            Some(g) => spec_parse_world_at(s + record_bytes(c, m), i, acc) == Some(
                g.insert(crate::key_of(c), m),
            ),
            None => true,
        },
    decreases s.len() - i,
{
    let rec = record_bytes(c, m);
    let s2 = s + rec;
    if i == s.len() {
        assert(s2.subrange(i, i + rec.len() as int) =~= rec) by {
            assert(forall|k: int| 0 <= k < rec.len() ==> s2[i + k] == #[trigger] rec[k]);
        }
        lemma_parse_record_of_bytes(s2, i, c, m);
        assert(spec_parse_world_at(s2, i + rec.len() as int, acc.insert(crate::key_of(c), m))
            == Some(acc.insert(crate::key_of(c), m)));
    } else {
        match spec_parse_record(s, i) {
            Some(((k0, m0), j)) => {
                lemma_parse_record_extend(s, rec, i, (k0, m0), j);
                lemma_world_parse_extend(s, j, acc.insert(k0, m0), c, m);
            },
            None => {
                assert(false);
            },
        }
    }
}

/// Whatever parses satisfies the grid invariant: finitely many cells,
/// none of them holding the sentinel.
pub proof fn lemma_parse_world_inv(s: Seq<u8>, i: int, acc: Map<u64, Machine>)
    requires
        acc.dom().finite(),
        forall|k: u64| acc.dom().contains(k) ==> (#[trigger] acc[k]).tower != Tower::Empty,
    ensures
        match spec_parse_world_at(s, i, acc) {
            Some(g) => g.dom().finite() && forall|k: u64|
                g.dom().contains(k) ==> (#[trigger] g[k]).tower != Tower::Empty,
            None => true,
        },
    decreases s.len() - i,
{
    if 0 <= i < s.len() {
        match spec_parse_record(s, i) {
            Some(((k0, m0), j)) => {
                if i < j <= s.len() {
                    assert(m0.tower != Tower::Empty);
                    lemma_parse_world_inv(s, j, acc.insert(k0, m0));
                }
            },
            None => {},
        }
    }
}

} // verus!
