//! Decimal text: digit sequences, unsigned integer literals, and the
//! fixed-point decimal numerals used for the speed factor.
use vstd::prelude::*;
use vstd::string::StrSliceExecFns;

verus! {

/// Whether `c` is an ASCII decimal digit.
pub open spec fn is_digit(c: char) -> bool {
    48 <= c as u32 && c as u32 <= 57
}

/// Numeric value of an ASCII decimal digit.
pub open spec fn digit_val(c: char) -> int {
    c as u32 - 48
}

/// Whether every character of `s` is an ASCII decimal digit.
pub open spec fn all_digits(s: Seq<char>) -> bool {
    forall|i: int| 0 <= i < s.len() ==> is_digit(#[trigger] s[i])
}

/// The value of a digit sequence read as a base-10 numeral.
pub open spec fn dec_val(s: Seq<char>) -> int
    decreases s.len(),
{
    if s.len() == 0 {
        0
    } else {
        dec_val(s.drop_last()) * 10 + digit_val(s.last())
    }
}

/// 10 to the power `n`.
pub open spec fn pow10(n: nat) -> int
    decreases n,
{
    if n == 0 {
        1
    } else {
        10 * pow10((n - 1) as nat)
    }
}

/// `s` without one leading `+` sign, if it has one.
pub open spec fn strip_plus(s: Seq<char>) -> Seq<char> {
    if s.len() > 0 && s[0] == '+' {
        s.drop_first()
    } else {
        s
    }
}

/// Index of the first `.` in `s`, or `s.len()` when there is none.
pub open spec fn dot_index(s: Seq<char>) -> int
    decreases s.len(),
{
    if s.len() == 0 {
        0
    } else if s[0] == '.' {
        0
    } else {
        1 + dot_index(s.drop_first())
    }
}

/// The value of `s` read as an unsigned decimal literal that fits in
/// `u32`: an optional `+` sign followed by at least one digit.
/// `None` when `s` is not of that form or its value is too large.
pub open spec fn u32_of(s: Seq<char>) -> Option<u32> {
    let d = strip_plus(s);
    if d.len() > 0 && all_digits(d) && dec_val(d) <= u32::MAX {
        Some(dec_val(d) as u32)
    } else {
        None
    }
}

/// The first six fractional digits of `s`, scaled to millionths: the
/// value contributed by `.s` to a numeral read in units of 1/1000000.
/// Digits past the sixth are truncated.
pub open spec fn frac_micros(s: Seq<char>) -> int {
    if s.len() >= 6 {
        dec_val(s.take(6))
    } else {
        dec_val(s) * pow10((6 - s.len()) as nat)
    }
}

/// Whether `s`, read as a decimal numeral, has a non-zero fractional
/// digit past the sixth — the part that `micros_of` truncates away.
/// Together with `micros_of` this decides order against any boundary
/// exactly: the value of `s` exceeds its kept millionths precisely
/// when this holds.
pub open spec fn dropped_frac_nonzero(s: Seq<char>) -> bool {
    let t = strip_plus(s);
    let k = dot_index(t);
    if k == t.len() {
        false
    } else {
        let fp = t.subrange(k + 1, t.len() as int);
        exists|i: int| 6 <= i < fp.len() && fp[i] != '0'
    }
}

/// The number of ASCII decimal digits anywhere in `s`.
pub open spec fn digit_count(s: Seq<char>) -> int
    decreases s.len(),
{
    if s.len() == 0 {
        0int
    } else {
        digit_count(s.drop_last()) + (if is_digit(s.last()) {
            1int
        } else {
            0int
        })
    }
}

/// The value of `s` read as a decimal numeral, in millionths: an
/// optional `+` sign, then digits with at most one `.` among them and
/// at least one digit in all. Fractional digits past the sixth are
/// truncated. `None` when `s` is not of that form. This is the whole
/// accepted syntax for a speed factor: exponent notation and
/// non-finite forms are deliberately not part of it — a speed factor
/// is written as a plain decimal numeral.
pub open spec fn micros_of(s: Seq<char>) -> Option<int> {
    let t = strip_plus(s);
    let k = dot_index(t);
    let ip = t.take(k);
    let fp = if k == t.len() {
        Seq::<char>::empty()
    } else {
        t.subrange(k + 1, t.len() as int)
    };
    if all_digits(ip) && all_digits(fp) && ip.len() + fp.len() > 0 {
        Some(dec_val(ip) * 1_000_000 + frac_micros(fp))
    } else {
        None
    }
}

/// A digit sequence has a non-negative value.
pub proof fn lemma_dec_val_nonneg(s: Seq<char>)
    requires
        all_digits(s),
    ensures
        0 <= dec_val(s),
    decreases s.len(),
{
    if s.len() > 0 {
        assert(all_digits(s.drop_last()));
        lemma_dec_val_nonneg(s.drop_last());
    }
}

/// A sequence of `n` digits has a value below `pow10(n)`.
pub proof fn lemma_dec_val_bound(s: Seq<char>)
    requires
        all_digits(s),
    ensures
        0 <= dec_val(s) < pow10(s.len()),
    decreases s.len(),
{
    if s.len() > 0 {
        assert(all_digits(s.drop_last()));
        lemma_dec_val_bound(s.drop_last());
    }
}

/// Reading one more digit multiplies the prefix value by ten and adds
/// that digit.
pub proof fn lemma_dec_val_take_step(s: Seq<char>, j: int)
    requires
        0 <= j < s.len(),
    ensures
        dec_val(s.take(j + 1)) == dec_val(s.take(j)) * 10 + digit_val(s[j]),
{
    assert(s.take(j + 1).drop_last() =~= s.take(j));
    assert(s.take(j + 1).last() == s[j]);
}

/// The value of a digit sequence is at least the value of any prefix.
pub proof fn lemma_dec_val_prefix_le(s: Seq<char>, i: int)
    requires
        all_digits(s),
        0 <= i <= s.len(),
    ensures
        dec_val(s.take(i)) <= dec_val(s),
    decreases s.len() - i,
{
    if i < s.len() {
        assert(all_digits(s.take(i))) by {
            assert(forall|j: int| 0 <= j < i ==> s.take(i)[j] == s[j]);
        }
        lemma_dec_val_nonneg(s.take(i));
        lemma_dec_val_take_step(s, i);
        lemma_dec_val_prefix_le(s, i + 1);
    } else {
        assert(s.take(i) =~= s);
    }
}

/// `n` capped at six, the number of fractional digits that are kept.
pub open spec fn cap6(n: int) -> int {
    if n < 6 {
        n
    } else {
        6
    }
}

/// The first dot of `s` lies within `s`.
pub proof fn lemma_dot_index_le(s: Seq<char>)
    ensures
        0 <= dot_index(s) <= s.len(),
    decreases s.len(),
{
    if s.len() > 0 && s[0] != '.' {
        lemma_dot_index_le(s.drop_first());
    }
}

/// Powers of ten are positive.
pub proof fn lemma_pow10_pos(n: nat)
    ensures
        pow10(n) >= 1,
    decreases n,
{
    if n > 0 {
        lemma_pow10_pos((n - 1) as nat);
    }
}

/// Powers of ten grow with the exponent.
pub proof fn lemma_pow10_mono(a: nat, b: nat)
    requires
        a <= b,
    ensures
        pow10(a) <= pow10(b),
    decreases b,
{
    if a < b {
        lemma_pow10_mono(a, (b - 1) as nat);
        lemma_pow10_pos((b - 1) as nat);
    }
}

/// The fractional contribution of a digit sequence is non-negative.
pub proof fn lemma_frac_micros_nonneg(s: Seq<char>)
    requires
        all_digits(s),
    ensures
        frac_micros(s) >= 0,
{
    if s.len() >= 6 {
        assert(all_digits(s.take(6)));
        lemma_dec_val_nonneg(s.take(6));
    } else {
        lemma_dec_val_nonneg(s);
        lemma_pow10_pos((6 - s.len()) as nat);
        assert(dec_val(s) * pow10((6 - s.len()) as nat) >= 0) by (nonlinear_arith)
            requires
                dec_val(s) >= 0,
                pow10((6 - s.len()) as nat) >= 1,
        ;
    }
}

/// Compare two strings character by character.
pub fn str_eq(a: &str, b: &str) -> (r: bool)
    ensures
        r == (a@ == b@),
{
    let la = a.unicode_len();
    let lb = b.unicode_len();
    if la != lb {
        return false;
    }
    let mut i: usize = 0;
    while i < la
        invariant
            0 <= i <= la,
            la == a@.len(),
            la == b@.len(),
            forall|j: int| 0 <= j < i ==> a@[j] == b@[j],
        decreases la - i,
    {
        if a.get_char(i) != b.get_char(i) {
            return false;
        }
        i += 1;
    }
    proof {
        assert(a@ =~= b@);
    }
    true
}

/// Count the ASCII decimal digits anywhere in `s`.
pub fn count_digits(s: &str) -> (r: usize)
    ensures
        r == digit_count(s@),
{
    let n = s.unicode_len();
    let mut count: usize = 0;
    let mut i: usize = 0;
    while i < n
        invariant
            0 <= i <= n,
            n == s@.len(),
            count == digit_count(s@.take(i as int)),
            count <= i,
        decreases n - i,
    {
        let cv = s.get_char(i) as u32;
        proof {
            assert(s@.take(i + 1).drop_last() =~= s@.take(i as int));
            assert(s@.take(i + 1).last() == s@[i as int]);
        }
        if 48 <= cv && cv <= 57 {
            count += 1;
        }
        i += 1;
    }
    proof {
        assert(s@.take(n as int) =~= s@);
    }
    count
}

/// Parse `s` as an unsigned decimal literal fitting in `u32`.
pub fn parse_u32(s: &str) -> (r: Option<u32>)
    ensures
        r == u32_of(s@),
{
    let n = s.unicode_len();
    let start: usize = if n > 0 && s.get_char(0) == '+' {
        1
    } else {
        0
    };
    let ghost d = strip_plus(s@);
    proof {
        assert(d =~= s@.subrange(start as int, n as int));
    }
    if start >= n {
        return None;
    }
    let mut acc: u64 = 0;
    let mut i: usize = start;
    while i < n
        invariant
            start <= i <= n,
            n == s@.len(),
            d == strip_plus(s@),
            d == s@.subrange(start as int, n as int),
            d.len() == n - start,
            forall|j: int| 0 <= j < i - start ==> is_digit(#[trigger] d[j]),
            acc == dec_val(d.take(i - start)),
            acc <= u32::MAX,
        decreases n - i,
    {
        let c = s.get_char(i);
        let cv = c as u32;
        proof {
            assert(d[i - start] == s@[i as int]);
        }
        if cv < 48 || cv > 57 {
            return None;
        }
        let dv: u64 = (cv - 48) as u64;
        let wide: u64 = acc * 10 + dv;
        proof {
            lemma_dec_val_take_step(d, i - start);
        }
        if wide > u32::MAX as u64 {
            proof {
                if all_digits(d) {
                    lemma_dec_val_prefix_le(d, i - start + 1);
                }
            }
            return None;
        }
        acc = wide;
        i += 1;
    }
    proof {
        assert(d.take(n - start) =~= d);
    }
    Some(acc as u32)
}

/// Parse `s` as a decimal numeral, in millionths, together with
/// whether a non-zero fractional digit was truncated away. `None` when
/// `s` is not a decimal numeral or its value in millionths does not
/// fit in `u64`. Only plain decimal numerals are read: exponent
/// notation and non-finite forms are deliberately rejected.
pub fn parse_speed_micros(s: &str) -> (r: Option<(u64, bool)>)
    ensures
        r matches Some(p) ==> micros_of(s@) == Some(p.0 as int) && p.1 == dropped_frac_nonzero(
            s@,
        ),
        r is None ==> !(micros_of(s@) matches Some(m) && m <= u64::MAX),
{
    let n = s.unicode_len();
    let start: usize = if n > 0 && s.get_char(0) == '+' {
        1
    } else {
        0
    };
    let ghost t = strip_plus(s@);
    proof {
        assert(t =~= s@.subrange(start as int, n as int));
        assert(t.skip(0) =~= t);
    }
    let mut i: usize = start;
    let mut int_acc: u128 = 0;
    let mut saw_dot = false;
    loop
        invariant_except_break
            start <= i <= n,
            n == s@.len(),
            t == strip_plus(s@),
            t == s@.subrange(start as int, n as int),
            t.len() == n - start,
            !saw_dot,
            forall|j: int| 0 <= j < i - start ==> is_digit(#[trigger] t[j]),
            dot_index(t) == i - start + dot_index(t.skip(i - start)),
            int_acc == dec_val(t.take(i - start)),
            int_acc <= u64::MAX,
        ensures
            start <= i <= n,
            n == s@.len(),
            t == strip_plus(s@),
            t == s@.subrange(start as int, n as int),
            t.len() == n - start,
            forall|j: int| 0 <= j < i - start ==> is_digit(#[trigger] t[j]),
            dot_index(t) == i - start,
            int_acc == dec_val(t.take(i - start)),
            int_acc <= u64::MAX,
            saw_dot <==> i < n,
        decreases n - i,
    {
        if i >= n {
            proof {
                assert(t.skip(i - start) =~= Seq::<char>::empty());
            }
            break;
        }
        let c = s.get_char(i);
        proof {
            assert(t[i - start] == s@[i as int]);
            assert(t.skip(i - start)[0] == t[i - start]);
        }
        if c == '.' {
            saw_dot = true;
            break;
        }
        let cv = c as u32;
        if cv < 48 || cv > 57 {
            // The integer part holds something that is neither a digit
            // nor the dot: no reading of `s` is a numeral.
            proof {
                lemma_dot_index_le(t);
                assert(t.skip(i - start).drop_first() =~= t.skip(i - start + 1));
                lemma_dot_index_le(t.skip(i - start + 1));
                assert(dot_index(t) >= i - start + 1);
                assert(!is_digit(t.take(dot_index(t))[i - start]));
            }
            return None;
        }
        let dv: u128 = (cv - 48) as u128;
        let wide: u128 = int_acc * 10 + dv;
        proof {
            lemma_dec_val_take_step(t, i - start);
            assert(t.skip(i - start).drop_first() =~= t.skip(i - start + 1));
        }
        if wide > u64::MAX as u128 {
            // Even the integer part alone exceeds what fits.
            proof {
                lemma_dot_index_le(t);
                lemma_dot_index_le(t.skip(i - start + 1));
                assert(dot_index(t) >= i - start + 1);
                match micros_of(s@) {
                    Some(m) => {
                        let k = dot_index(t);
                        let ip = t.take(k);
                        let fp = if k == t.len() {
                            Seq::<char>::empty()
                        } else {
                            t.subrange(k + 1, t.len() as int)
                        };
                        assert(ip.take(i - start + 1) =~= t.take(i - start + 1));
                        lemma_dec_val_prefix_le(ip, i - start + 1);
                        lemma_dec_val_nonneg(ip);
                        lemma_frac_micros_nonneg(fp);
                        assert(m > u64::MAX);
                    },
                    None => {},
                }
            }
            return None;
        }
        int_acc = wide;
        i += 1;
    }
    let int_len = i - start;
    let ghost k = dot_index(t);
    let ghost ip = t.take(k);
    let ghost fp = if saw_dot {
        t.subrange(k + 1, t.len() as int)
    } else {
        Seq::<char>::empty()
    };
    proof {
        assert(k == i - start);
        assert(all_digits(ip));
    }
    let mut facc: u64 = 0;
    let mut tail_nonzero = false;
    if saw_dot {
        let fstart = i + 1;
        if int_len == 0 && fstart >= n {
            // A lone dot, with or without a sign: no digit at all.
            return None;
        }
        let mut i2: usize = fstart;
        while i2 < n
            invariant
                fstart <= i2 <= n,
                n == s@.len(),
                t == strip_plus(s@),
                t == s@.subrange(start as int, n as int),
                t.len() == n - start,
                start <= i < n,
                k == dot_index(t),
                k == i - start,
                fstart == i + 1,
                fp == t.subrange(k + 1, t.len() as int),
                fp.len() == n - fstart,
                forall|j: int| 0 <= j < i2 - fstart ==> is_digit(#[trigger] fp[j]),
                facc == dec_val(fp.take(cap6(i2 - fstart))),
                facc < 1_000_000,
                tail_nonzero == exists|j: int| 6 <= j < i2 - fstart && fp[j] != '0',
            decreases n - i2,
        {
            let c = s.get_char(i2);
            proof {
                assert(fp[i2 - fstart] == s@[i2 as int]);
            }
            let cv = c as u32;
            if cv < 48 || cv > 57 {
                // A non-digit after the dot: no reading of `s` is a
                // numeral.
                proof {
                    assert(!is_digit(fp[i2 - fstart]));
                }
                return None;
            }
            if i2 - fstart < 6 {
                proof {
                    let j = i2 - fstart;
                    assert(fp.take(cap6(j)) =~= fp.take(j));
                    lemma_dec_val_take_step(fp, j);
                    assert(all_digits(fp.take(j)));
                    lemma_dec_val_bound(fp.take(j));
                    assert(all_digits(fp.take(j + 1)));
                    lemma_dec_val_bound(fp.take(j + 1));
                    lemma_pow10_mono((j + 1) as nat, 6);
                    reveal_with_fuel(pow10, 8);
                    assert(pow10(6) == 1_000_000);
                }
                facc = facc * 10 + ((cv - 48) as u64);
            } else {
                proof {
                    assert(fp.take(cap6(i2 - fstart + 1)) =~= fp.take(cap6(i2 - fstart)));
                }
                if cv != 48 {
                    tail_nonzero = true;
                    proof {
                        assert(fp[i2 - fstart] != '0');
                    }
                }
            }
            proof {
                if tail_nonzero {
                    assert(exists|j: int| 6 <= j < i2 - fstart + 1 && fp[j] != '0');
                } else {
                    assert(forall|j: int| 6 <= j < i2 - fstart + 1 ==> fp[j] == '0');
                }
            }
            i2 += 1;
        }
        let fl = n - fstart;
        proof {
            assert(fl == fp.len());
            assert(all_digits(fp));
        }
        if fl < 6 {
            let mut pad = fl;
            proof {
                assert(fp.take(cap6(fl as int)) =~= fp);
                assert(pow10(0) == 1);
                assert(facc == dec_val(fp) * pow10(0)) by (nonlinear_arith)
                    requires
                        facc == dec_val(fp),
                        pow10(0) == 1,
                ;
                lemma_dec_val_bound(fp);
            }
            while pad < 6
                invariant
                    fl <= pad <= 6,
                    fl == fp.len(),
                    all_digits(fp),
                    facc == dec_val(fp) * pow10((pad - fl) as nat),
                    facc < pow10(pad as nat),
                decreases 6 - pad,
            {
                proof {
                    lemma_pow10_mono(pad as nat, 5);
                    reveal_with_fuel(pow10, 8);
                    assert(pow10(5) == 100_000);
                    assert(pow10((pad + 1) as nat) == 10 * pow10(pad as nat));
                    assert(pow10((pad + 1 - fl) as nat) == 10 * pow10((pad - fl) as nat));
                    assert(facc * 10 == dec_val(fp) * pow10((pad + 1 - fl) as nat))
                        by (nonlinear_arith)
                        requires
                            facc == dec_val(fp) * pow10((pad - fl) as nat),
                            pow10((pad + 1 - fl) as nat) == 10 * pow10((pad - fl) as nat),
                    ;
                }
                facc = facc * 10;
                pad += 1;
            }
            proof {
                assert(facc == frac_micros(fp));
                reveal_with_fuel(pow10, 8);
                assert(facc < 1_000_000);
            }
        } else {
            proof {
                assert(fp.take(cap6(fl as int)) =~= fp.take(6));
                assert(facc == frac_micros(fp));
            }
        }
    } else {
        if int_len == 0 {
            // An empty string or a lone sign: no digit at all.
            return None;
        }
        proof {
            assert(fp.len() == 0);
            assert(dec_val(fp) == 0);
            assert(frac_micros(fp) == 0) by (nonlinear_arith)
                requires
                    dec_val(fp) == 0,
                    fp.len() == 0,
                    frac_micros(fp) == dec_val(fp) * pow10((6 - fp.len()) as nat),
            ;
        }
    }
    proof {
        assert(facc == frac_micros(fp));
        assert(facc < 1_000_000);
        assert(ip.len() + fp.len() > 0);
        assert(micros_of(s@) == Some(dec_val(ip) * 1_000_000 + frac_micros(fp)));
        assert(tail_nonzero == dropped_frac_nonzero(s@));
    }
    let total: u128 = int_acc * 1_000_000 + facc as u128;
    if total > u64::MAX as u128 {
        return None;
    }
    Some((total as u64, tail_nonzero))
}

} // verus!
