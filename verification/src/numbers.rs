//! Decimal text: parsing integers out of the exchange-rate feed's fields and
//! rendering integers into SQL text, both proved against one family of spec
//! functions.

use vstd::prelude::*;

verus! {

/// The numeric value of a decimal digit character, if it is one.
pub open spec fn digit_of(c: char) -> Option<int> {
    match c {
        '0' => Some(0),
        '1' => Some(1),
        '2' => Some(2),
        '3' => Some(3),
        '4' => Some(4),
        '5' => Some(5),
        '6' => Some(6),
        '7' => Some(7),
        '8' => Some(8),
        '9' => Some(9),
        _ => None,
    }
}

pub open spec fn is_digit(c: char) -> bool {
    digit_of(c) is Some
}

pub open spec fn all_digits(s: Seq<char>) -> bool {
    forall|i: int| 0 <= i < s.len() ==> is_digit(s[i])
}

/// The value of a string of decimal digits, most significant first.
pub open spec fn digits_val(s: Seq<char>) -> int
    decreases s.len(),
{
    if s.len() == 0 {
        0
    } else {
        digits_val(s.drop_last()) * 10 + digit_of(s.last()).unwrap_or(0)
    }
}

/// The digit character for a value below ten.
pub open spec fn char_of_digit(d: int) -> char {
    if d == 0 {
        '0'
    } else if d == 1 {
        '1'
    } else if d == 2 {
        '2'
    } else if d == 3 {
        '3'
    } else if d == 4 {
        '4'
    } else if d == 5 {
        '5'
    } else if d == 6 {
        '6'
    } else if d == 7 {
        '7'
    } else if d == 8 {
        '8'
    } else {
        '9'
    }
}

/// The decimal rendering of a non-negative integer, without sign or padding.
pub open spec fn dec_digits(n: int) -> Seq<char>
    decreases n,
{
    if n < 10 {
        seq![char_of_digit(n)]
    } else {
        dec_digits(n / 10).push(char_of_digit(n % 10))
    }
}

/// The decimal rendering of an integer, as `i64`'s `Display` writes it.
pub open spec fn i64_dec(v: int) -> Seq<char> {
    if v < 0 {
        seq!['-'] + dec_digits(-v)
    } else {
        dec_digits(v)
    }
}

/// What `str::parse::<i64>` accepts and returns: an optional sign followed by
/// one or more decimal digits, whose value fits in an `i64`.
pub open spec fn parse_i64_spec(s: Seq<char>) -> Option<int> {
    let signed = s.len() > 0 && (s[0] == '-' || s[0] == '+');
    let neg = s.len() > 0 && s[0] == '-';
    let digits = if signed {
        s.skip(1)
    } else {
        s
    };
    if digits.len() == 0 || !all_digits(digits) {
        None
    } else {
        let v = digits_val(digits);
        if neg {
            if v <= 0x8000_0000_0000_0000 {
                Some(-v)
            } else {
                None
            }
        } else {
            if v < 0x8000_0000_0000_0000 {
                Some(v)
            } else {
                None
            }
        }
    }
}

/// `s` with every occurrence of `bad` removed and nothing else changed.
pub open spec fn without(s: Seq<char>, bad: char) -> Seq<char>
    decreases s.len(),
{
    if s.len() == 0 {
        Seq::<char>::empty()
    } else {
        without(s.drop_last(), bad) + (if s.last() == bad {
            Seq::<char>::empty()
        } else {
            seq![s.last()]
        })
    }
}

/// Relies on `String::push`: appends exactly one character to the string.
#[verifier::external_body]
pub(crate) fn push_char(s: &mut String, c: char)
    ensures
        final(s)@ == old(s)@.push(c),
{
    s.push(c);
}

pub fn digit_value(c: char) -> (r: Option<u8>)
    ensures
        r is Some == is_digit(c),
        r matches Some(d) ==> digit_of(c) == Some(d as int),
{
    match c {
        '0' => Some(0),
        '1' => Some(1),
        '2' => Some(2),
        '3' => Some(3),
        '4' => Some(4),
        '5' => Some(5),
        '6' => Some(6),
        '7' => Some(7),
        '8' => Some(8),
        '9' => Some(9),
        _ => None,
    }
}

pub fn digit_char(d: u64) -> (r: char)
    requires
        d < 10,
    ensures
        r == char_of_digit(d as int),
{
    match d {
        0 => '0',
        1 => '1',
        2 => '2',
        3 => '3',
        4 => '4',
        5 => '5',
        6 => '6',
        7 => '7',
        8 => '8',
        _ => '9',
    }
}

proof fn lemma_digits_val_nonneg(s: Seq<char>)
    requires
        all_digits(s),
    ensures
        digits_val(s) >= 0,
    decreases s.len(),
{
    if s.len() > 0 {
        assert(all_digits(s.drop_last()));
        lemma_digits_val_nonneg(s.drop_last());
        assert(is_digit(s.last()));
    }
}

/// A digit string is worth at least any of its prefixes.
proof fn lemma_digits_val_prefix_le(s: Seq<char>, k: int)
    requires
        all_digits(s),
        0 <= k <= s.len(),
    ensures
        digits_val(s.take(k)) <= digits_val(s),
    decreases s.len(),
{
    lemma_digits_val_nonneg(s);
    if k == s.len() {
        assert(s.take(k) =~= s);
    } else {
        let head = s.drop_last();
        assert(all_digits(head));
        assert(s.take(k) =~= head.take(k));
        lemma_digits_val_prefix_le(head, k);
        lemma_digits_val_nonneg(head);
        assert(is_digit(s.last()));
        assert(digits_val(s) == digits_val(head) * 10 + digit_of(s.last()).unwrap_or(0));
        assert(digits_val(head) <= digits_val(head) * 10) by (nonlinear_arith)
            requires
                digits_val(head) >= 0,
        ;
    }
}

/// Parses a decimal integer exactly as `str::parse::<i64>` does: an optional
/// sign, then one or more digits, rejected on any other character or on
/// overflow.
pub fn parse_i64(s: &String) -> (r: Option<i64>)
    ensures
        r is Some == parse_i64_spec(s@) is Some,
        r matches Some(v) ==> parse_i64_spec(s@) == Some(v as int),
{
    let st = s.as_str();
    let n = st.unicode_len();
    let mut start: usize = 0;
    let mut neg: bool = false;
    if n > 0 {
        let c0 = st.get_char(0);
        if c0 == '-' {
            neg = true;
            start = 1;
        } else if c0 == '+' {
            start = 1;
        }
    }
    if start >= n {
        return None;
    }
    let ghost digits = s@.skip(start as int);
    assert(digits =~= s@.subrange(start as int, n as int));
    assert(s@.skip(0) =~= s@);
    let limit: u64 = if neg {
        0x8000_0000_0000_0000
    } else {
        0x7FFF_FFFF_FFFF_FFFF
    };
    let mut acc: u64 = 0;
    let mut j: usize = start;
    while j < n
        invariant
            start <= j <= n,
            n == s@.len(),
            st@ == s@,
            digits == s@.subrange(start as int, n as int),
            digits.len() > 0,
            all_digits(s@.subrange(start as int, j as int)),
            acc as int == digits_val(s@.subrange(start as int, j as int)),
            acc <= limit,
            limit == (if neg { 0x8000_0000_0000_0000u64 } else { 0x7FFF_FFFF_FFFF_FFFFu64 }),
            neg ==> s@[0] == '-' && start == 1,
            !neg && start == 1 ==> s@[0] == '+',
            start == 0 ==> !(s@[0] == '-' || s@[0] == '+'),
            parse_i64_spec(s@) == (if all_digits(digits) && digits_val(digits) <= limit {
                if neg {
                    Some(-digits_val(digits))
                } else {
                    Some(digits_val(digits))
                }
            } else {
                None::<int>
            }),
        decreases n - j,
    {
        let ghost pre = s@.subrange(start as int, j as int);
        let c = st.get_char(j);
        let d = match digit_value(c) {
            Some(d) => d,
            None => {
                proof {
                    assert(!is_digit(digits[j - start]));
                    assert(!all_digits(digits));
                }
                return None;
            },
        };
        let ghost cur = s@.subrange(start as int, j + 1);
        proof {
            assert(cur.drop_last() =~= pre);
            assert(cur.last() == c);
            assert(digits_val(cur) == digits_val(pre) * 10 + d);
            assert(all_digits(cur));
        }
        if acc > (limit - d as u64) / 10 {
            proof {
                assert(acc as int * 10 + d > limit) by (nonlinear_arith)
                    requires
                        acc as int > (limit as int - d) / 10,
                        0 <= d < 10,
                        limit as int >= d,
                        acc >= 0,
                ;
                assert(digits_val(cur) > limit);
                assert(cur =~= digits.take(j + 1 - start));
                if all_digits(digits) {
                    lemma_digits_val_prefix_le(digits, j + 1 - start);
                    assert(digits_val(digits) >= digits_val(cur));
                }
                assert(!(all_digits(digits) && digits_val(digits) <= limit));
            }
            return None;
        }
        assert(acc * 10 + d as u64 <= limit) by (nonlinear_arith)
            requires
                acc as int <= (limit as int - d) / 10,
                0 <= d < 10,
                limit as int >= d,
                acc >= 0,
        ;
        acc = acc * 10 + d as u64;
        j += 1;
    }
    proof {
        assert(s@.subrange(start as int, n as int) =~= digits);
        lemma_digits_val_nonneg(digits);
    }
    if neg {
        if acc == 0x8000_0000_0000_0000 {
            Some(i64::MIN)
        } else {
            Some(-(acc as i64))
        }
    } else {
        Some(acc as i64)
    }
}

proof fn lemma_lsd_len(d: Seq<u64>)
    ensures
        lsd_chars(d).len() == d.len(),
    decreases d.len(),
{
    if d.len() > 0 {
        lemma_lsd_len(d.drop_last());
    }
}

/// The characters of a digit sequence stored least-significant first,
/// rendered most-significant first.
pub open spec fn lsd_chars(d: Seq<u64>) -> Seq<char>
    decreases d.len(),
{
    if d.len() == 0 {
        Seq::<char>::empty()
    } else {
        seq![char_of_digit(d.last() as int)] + lsd_chars(d.drop_last())
    }
}

proof fn lemma_lsd_index(d: Seq<u64>, j: int)
    requires
        0 <= j < d.len(),
    ensures
        lsd_chars(d)[j] == char_of_digit(d[d.len() - 1 - j] as int),
    decreases d.len(),
{
    lemma_lsd_len(d);
    if j == 0 {
    } else {
        lemma_lsd_len(d.drop_last());
        lemma_lsd_index(d.drop_last(), j - 1);
    }
}

/// Renders an integer in decimal, exactly as `i64`'s `Display` does.
pub fn i64_to_string(v: i64) -> (r: String)
    ensures
        r@ == i64_dec(v as int),
{
    let mut out = String::new();
    let mut m: u64;
    if v < 0 {
        out.append("-");
        proof {
            reveal_strlit("-");
            assert(out@ =~= seq!['-']);
        }
        m = ((-(v + 1)) as u64) + 1;
        assert(m as int == -(v as int));
    } else {
        m = v as u64;
    }
    let ghost sign: Seq<char> = out@;
    let ghost m0 = m as int;
    let mut digs: Vec<u64> = Vec::new();
    if m == 0 {
        digs.push(0);
        proof {
            assert(digs@ =~= seq![0u64]);
            assert(digs@.drop_last() =~= Seq::<u64>::empty());
            assert(lsd_chars(Seq::<u64>::empty()) =~= Seq::<char>::empty());
            assert(lsd_chars(digs@) =~= seq![char_of_digit(0)]);
        }
    } else {
        while m > 0
            invariant
                m >= 0,
                forall|i: int| 0 <= i < digs@.len() ==> digs@[i] < 10,
                m > 0 ==> dec_digits(m0) == dec_digits(m as int) + lsd_chars(digs@),
                m == 0 ==> dec_digits(m0) == lsd_chars(digs@),
                m0 > 0,
            decreases m,
        {
            let d = m % 10;
            let ghost old_digs = digs@;
            let ghost old_m = m as int;
            digs.push(d);
            m = m / 10;
            proof {
                assert(digs@.drop_last() =~= old_digs);
                assert(digs@.last() == d);
                assert(lsd_chars(digs@) == seq![char_of_digit(d as int)] + lsd_chars(old_digs));
                if old_m >= 10 {
                    assert(dec_digits(old_m) == dec_digits(old_m / 10).push(char_of_digit(
                        old_m % 10,
                    )));
                    assert(dec_digits(old_m / 10).push(char_of_digit(old_m % 10)) =~= dec_digits(
                        old_m / 10,
                    ) + seq![char_of_digit(old_m % 10)]);
                    assert((dec_digits(m as int) + seq![char_of_digit(d as int)]) + lsd_chars(
                        old_digs,
                    ) =~= dec_digits(m as int) + lsd_chars(digs@));
                } else {
                    assert(m == 0);
                    assert(dec_digits(old_m) == seq![char_of_digit(old_m)]);
                    assert(seq![char_of_digit(d as int)] + lsd_chars(old_digs) =~= lsd_chars(
                        digs@,
                    ));
                }
            }
        }
    }
    proof {
        lemma_lsd_len(digs@);
    }
    let total = digs.len();
    let mut k: usize = 0;
    while k < total
        invariant
            k <= total,
            total == digs@.len(),
            forall|i: int| 0 <= i < digs@.len() ==> digs@[i] < 10,
            lsd_chars(digs@).len() == total,
            out@ == sign + lsd_chars(digs@).take(k as int),
            dec_digits(m0) == lsd_chars(digs@),
        decreases total - k,
    {
        let d = digs[total - 1 - k];
        let c = digit_char(d);
        proof {
            lemma_lsd_index(digs@, k as int);
            assert(lsd_chars(digs@)[k as int] == c);
        }
        let ghost old_out = out@;
        push_char(&mut out, c);
        proof {
            assert(lsd_chars(digs@).take(k + 1) =~= lsd_chars(digs@).take(k as int).push(
                lsd_chars(digs@)[k as int],
            ));
            assert(out@ =~= sign + lsd_chars(digs@).take(k + 1));
        }
        k += 1;
    }
    proof {
        assert(lsd_chars(digs@).take(total as int) =~= lsd_chars(digs@));
        if v >= 0 {
            assert(sign =~= Seq::<char>::empty());
            assert(out@ =~= dec_digits(v as int));
        } else {
            assert(out@ =~= seq!['-'] + dec_digits(-(v as int)));
        }
    }
    out
}

/// Returns `s` with every occurrence of `bad` removed, as
/// `str::replace(bad, "")` does.
pub fn strip_char(s: &String, bad: char) -> (r: String)
    ensures
        r@ == without(s@, bad),
{
    let mut out = String::new();
    let st = s.as_str();
    let n = st.unicode_len();
    let mut i: usize = 0;
    while i < n
        invariant
            i <= n,
            n == s@.len(),
            st@ == s@,
            out@ == without(s@.take(i as int), bad),
        decreases n - i,
    {
        let c = st.get_char(i);
        let ghost pre = s@.take(i as int);
        let ghost cur = s@.take(i + 1);
        proof {
            assert(cur.drop_last() =~= pre);
            assert(cur.last() == s@[i as int]);
        }
        if c != bad {
            push_char(&mut out, c);
            proof {
                assert(without(cur, bad) =~= without(pre, bad).push(c));
            }
        } else {
            proof {
                assert(without(cur, bad) =~= without(pre, bad));
            }
        }
        i += 1;
    }
    proof {
        assert(s@.take(n as int) =~= s@);
    }
    out
}

} // verus!
