//! Decimal rendering of subscription counters: the opaque subscription
//! identifier handed to callers is the counter's decimal digit string.
use vstd::prelude::*;

verus! {

/// The character for one decimal digit value.
pub open spec fn digit_char(d: int) -> char {
    if d == 0 {
        '0'
    } else if d == 1 {
        '1'
    } else if d == 2 {
        '2'
    } else if d == 3 {
        '3'
    } else if d == 4 {
        '4'
    } else if d == 5 {
        '5'
    } else if d == 6 {
        '6'
    } else if d == 7 {
        '7'
    } else if d == 8 {
        '8'
    } else {
        '9'
    }
}

/// The decimal digits of `n`, most significant first, no leading zeros.
pub open spec fn dec_digits(n: nat) -> Seq<char>
    decreases n,
{
    if n < 10 {
        seq![digit_char(n as int)]
    } else {
        dec_digits(n / 10).push(digit_char((n % 10) as int))
    }
}

/// The characters of a digit list read backwards: the list holds the least
/// significant digit first, the text wants the most significant first.
pub open spec fn rev_chars(ds: Seq<u64>) -> Seq<char> {
    Seq::new(ds.len(), |i: int| digit_char(ds[ds.len() - 1 - i] as int))
}

/// One decimal digit as text.
fn digit_str(d: u64) -> (r: &'static str)
    requires
        d < 10,
    ensures
        r@ == seq![digit_char(d as int)],
{
    match d {
        0 => {
            proof {
                reveal_strlit("0");
                assert("0"@ =~= seq![digit_char(0)]);
            }
            "0"
        },
        1 => {
            proof {
                reveal_strlit("1");
                assert("1"@ =~= seq![digit_char(1)]);
            }
            "1"
        },
        2 => {
            proof {
                reveal_strlit("2");
                assert("2"@ =~= seq![digit_char(2)]);
            }
            "2"
        },
        3 => {
            proof {
                reveal_strlit("3");
                assert("3"@ =~= seq![digit_char(3)]);
            }
            "3"
        },
        4 => {
            proof {
                reveal_strlit("4");
                assert("4"@ =~= seq![digit_char(4)]);
            }
            "4"
        },
        5 => {
            proof {
                reveal_strlit("5");
                assert("5"@ =~= seq![digit_char(5)]);
            }
            "5"
        },
        6 => {
            proof {
                reveal_strlit("6");
                assert("6"@ =~= seq![digit_char(6)]);
            }
            "6"
        },
        7 => {
            proof {
                reveal_strlit("7");
                assert("7"@ =~= seq![digit_char(7)]);
            }
            "7"
        },
        8 => {
            proof {
                reveal_strlit("8");
                assert("8"@ =~= seq![digit_char(8)]);
            }
            "8"
        },
        _ => {
            proof {
                reveal_strlit("9");
                assert("9"@ =~= seq![digit_char(9)]);
            }
            "9"
        },
    }
}

/// Renders a counter as its decimal digit string, most significant digit
/// first, without sign or leading zeros.
pub fn u64_to_dec_string(n: u64) -> (r: String)
    ensures
        r@ == dec_digits(n as nat),
{
    // collect the digits, least significant first
    let mut digits: Vec<u64> = Vec::new();
    let mut m: u64 = n;
    loop
        invariant_except_break
            digits@.len() > 0 ==> m > 0,
        invariant
            m <= n,
            forall|j: int| 0 <= j < digits@.len() ==> digits@[j] < 10,
            if digits@.len() == 0 {
                m == n
            } else {
                dec_digits(n as nat) == if m > 0 {
                    dec_digits(m as nat) + rev_chars(digits@)
                } else {
                    rev_chars(digits@)
                }
            },
        ensures
            m == 0,
            digits@.len() > 0,
            forall|j: int| 0 <= j < digits@.len() ==> digits@[j] < 10,
            dec_digits(n as nat) == rev_chars(digits@),
        decreases m + digits@.len(),
    {
        let ghost digits0 = digits@;
        let ghost m0 = m;
        let d = m % 10;
        digits.push(d);
        m = m / 10;
        proof {
            let ds = digits@;
            assert(ds =~= digits0.push(d));
            if digits0.len() == 0 {
                if m0 < 10 {
                    assert(rev_chars(ds) =~= seq![digit_char(m0 as int)]);
                } else {
                    assert(dec_digits(m0 as nat) == dec_digits((m0 / 10) as nat).push(
                        digit_char((m0 % 10) as int),
                    ));
                    assert(dec_digits(n as nat) =~= dec_digits(m as nat) + rev_chars(ds));
                }
            } else {
                if m0 < 10 {
                    assert(dec_digits(m0 as nat) == seq![digit_char(m0 as int)]);
                    assert(dec_digits(n as nat) =~= rev_chars(ds));
                } else {
                    assert(dec_digits(m0 as nat) == dec_digits((m0 / 10) as nat).push(
                        digit_char((m0 % 10) as int),
                    ));
                    assert(dec_digits(n as nat) =~= dec_digits(m as nat) + rev_chars(ds));
                }
            }
        }
        if m == 0 {
            break;
        }
    }
    // write them out, most significant first
    let mut s = String::new();
    let mut j: usize = digits.len();
    proof {
        assert(s@ =~= rev_chars(digits@).take(0));
    }
    while j > 0
        invariant
            j <= digits@.len(),
            forall|jj: int| 0 <= jj < digits@.len() ==> digits@[jj] < 10,
            dec_digits(n as nat) == rev_chars(digits@),
            s@ == rev_chars(digits@).take(digits@.len() - j),
        decreases j,
    {
        j = j - 1;
        let piece = digit_str(digits[j]);
        let ghost before = s@;
        s.append(piece);
        proof {
            let rv = rev_chars(digits@);
            let k = digits@.len() - j - 1;
            assert(rv[k as int] == digit_char(digits@[j as int] as int));
            assert(s@ =~= rv.take(k as int + 1));
        }
    }
    proof {
        assert(rev_chars(digits@).take(digits@.len() as int) =~= rev_chars(digits@));
    }
    s
}

/// Distinct counters render as distinct digit strings.
pub proof fn lemma_dec_digits_injective(m: nat, n: nat)
    requires
        dec_digits(m) == dec_digits(n),
    ensures
        m == n,
    decreases m,
{
    lemma_dec_digits_len(m);
    lemma_dec_digits_len(n);
    if m < 10 && n < 10 {
        assert(dec_digits(m)[0] == digit_char(m as int));
        assert(dec_digits(n)[0] == digit_char(n as int));
    } else if m >= 10 && n >= 10 {
        let dm = dec_digits(m / 10);
        let dn = dec_digits(n / 10);
        assert(dm.push(digit_char((m % 10) as int)).drop_last() =~= dm);
        assert(dn.push(digit_char((n % 10) as int)).drop_last() =~= dn);
        assert(dm == dn);
        lemma_dec_digits_injective(m / 10, n / 10);
        assert(dec_digits(m).last() == digit_char((m % 10) as int));
        assert(dec_digits(n).last() == digit_char((n % 10) as int));
        assert(m % 10 == n % 10);
        assert(m == 10 * (m / 10) + m % 10);
        assert(n == 10 * (n / 10) + n % 10);
    } else {
        // one value has a single digit, the other more: lengths differ
        assert(false);
    }
}

/// A value below ten renders as one digit, a larger one as more.
pub proof fn lemma_dec_digits_len(n: nat)
    ensures
        n < 10 ==> dec_digits(n).len() == 1,
        n >= 10 ==> dec_digits(n).len() >= 2,
    decreases n,
{
    if n >= 10 {
        lemma_dec_digits_len(n / 10);
    }
}

} // verus!
