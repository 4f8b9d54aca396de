//! Lossless translation between unsigned 64-bit scalars and the canonical
//! decimal text stored in numeric columns.
//!
//! Monetary and on-chain identifiers are kept in decimal-string columns, so
//! values above the 32-bit range survive storage bit-for-bit.  Encoding is
//! total; decoding accepts exactly the canonical spellings that encoding
//! produces and rejects everything else.

use vstd::prelude::*;
use vstd::string::StrSliceExecFns;
use vstd::string::StringExecFns;

use crate::errors::DaoError;

verus! {

/// The decimal digit character for a value below ten.
pub open spec fn digit_char(d: nat) -> char {
    if d == 0 {
        '0'
    } else if d == 1 {
        '1'
    } else if d == 2 {
        '2'
    } else if d == 3 {
        '3'
    } else if d == 4 {
        '4'
    } else if d == 5 {
        '5'
    } else if d == 6 {
        '6'
    } else if d == 7 {
        '7'
    } else if d == 8 {
        '8'
    } else {
        '9'
    }
}

/// Whether `c` is a decimal digit character.
pub open spec fn is_digit(c: char) -> bool {
    c == '0' || c == '1' || c == '2' || c == '3' || c == '4' || c == '5' || c == '6' || c == '7'
        || c == '8' || c == '9'
}

/// The value of a decimal digit character.
pub open spec fn digit_val(c: char) -> nat {
    if c == '0' {
        0
    } else if c == '1' {
        1
    } else if c == '2' {
        2
    } else if c == '3' {
        3
    } else if c == '4' {
        4
    } else if c == '5' {
        5
    } else if c == '6' {
        6
    } else if c == '7' {
        7
    } else if c == '8' {
        8
    } else {
        9
    }
}

/// The canonical decimal text of `n`: base ten, no sign, no leading zeros,
/// a single `'0'` for zero.
pub open spec fn dec_of(n: nat) -> Seq<char>
    decreases n,
{
    if n < 10 {
        seq![digit_char(n)]
    } else {
        dec_of(n / 10).push(digit_char(n % 10))
    }
}

/// Whether every character of `s` is a decimal digit.
pub open spec fn all_digits(s: Seq<char>) -> bool {
    forall|i: int| 0 <= i < s.len() ==> is_digit(#[trigger] s[i])
}

/// The numeric value of a digit string, most significant digit first.
pub open spec fn dec_val(s: Seq<char>) -> nat
    decreases s.len(),
{
    if s.len() == 0 {
        0
    } else {
        dec_val(s.drop_last()) * 10 + digit_val(s.last())
    }
}

/// Whether `s` is the canonical decimal text of some natural number:
/// nonempty, digits only, and no leading zero.
pub open spec fn is_canonical_dec(s: Seq<char>) -> bool {
    all_digits(s) && s.len() > 0 && (s.len() == 1 || s[0] != '0')
}

/// The canonical text of `n` is indeed canonical, and evaluates back to `n`.
pub proof fn lemma_dec_of_canonical(n: nat)
    ensures
        is_canonical_dec(dec_of(n)),
        dec_val(dec_of(n)) == n,
    decreases n,
{
    if n < 10 {
        let s = dec_of(n);
        assert(s == seq![digit_char(n)]);
        assert(s.len() == 1 && s.last() == digit_char(n));
        assert(s.drop_last() =~= Seq::<char>::empty());
        assert(dec_val(Seq::<char>::empty()) == 0);
        assert(dec_val(s) == dec_val(s.drop_last()) * 10 + digit_val(s.last()));
        assert(dec_val(s) == digit_val(digit_char(n)));
    } else {
        lemma_dec_of_canonical(n / 10);
        let prefix = dec_of(n / 10);
        let s = dec_of(n);
        assert(s == prefix.push(digit_char(n % 10)));
        assert(s.drop_last() =~= prefix);
        assert(dec_val(s) == dec_val(prefix) * 10 + digit_val(digit_char(n % 10)));
        assert(n % 10 < 10);
        assert(digit_val(digit_char(n % 10)) == n % 10);
        assert(dec_val(s) == (n / 10) * 10 + n % 10);
        assert((n / 10) * 10 + n % 10 == n) by (nonlinear_arith);
        assert(s[0] == prefix[0]);
        assert(n / 10 >= 1) by (nonlinear_arith)
            requires
                n >= 10,
        ;
        if prefix.len() == 1 {
            assert(prefix.drop_last() =~= Seq::<char>::empty());
            assert(dec_val(Seq::<char>::empty()) == 0);
            assert(dec_val(prefix) == dec_val(prefix.drop_last()) * 10 + digit_val(prefix.last()));
            assert(prefix.last() == prefix[0]);
            assert(digit_val(prefix[0]) == dec_val(prefix));
            assert(dec_val(prefix) == n / 10 >= 1);
            assert(prefix[0] != '0');
        }
        assert(s[0] != '0');
        assert(all_digits(s)) by {
            assert(forall|i: int|
                0 <= i < s.len() ==> #[trigger] s[i] == if i < prefix.len() {
                    prefix[i]
                } else {
                    digit_char(n % 10)
                });
        }
    }
}

/// A nonempty digit string that does not begin with `'0'` has a positive
/// value.
proof fn lemma_dec_val_positive(s: Seq<char>)
    requires
        all_digits(s),
        s.len() > 0,
        s[0] != '0',
    ensures
        dec_val(s) >= 1,
    decreases s.len(),
{
    if s.len() == 1 {
        assert(digit_val(s[0]) >= 1);
    } else {
        let prefix = s.drop_last();
        assert(prefix[0] == s[0]);
        assert(all_digits(prefix)) by {
            assert(forall|i: int| 0 <= i < prefix.len() ==> #[trigger] prefix[i] == s[i]);
        }
        lemma_dec_val_positive(prefix);
        assert(dec_val(s) == dec_val(prefix) * 10 + digit_val(s.last()));
        assert(dec_val(prefix) * 10 >= 10) by (nonlinear_arith)
            requires
                dec_val(prefix) >= 1,
        ;
    }
}

/// Every canonical digit string is the canonical text of its value.
pub proof fn lemma_canonical_dec_of(s: Seq<char>)
    requires
        is_canonical_dec(s),
    ensures
        dec_of(dec_val(s)) == s,
    decreases s.len(),
{
    if s.len() == 1 {
        assert(dec_val(s) == dec_val(s.drop_last()) * 10 + digit_val(s.last()));
        assert(s.drop_last().len() == 0);
        assert(dec_val(s) == digit_val(s[0]));
        assert(digit_val(s[0]) < 10);
        assert(dec_of(dec_val(s)) == seq![digit_char(digit_val(s[0]))]);
        assert(digit_char(digit_val(s[0])) == s[0]);
        assert(dec_of(dec_val(s)) =~= s);
    } else {
        let prefix = s.drop_last();
        assert(prefix[0] == s[0]);
        assert(all_digits(prefix)) by {
            assert(forall|i: int| 0 <= i < prefix.len() ==> #[trigger] prefix[i] == s[i]);
        }
        assert(is_canonical_dec(prefix));
        lemma_canonical_dec_of(prefix);
        lemma_dec_val_positive(prefix);
        let v = dec_val(s);
        let d = digit_val(s.last());
        assert(v == dec_val(prefix) * 10 + d);
        assert(v >= 10) by (nonlinear_arith)
            requires
                dec_val(prefix) >= 1,
                v == dec_val(prefix) * 10 + d,
        ;
        assert(v / 10 == dec_val(prefix) && v % 10 == d) by (nonlinear_arith)
            requires
                v == dec_val(prefix) * 10 + d,
                d < 10,
        ;
        assert(dec_of(v) == dec_of(dec_val(prefix)).push(digit_char(d)));
        assert(digit_char(d) == s.last());
        assert(dec_of(v) == prefix.push(s.last()));
        assert(prefix.push(s.last()) =~= s);
    }
}

/// The canonical text determines its value: distinct numbers have distinct
/// texts.
pub proof fn lemma_dec_of_injective(a: nat, b: nat)
    requires
        dec_of(a) == dec_of(b),
    ensures
        a == b,
{
    lemma_dec_of_canonical(a);
    lemma_dec_of_canonical(b);
}

/// Builds the one-character string of a digit in front of `s`.
fn prepend_digit(d: u64, s: String) -> (r: String)
    requires
        d < 10,
    ensures
        r@ == seq![digit_char(d as nat)] + s@,
{
    let ds: &str = if d == 0 {
        "0"
    } else if d == 1 {
        "1"
    } else if d == 2 {
        "2"
    } else if d == 3 {
        "3"
    } else if d == 4 {
        "4"
    } else if d == 5 {
        "5"
    } else if d == 6 {
        "6"
    } else if d == 7 {
        "7"
    } else if d == 8 {
        "8"
    } else {
        "9"
    };
    proof {
        reveal_strlit("0");
        reveal_strlit("1");
        reveal_strlit("2");
        reveal_strlit("3");
        reveal_strlit("4");
        reveal_strlit("5");
        reveal_strlit("6");
        reveal_strlit("7");
        reveal_strlit("8");
        reveal_strlit("9");
        assert(ds@ =~= seq![digit_char(d as nat)]);
    }
    let r = String::from_str(ds).concat(s.as_str());
    proof {
        assert(r@ =~= seq![digit_char(d as nat)] + s@);
    }
    r
}

/// Encodes `n` as its canonical decimal column text.
pub fn u64_to_dec(n: u64) -> (r: String)
    ensures
        r@ == dec_of(n as nat),
{
    let mut s = String::new();
    let mut m: u64 = n;
    loop
        invariant_except_break
            m <= n,
            m == 0 ==> n == 0 && s@ =~= Seq::<char>::empty(),
            m > 0 ==> dec_of(n as nat) == dec_of(m as nat) + s@,
        ensures
            s@ == dec_of(n as nat),
        decreases m,
    {
        let d: u64 = m % 10;
        let ghost m_old: u64 = m;
        let ghost s_old: Seq<char> = s@;
        s = prepend_digit(d, s);
        m = m / 10;
        if m == 0 {
            proof {
                if m_old == 0 {
                    assert(dec_of(n as nat) == seq![digit_char(0)]);
                    assert(s@ =~= dec_of(n as nat));
                } else {
                    assert(m_old < 10);
                    assert(dec_of(m_old as nat) == seq![digit_char(m_old as nat)]);
                    assert(d == m_old);
                    assert(s@ =~= dec_of(m_old as nat) + s_old);
                    assert(s@ =~= dec_of(n as nat));
                }
            }
            break;
        }
        proof {
            assert(m_old >= 10);
            assert(dec_of(m_old as nat) == dec_of((m_old as nat) / 10).push(
                digit_char((m_old as nat) % 10),
            ));
            assert(m == m_old / 10 && d == m_old % 10);
            assert(dec_of(m_old as nat) =~= dec_of(m as nat) + seq![digit_char(d as nat)]);
            assert(dec_of(n as nat) =~= dec_of(m as nat) + s@);
        }
    }
    s
}

/// The value of a digit string can only grow as digits are appended.
proof fn lemma_dec_val_take_le(s: Seq<char>, k: int)
    requires
        0 <= k <= s.len(),
    ensures
        dec_val(s.take(k)) <= dec_val(s),
    decreases s.len() - k,
{
    if k == s.len() {
        assert(s.take(k) =~= s);
    } else {
        lemma_dec_val_take_le(s, k + 1);
        let t = s.take(k + 1);
        assert(t.drop_last() =~= s.take(k));
        assert(dec_val(t) == dec_val(s.take(k)) * 10 + digit_val(t.last()));
        assert(dec_val(s.take(k)) * 10 >= dec_val(s.take(k))) by (nonlinear_arith);
    }
}

/// Decodes a decimal column.  Succeeds exactly on the canonical text of a
/// 64-bit value, which it returns; anything else is a malformed stored
/// scalar.
pub fn get_u64(s: &str) -> (r: Result<u64, DaoError>)
    ensures
        match r {
            Ok(n) => s@ == dec_of(n as nat),
            Err(e) => e == DaoError::EncodingFailure && forall|n: u64| s@ != dec_of(n as nat),
        },
{
    let len = s.unicode_len();
    if len == 0 {
        proof {
            assert forall|n: u64| s@ != dec_of(n as nat) by {
                lemma_dec_of_canonical(n as nat);
            }
        }
        return Err(DaoError::EncodingFailure);
    }
    if len > 1 && s.get_char(0) == '0' {
        proof {
            assert forall|n: u64| s@ != dec_of(n as nat) by {
                lemma_dec_of_canonical(n as nat);
            }
        }
        return Err(DaoError::EncodingFailure);
    }
    let mut acc: u64 = 0;
    let mut i: usize = 0;
    while i < len
        invariant
            0 <= i <= len,
            len == s@.len(),
            len >= 1,
            len > 1 ==> s@[0] != '0',
            acc as nat == dec_val(s@.take(i as int)),
            all_digits(s@.take(i as int)),
        decreases len - i,
    {
        let c = s.get_char(i);
        let d: u64 = if c == '0' {
            0
        } else if c == '1' {
            1
        } else if c == '2' {
            2
        } else if c == '3' {
            3
        } else if c == '4' {
            4
        } else if c == '5' {
            5
        } else if c == '6' {
            6
        } else if c == '7' {
            7
        } else if c == '8' {
            8
        } else if c == '9' {
            9
        } else {
            proof {
                assert(!is_digit(s@[i as int]));
                assert forall|n: u64| s@ != dec_of(n as nat) by {
                    lemma_dec_of_canonical(n as nat);
                }
            }
            return Err(DaoError::EncodingFailure);
        };
        proof {
            assert(is_digit(s@[i as int]) && digit_val(s@[i as int]) == d as nat);
        }
        let next = match acc.checked_mul(10) {
            Some(t) => t.checked_add(d),
            None => None,
        };
        match next {
            Some(t) => {
                proof {
                    let taken = s@.take(i as int + 1);
                    assert(taken.drop_last() =~= s@.take(i as int));
                    assert(taken.last() == s@[i as int]);
                    assert(dec_val(taken) == dec_val(s@.take(i as int)) * 10 + d as nat);
                    assert(all_digits(taken)) by {
                        assert(forall|j: int|
                            0 <= j < taken.len() ==> #[trigger] taken[j] == if j < i as int {
                                s@.take(i as int)[j]
                            } else {
                                s@[i as int]
                            });
                    }
                }
                acc = t;
            },
            None => {
                proof {
                    let taken = s@.take(i as int + 1);
                    assert(taken.drop_last() =~= s@.take(i as int));
                    assert(dec_val(taken) == (acc as nat) * 10 + d as nat);
                    assert(dec_val(taken) > u64::MAX as nat);
                    lemma_dec_val_take_le(s@, i as int + 1);
                    assert forall|n: u64| s@ != dec_of(n as nat) by {
                        if s@ == dec_of(n as nat) {
                            lemma_dec_of_canonical(n as nat);
                            assert(dec_val(s@) == n as nat);
                        }
                    }
                }
                return Err(DaoError::EncodingFailure);
            },
        }
        i = i + 1;
    }
    proof {
        assert(s@.take(len as int) =~= s@);
        assert(is_canonical_dec(s@));
        lemma_canonical_dec_of(s@);
    }
    Ok(acc)
}

/// Decodes a monetary column into an amount of the smallest denomination.
/// Succeeds exactly on the canonical decimal text of a 64-bit amount.
pub fn get_microalgos(s: &str) -> (r: Result<crate::domain::MicroAlgos, DaoError>)
    ensures
        match r {
            Ok(m) => s@ == dec_of(m.0 as nat),
            Err(e) => e == DaoError::EncodingFailure && forall|n: u64| s@ != dec_of(n as nat),
        },
{
    match get_u64(s) {
        Ok(v) => Ok(crate::domain::MicroAlgos(v)),
        Err(e) => Err(e),
    }
}

} // verus!
