//! The external identifier of a project: sixteen bytes, globally unique,
//! stable across storage variants.
//!
//! Its column text is the customary hyphenated form: thirty-two lowercase
//! hexadecimal digits with hyphens after the fourth, sixth, eighth and
//! tenth byte.  Encoding is total over well-formed identifiers; decoding
//! accepts exactly that canonical text.

use vstd::prelude::*;
use vstd::string::StrSliceExecFns;
use vstd::string::StringExecFns;

use crate::errors::DaoError;

verus! {

/// The lowercase hexadecimal digit character for a value below sixteen.
pub open spec fn hex_char(d: nat) -> char {
    if d == 0 {
        '0'
    } else if d == 1 {
        '1'
    } else if d == 2 {
        '2'
    } else if d == 3 {
        '3'
    } else if d == 4 {
        '4'
    } else if d == 5 {
        '5'
    } else if d == 6 {
        '6'
    } else if d == 7 {
        '7'
    } else if d == 8 {
        '8'
    } else if d == 9 {
        '9'
    } else if d == 10 {
        'a'
    } else if d == 11 {
        'b'
    } else if d == 12 {
        'c'
    } else if d == 13 {
        'd'
    } else if d == 14 {
        'e'
    } else {
        'f'
    }
}

/// Whether `c` is a lowercase hexadecimal digit character.
pub open spec fn is_hex(c: char) -> bool {
    c == '0' || c == '1' || c == '2' || c == '3' || c == '4' || c == '5' || c == '6' || c == '7'
        || c == '8' || c == '9' || c == 'a' || c == 'b' || c == 'c' || c == 'd' || c == 'e'
        || c == 'f'
}

/// The value of a lowercase hexadecimal digit character.
pub open spec fn hex_val(c: char) -> nat {
    if c == '0' {
        0
    } else if c == '1' {
        1
    } else if c == '2' {
        2
    } else if c == '3' {
        3
    } else if c == '4' {
        4
    } else if c == '5' {
        5
    } else if c == '6' {
        6
    } else if c == '7' {
        7
    } else if c == '8' {
        8
    } else if c == '9' {
        9
    } else if c == 'a' {
        10
    } else if c == 'b' {
        11
    } else if c == 'c' {
        12
    } else if c == 'd' {
        13
    } else if c == 'e' {
        14
    } else {
        15
    }
}

/// The high hexadecimal digit of a byte.
pub open spec fn hi(b: u8) -> char {
    hex_char((b as nat) / 16)
}

/// The low hexadecimal digit of a byte.
pub open spec fn lo(b: u8) -> char {
    hex_char((b as nat) % 16)
}

/// The canonical hyphenated text of a sixteen-byte external identifier.
pub open spec fn ext_id_text(b: Seq<u8>) -> Seq<char>
    recommends
        b.len() == 16,
{
    seq![
        hi(b[0]),
        lo(b[0]),
        hi(b[1]),
        lo(b[1]),
        hi(b[2]),
        lo(b[2]),
        hi(b[3]),
        lo(b[3]),
        '-',
        hi(b[4]),
        lo(b[4]),
        hi(b[5]),
        lo(b[5]),
        '-',
        hi(b[6]),
        lo(b[6]),
        hi(b[7]),
        lo(b[7]),
        '-',
        hi(b[8]),
        lo(b[8]),
        hi(b[9]),
        lo(b[9]),
        '-',
        hi(b[10]),
        lo(b[10]),
        hi(b[11]),
        lo(b[11]),
        hi(b[12]),
        lo(b[12]),
        hi(b[13]),
        lo(b[13]),
        hi(b[14]),
        lo(b[14]),
        hi(b[15]),
        lo(b[15]),
    ]
}

/// Hexadecimal digits evaluate back to their value.
pub proof fn lemma_hex_char_val(d: nat)
    requires
        d < 16,
    ensures
        is_hex(hex_char(d)),
        hex_val(hex_char(d)) == d,
{
}

/// A hexadecimal digit character is the digit of its value.
pub proof fn lemma_hex_val_char(c: char)
    requires
        is_hex(c),
    ensures
        hex_val(c) < 16,
        hex_char(hex_val(c)) == c,
{
}

/// A globally unique external identifier for a project.
#[derive(Clone, PartialEq, Eq, Debug)]
pub struct ExternalId {
    bytes: Vec<u8>,
}

impl View for ExternalId {
    type V = Seq<u8>;

    closed spec fn view(&self) -> Seq<u8> {
        self.bytes@
    }
}

impl ExternalId {
    /// Well-formed identifiers hold exactly sixteen bytes.
    pub open spec fn wf(&self) -> bool {
        self@.len() == 16
    }

    /// Wraps sixteen raw bytes; any other count violates the shape.
    pub fn from_bytes(bytes: Vec<u8>) -> (r: Result<ExternalId, DaoError>)
        ensures
            match r {
                Ok(id) => id.wf() && id@ == bytes@,
                Err(e) => e == DaoError::ValidationError && bytes@.len() != 16,
            },
    {
        if bytes.len() == 16 {
            Ok(ExternalId { bytes })
        } else {
            Err(DaoError::ValidationError)
        }
    }

    /// The identifier's bytes, for callers that marshal it themselves.
    pub fn bytes(&self) -> (r: &Vec<u8>)
        ensures
            r@ == self@,
    {
        &self.bytes
    }

    /// Encodes the identifier as its canonical column text.
    pub fn to_text(&self) -> (r: String)
        requires
            self.wf(),
        ensures
            r@ == ext_id_text(self@),
    {
        let b = &self.bytes;
        let mut s = String::new();
        proof {
            reveal_strlit("-");
        }
        push_hex_byte(&mut s, b[0]);
        push_hex_byte(&mut s, b[1]);
        push_hex_byte(&mut s, b[2]);
        push_hex_byte(&mut s, b[3]);
        s.append("-");
        push_hex_byte(&mut s, b[4]);
        push_hex_byte(&mut s, b[5]);
        s.append("-");
        push_hex_byte(&mut s, b[6]);
        push_hex_byte(&mut s, b[7]);
        s.append("-");
        push_hex_byte(&mut s, b[8]);
        push_hex_byte(&mut s, b[9]);
        s.append("-");
        push_hex_byte(&mut s, b[10]);
        push_hex_byte(&mut s, b[11]);
        push_hex_byte(&mut s, b[12]);
        push_hex_byte(&mut s, b[13]);
        push_hex_byte(&mut s, b[14]);
        push_hex_byte(&mut s, b[15]);
        proof {
            assert(s@ =~= ext_id_text(self@));
        }
        s
    }

    /// Decodes a column.  Succeeds exactly on the canonical text of a
    /// sixteen-byte identifier, which it returns.
    pub fn from_text(s: &str) -> (r: Result<ExternalId, DaoError>)
        ensures
            match r {
                Ok(id) => id.wf() && s@ == ext_id_text(id@),
                Err(e) => e == DaoError::EncodingFailure && forall|b: Seq<u8>|
                    !(b.len() == 16 && s@ == ext_id_text(b)),
            },
    {
        let len = s.unicode_len();
        if len != 36 {
            return Err(DaoError::EncodingFailure);
        }
        if !(s.get_char(8) == '-' && s.get_char(13) == '-' && s.get_char(18) == '-' && s.get_char(
            23,
        ) == '-') {
            return Err(DaoError::EncodingFailure);
        }
        let mut bytes: Vec<u8> = Vec::new();
        let mut k: usize = 0;
        while k < 16
            invariant
                0 <= k <= 16,
                s@.len() == 36,
                bytes@.len() == k,
                forall|j: int| 0 <= j < k ==> #[trigger] s@[char_pos(j)] == hi(bytes@[j])
                    && s@[char_pos(j) + 1] == lo(bytes@[j]),
            decreases 16 - k,
        {
            let p = byte_text_pos(k);
            let c1 = s.get_char(p);
            let c2 = s.get_char(p + 1);
            let v1 = match hex_digit_value(c1) {
                Some(v) => v,
                None => {
                    proof {
                        assert forall|b: Seq<u8>| !(b.len() == 16 && s@ == ext_id_text(b)) by {
                            if b.len() == 16 && s@ == ext_id_text(b) {
                                lemma_text_positions(b, k as int);
                                lemma_hex_char_val((b[k as int] as nat) / 16);
                            }
                        }
                    }
                    return Err(DaoError::EncodingFailure);
                },
            };
            let v2 = match hex_digit_value(c2) {
                Some(v) => v,
                None => {
                    proof {
                        assert forall|b: Seq<u8>| !(b.len() == 16 && s@ == ext_id_text(b)) by {
                            if b.len() == 16 && s@ == ext_id_text(b) {
                                lemma_text_positions(b, k as int);
                                lemma_hex_char_val((b[k as int] as nat) % 16);
                            }
                        }
                    }
                    return Err(DaoError::EncodingFailure);
                },
            };
            let v: u8 = v1 * 16 + v2;
            proof {
                assert((v as nat) / 16 == v1 as nat && (v as nat) % 16 == v2 as nat)
                    by (nonlinear_arith)
                    requires
                        v1 < 16,
                        v2 < 16,
                        v == v1 * 16 + v2,
                ;
                lemma_hex_val_char(c1);
                lemma_hex_val_char(c2);
                assert(hi(v) == c1 && lo(v) == c2);
            }
            bytes.push(v);
            k = k + 1;
        }
        proof {
            assert forall|p: int| 0 <= p < 36 implies s@[p] == ext_id_text(bytes@)[p] by {
                if !(p == 8 || p == 13 || p == 18 || p == 23) {
                    let k = pos_byte(p);
                    assert(0 <= k < 16);
                    assert(s@[char_pos(k)] == hi(bytes@[k]));
                    assert(s@[char_pos(k) + 1] == lo(bytes@[k]));
                    assert(p == char_pos(k) || p == char_pos(k) + 1);
                }
            }
            assert(s@ =~= ext_id_text(bytes@));
        }
        let id = ExternalId { bytes };
        Ok(id)
    }
}

/// The byte whose pair of digit characters covers position `p` of the
/// canonical text, for positions that are not hyphens.
pub open spec fn pos_byte(p: int) -> int {
    if p <= 7 {
        p / 2
    } else if p <= 12 {
        (p - 1) / 2
    } else if p <= 17 {
        (p - 2) / 2
    } else if p <= 22 {
        (p - 3) / 2
    } else {
        (p - 4) / 2
    }
}

/// The index of the first character of byte `k` in the canonical text.
pub open spec fn char_pos(k: int) -> int {
    let hyphens: int = if k >= 10 {
        4
    } else if k >= 8 {
        3
    } else if k >= 6 {
        2
    } else if k >= 4 {
        1
    } else {
        0
    };
    2 * k + hyphens
}

/// Computes `char_pos` in executable code.
fn byte_text_pos(k: usize) -> (p: usize)
    requires
        k < 16,
    ensures
        p == char_pos(k as int),
        p + 1 < 36,
{
    2 * k + if k >= 10 {
        4
    } else if k >= 8 {
        3
    } else if k >= 6 {
        2
    } else if k >= 4 {
        1
    } else {
        0
    }
}

/// In the canonical text of `b`, byte `k` stands at its character position.
proof fn lemma_text_positions(b: Seq<u8>, k: int)
    requires
        b.len() == 16,
        0 <= k < 16,
    ensures
        ext_id_text(b)[char_pos(k)] == hi(b[k]),
        ext_id_text(b)[char_pos(k) + 1] == lo(b[k]),
{
}

/// The canonical text determines the identifier: distinct byte strings
/// have distinct texts.
pub proof fn lemma_ext_id_text_injective(a: Seq<u8>, b: Seq<u8>)
    requires
        a.len() == 16,
        b.len() == 16,
        ext_id_text(a) == ext_id_text(b),
    ensures
        a == b,
{
    assert forall|k: int| 0 <= k < 16 implies a[k] == b[k] by {
        lemma_text_positions(a, k);
        lemma_text_positions(b, k);
        assert(hi(a[k]) == hi(b[k]) && lo(a[k]) == lo(b[k]));
        lemma_hex_char_val((a[k] as nat) / 16);
        lemma_hex_char_val((a[k] as nat) % 16);
        lemma_hex_char_val((b[k] as nat) / 16);
        lemma_hex_char_val((b[k] as nat) % 16);
        assert((a[k] as nat) / 16 == (b[k] as nat) / 16);
        assert((a[k] as nat) % 16 == (b[k] as nat) % 16);
        assert((a[k] as nat) == ((a[k] as nat) / 16) * 16 + (a[k] as nat) % 16) by (nonlinear_arith);
        assert((b[k] as nat) == ((b[k] as nat) / 16) * 16 + (b[k] as nat) % 16) by (nonlinear_arith);
    }
    assert(a =~= b);
}

/// Translates one lowercase hexadecimal digit character.
fn hex_digit_value(c: char) -> (r: Option<u8>)
    ensures
        match r {
            Some(v) => is_hex(c) && v < 16 && v as nat == hex_val(c),
            None => !is_hex(c),
        },
{
    if c == '0' {
        Some(0)
    } else if c == '1' {
        Some(1)
    } else if c == '2' {
        Some(2)
    } else if c == '3' {
        Some(3)
    } else if c == '4' {
        Some(4)
    } else if c == '5' {
        Some(5)
    } else if c == '6' {
        Some(6)
    } else if c == '7' {
        Some(7)
    } else if c == '8' {
        Some(8)
    } else if c == '9' {
        Some(9)
    } else if c == 'a' {
        Some(10)
    } else if c == 'b' {
        Some(11)
    } else if c == 'c' {
        Some(12)
    } else if c == 'd' {
        Some(13)
    } else if c == 'e' {
        Some(14)
    } else if c == 'f' {
        Some(15)
    } else {
        None
    }
}

/// Appends one lowercase hexadecimal digit character.
fn append_hex_digit(s: &mut String, d: u8)
    requires
        d < 16,
    ensures
        final(s)@ == old(s)@ + seq![hex_char(d as nat)],
{
    let ds: &str = if d == 0 {
        "0"
    } else if d == 1 {
        "1"
    } else if d == 2 {
        "2"
    } else if d == 3 {
        "3"
    } else if d == 4 {
        "4"
    } else if d == 5 {
        "5"
    } else if d == 6 {
        "6"
    } else if d == 7 {
        "7"
    } else if d == 8 {
        "8"
    } else if d == 9 {
        "9"
    } else if d == 10 {
        "a"
    } else if d == 11 {
        "b"
    } else if d == 12 {
        "c"
    } else if d == 13 {
        "d"
    } else if d == 14 {
        "e"
    } else {
        "f"
    };
    proof {
        reveal_strlit("0");
        reveal_strlit("1");
        reveal_strlit("2");
        reveal_strlit("3");
        reveal_strlit("4");
        reveal_strlit("5");
        reveal_strlit("6");
        reveal_strlit("7");
        reveal_strlit("8");
        reveal_strlit("9");
        reveal_strlit("a");
        reveal_strlit("b");
        reveal_strlit("c");
        reveal_strlit("d");
        reveal_strlit("e");
        reveal_strlit("f");
        assert(ds@ =~= seq![hex_char(d as nat)]);
    }
    s.append(ds);
}

/// Appends the two hexadecimal digit characters of one byte.
fn push_hex_byte(s: &mut String, b: u8)
    ensures
        final(s)@ == old(s)@ + seq![hi(b), lo(b)],
{
    append_hex_digit(s, b / 16);
    append_hex_digit(s, b % 16);
    proof {
        assert(s@ =~= old(s)@ + seq![hi(b), lo(b)]);
    }
}

} // verus!
