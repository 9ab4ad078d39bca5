use vstd::prelude::*;

verus! {

/// A decimal digit test used throughout the number grammar.
pub open spec fn spec_is_digit(c: char) -> bool {
    '0' <= c && c <= '9'
}

/// Executable counterpart of `spec_is_digit`.
pub fn is_digit(c: char) -> (r: bool)
    ensures
        r == spec_is_digit(c),
{
    '0' <= c && c <= '9'
}

/// The first position at or after `i` that does not hold a digit.
pub open spec fn first_non_digit(s: Seq<char>, i: int) -> int
    decreases s.len() - i,
{
    if i < 0 || i >= s.len() || !spec_is_digit(s[i]) {
        i
    } else {
        first_non_digit(s, i + 1)
    }
}

pub proof fn lemma_first_non_digit(s: Seq<char>, i: int)
    requires
        0 <= i <= s.len(),
    ensures
        i <= first_non_digit(s, i) <= s.len(),
        forall|j: int| i <= j < first_non_digit(s, i) ==> spec_is_digit(#[trigger] s[j]),
        first_non_digit(s, i) < s.len() ==> !spec_is_digit(s[first_non_digit(s, i)]),
    decreases s.len() - i,
{
    if i < s.len() && spec_is_digit(s[i]) {
        lemma_first_non_digit(s, i + 1);
    }
}

/// The decimal number grammar both surface encodings share: an optional
/// minus sign, an integer part without leading zeroes, an optional
/// fraction, and an optional exponent. Exactly the texts in this grammar
/// are accepted as the value of a floating-point field.
pub open spec fn is_num_text(s: Seq<char>) -> bool {
    let i0: int = if s.len() > 0 && s[0] == '-' {
        1
    } else {
        0
    };
    &&& i0 < s.len()
    &&& spec_is_digit(s[i0])
    &&& {
        let i1 = if s[i0] == '0' {
            i0 + 1
        } else {
            first_non_digit(s, i0)
        };
        let i2 = if i1 < s.len() && s[i1] == '.' {
            if i1 + 1 < s.len() && spec_is_digit(s[i1 + 1]) {
                first_non_digit(s, i1 + 1)
            } else {
                -1
            }
        } else {
            i1
        };
        &&& i2 >= 0
        &&& {
            let i3 = if i2 < s.len() && (s[i2] == 'e' || s[i2] == 'E') {
                let id = if i2 + 1 < s.len() && (s[i2 + 1] == '+' || s[i2 + 1] == '-') {
                    i2 + 2
                } else {
                    i2 + 1
                };
                if id < s.len() && spec_is_digit(s[id]) {
                    first_non_digit(s, id)
                } else {
                    -1
                }
            } else {
                i2
            };
            i3 == s.len()
        }
    }
}

/// Scans past a digit run, returning the first non-digit position.
fn scan_digits(s: &str, from: usize) -> (r: usize)
    requires
        from <= s@.len(),
    ensures
        r == first_non_digit(s@, from as int),
        from <= r <= s@.len(),
{
    let n = s.unicode_len();
    let mut i = from;
    loop
        invariant
            from <= i <= n,
            n == s@.len(),
            first_non_digit(s@, from as int) == first_non_digit(s@, i as int),
        decreases n - i,
    {
        if i >= n {
            return i;
        }
        let c = s.get_char(i);
        if !is_digit(c) {
            return i;
        }
        i = i + 1;
    }
}

/// Decides membership in the decimal number grammar.
pub fn is_number_text(s: &str) -> (r: bool)
    ensures
        r == is_num_text(s@),
{
    let n = s.unicode_len();
    let i0: usize = if n > 0 && s.get_char(0) == '-' {
        1
    } else {
        0
    };
    if i0 >= n || !is_digit(s.get_char(i0)) {
        return false;
    }
    let i1: usize = if s.get_char(i0) == '0' {
        i0 + 1
    } else {
        scan_digits(s, i0)
    };
    proof {
        lemma_first_non_digit(s@, i0 as int);
    }
    let i2: usize;
    if i1 < n && s.get_char(i1) == '.' {
        if i1 + 1 < n && is_digit(s.get_char(i1 + 1)) {
            i2 = scan_digits(s, i1 + 1);
        } else {
            return false;
        }
    } else {
        i2 = i1;
    }
    proof {
        lemma_first_non_digit(s@, i2 as int);
    }
    if i2 < n && (s.get_char(i2) == 'e' || s.get_char(i2) == 'E') {
        let id: usize = if i2 + 1 < n && (s.get_char(i2 + 1) == '+' || s.get_char(i2 + 1) == '-') {
            i2 + 2
        } else {
            i2 + 1
        };
        if id < n && is_digit(s.get_char(id)) {
            let i3 = scan_digits(s, id);
            i3 == n
        } else {
            false
        }
    } else {
        i2 == n
    }
}

// ----- decimal text of an unsigned integer -----

/// The character for one digit.
pub open spec fn digit_char(d: nat) -> char {
    if d == 0 {
        '0'
    } else if d == 1 {
        '1'
    } else if d == 2 {
        '2'
    } else if d == 3 {
        '3'
    } else if d == 4 {
        '4'
    } else if d == 5 {
        '5'
    } else if d == 6 {
        '6'
    } else if d == 7 {
        '7'
    } else if d == 8 {
        '8'
    } else {
        '9'
    }
}

/// The value of one digit character.
pub open spec fn digit_val(c: char) -> nat {
    if c == '0' {
        0
    } else if c == '1' {
        1
    } else if c == '2' {
        2
    } else if c == '3' {
        3
    } else if c == '4' {
        4
    } else if c == '5' {
        5
    } else if c == '6' {
        6
    } else if c == '7' {
        7
    } else if c == '8' {
        8
    } else {
        9
    }
}

/// The decimal text of `n`, most significant digit first.
pub open spec fn dec_text(n: nat) -> Seq<char>
    decreases n,
{
    if n < 10 {
        seq![digit_char(n)]
    } else {
        dec_text(n / 10) + seq![digit_char(n % 10)]
    }
}

/// The number named by a digit string.
pub open spec fn dec_val(s: Seq<char>) -> nat
    decreases s.len(),
{
    if s.len() == 0 {
        0
    } else {
        dec_val(s.drop_last()) * 10 + digit_val(s.last())
    }
}

/// Writing a number and reading it back gives the number again, and the
/// text written is a non-empty digit run.
pub proof fn lemma_dec_text_val(n: nat)
    ensures
        dec_val(dec_text(n)) == n,
        dec_text(n).len() > 0,
        forall|j: int| 0 <= j < dec_text(n).len() ==> spec_is_digit(#[trigger] dec_text(n)[j]),
    decreases n,
{
    if n < 10 {
        assert(dec_text(n) =~= seq![digit_char(n)]);
        assert(dec_val(seq![digit_char(n)].drop_last()) == 0);
    } else {
        lemma_dec_text_val(n / 10);
        let t = dec_text(n / 10) + seq![digit_char(n % 10)];
        assert(t.drop_last() =~= dec_text(n / 10));
        assert(t.last() == digit_char(n % 10));
    }
}

/// One digit as a string slice.
fn digit_str(d: u32) -> (r: &'static str)
    requires
        d < 10,
    ensures
        r@ == seq![digit_char(d as nat)],
{
    proof {
        reveal_strlit("0");
        reveal_strlit("1");
        reveal_strlit("2");
        reveal_strlit("3");
        reveal_strlit("4");
        reveal_strlit("5");
        reveal_strlit("6");
        reveal_strlit("7");
        reveal_strlit("8");
        reveal_strlit("9");
    }
    let r = if d == 0 {
        "0"
    } else if d == 1 {
        "1"
    } else if d == 2 {
        "2"
    } else if d == 3 {
        "3"
    } else if d == 4 {
        "4"
    } else if d == 5 {
        "5"
    } else if d == 6 {
        "6"
    } else if d == 7 {
        "7"
    } else {
        "8"
    };
    let r = if d == 9 {
        "9"
    } else {
        r
    };
    proof {
        assert(r@ =~= seq![digit_char(d as nat)]);
    }
    r
}

/// The decimal text of `n`.
pub fn u32_text(n: u32) -> (r: String)
    ensures
        r@ == dec_text(n as nat),
    decreases n,
{
    if n < 10 {
        let mut s = String::new();
        s.append(digit_str(n));
        proof {
            assert(s@ =~= dec_text(n as nat));
        }
        s
    } else {
        assert(n / 10 < n && n / 10 >= 1) by (nonlinear_arith)
            requires
                n >= 10,
        ;
        let mut s = u32_text(n / 10);
        s.append(digit_str(n % 10));
        proof {
            assert(s@ =~= dec_text(n as nat));
        }
        s
    }
}

/// The number a digit text names, when it is one and fits in 32 bits:
/// a non-empty all-digit text naming a value at most `u32::MAX`.
pub open spec fn spec_parse_u32(s: Seq<char>) -> Option<u32> {
    if s.len() > 0 && (forall|j: int| 0 <= j < s.len() ==> spec_is_digit(#[trigger] s[j]))
        && dec_val(s) <= u32::MAX {
        Some(dec_val(s) as u32)
    } else {
        None
    }
}

/// A longer digit run never names a smaller number.
proof fn lemma_dec_val_monotone(s: Seq<char>, i: int)
    requires
        0 <= i <= s.len(),
    ensures
        dec_val(s.take(i)) <= dec_val(s),
    decreases s.len() - i,
{
    if i < s.len() {
        lemma_dec_val_monotone(s, i + 1);
        assert(s.take(i + 1).drop_last() =~= s.take(i));
        assert(dec_val(s.take(i + 1)) == dec_val(s.take(i)) * 10 + digit_val(s.take(i + 1).last()));
        assert(dec_val(s.take(i)) * 10 >= dec_val(s.take(i))) by (nonlinear_arith);
    } else {
        assert(s.take(i) =~= s);
    }
}

/// Reads a 32-bit number from decimal text.
pub fn parse_u32(s: &str) -> (r: Option<u32>)
    ensures
        r == spec_parse_u32(s@),
{
    let n = s.unicode_len();
    if n == 0 {
        return None;
    }
    let mut acc: u64 = 0;
    let mut i: usize = 0;
    loop
        invariant
            0 <= i <= n,
            n == s@.len(),
            n > 0,
            forall|j: int| 0 <= j < i ==> spec_is_digit(#[trigger] s@[j]),
            acc == dec_val(s@.take(i as int)),
            acc <= u32::MAX,
        decreases n - i,
    {
        if i >= n {
            proof {
                assert(s@.take(i as int) =~= s@);
            }
            return Some(acc as u32);
        }
        let c = s.get_char(i);
        if !is_digit(c) {
            return None;
        }
        let d: u64 = if c == '0' {
            0
        } else if c == '1' {
            1
        } else if c == '2' {
            2
        } else if c == '3' {
            3
        } else if c == '4' {
            4
        } else if c == '5' {
            5
        } else if c == '6' {
            6
        } else if c == '7' {
            7
        } else if c == '8' {
            8
        } else {
            9
        };
        proof {
            assert(d == digit_val(c));
        }
        let next: u64 = acc * 10 + d;
        proof {
            assert(s@.take(i + 1).drop_last() =~= s@.take(i as int));
            assert(s@.take(i + 1).last() == s@[i as int]);
        }
        if next > 0xffff_ffff {
            proof {
                lemma_dec_val_monotone(s@, i + 1);
            }
            return None;
        }
        acc = next;
        i = i + 1;
    }
}

/// Parsing the decimal text of `n` gives `n` back.
pub proof fn lemma_u32_text_round_trip(n: u32)
    ensures
        spec_parse_u32(dec_text(n as nat)) == Some(n),
{
    lemma_dec_text_val(n as nat);
}

} // verus!
