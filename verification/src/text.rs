//! Text helpers shared by the parsers and writers of the pipeline: the
//! characters of a string, digits, and numbers written in decimal or
//! hexadecimal.

use vstd::prelude::*;

verus! {

/// `String::push` of the standard library appends the character to the
/// end of the string and leaves the rest as it was. This is taken from its
/// documentation, not proved here.
pub assume_specification[ String::push ](s: &mut String, c: char)
    ensures
        final(s)@ == old(s)@.push(c),
;

/// The characters of a string, in order.
pub fn chars_of(s: &str) -> (v: Vec<char>)
    ensures
        v@ == s@,
{
    let mut v: Vec<char> = Vec::new();
    for c in it: s.chars()
        invariant
            it.seq() == s@,
            v@ == it.seq().take(it.index() as int),
    {
        v.push(c);
    }
    v
}

/// The character that writes the digit `d`: `0` to `9`, then `a` to `z`.
pub open spec fn digit_char(d: nat) -> char {
    if d < 10 {
        ('0' as nat + d) as char
    } else {
        ('a' as nat + d - 10) as char
    }
}

/// The value of `c` as a digit in `radix`, if it is one. Letters count from
/// ten, in either case.
pub open spec fn digit_value(c: char, radix: nat) -> Option<nat> {
    let v: int = if '0' <= c <= '9' {
        c as int - '0' as int
    } else if 'a' <= c <= 'z' {
        c as int - 'a' as int + 10
    } else if 'A' <= c <= 'Z' {
        c as int - 'A' as int + 10
    } else {
        36
    };
    if v < radix {
        Some(v as nat)
    } else {
        None
    }
}

/// The number that a run of digits writes in `radix`, most significant
/// digit first; `None` where some character is no digit of that radix. The
/// empty run writes zero.
pub open spec fn number_of(digits: Seq<char>, radix: nat) -> Option<nat>
    decreases digits.len(),
{
    if digits.len() == 0 {
        Some(0)
    } else {
        match (number_of(digits.drop_last(), radix), digit_value(digits.last(), radix)) {
            (Some(high), Some(low)) => Some(high * radix + low),
            _ => None,
        }
    }
}

/// The decimal writing of `n`, without leading zeros.
pub open spec fn decimal(n: nat) -> Seq<char>
    decreases n,
{
    if n < 10 {
        seq![digit_char(n)]
    } else {
        decimal(n / 10).push(digit_char(n % 10))
    }
}

/// A number is at least the number that any prefix of its digits writes,
/// and where the whole run is a number so is each prefix.
pub proof fn lemma_number_of_prefix(digits: Seq<char>, radix: nat, k: int)
    requires
        0 <= k <= digits.len(),
        radix >= 1,
    ensures
        number_of(digits, radix) matches Some(v) ==> (number_of(digits.take(k), radix) matches Some(
            p,
        ) && p <= v),
    decreases digits.len(),
{
    if k == digits.len() {
        assert(digits.take(k) == digits);
    } else if number_of(digits, radix) is Some {
        let rest = digits.drop_last();
        assert(rest.take(k) == digits.take(k));
        lemma_number_of_prefix(rest, radix, k);
        let high = number_of(rest, radix)->0;
        assert(high * radix >= high) by (nonlinear_arith)
            requires
                radix >= 1,
                high >= 0,
        ;
    }
}

/// Reading back the decimal writing of a number gives the number.
pub proof fn lemma_number_of_decimal(n: nat)
    ensures
        number_of(decimal(n), 10) == Some(n),
        decimal(n).len() >= 1,
        forall|i: int| 0 <= i < decimal(n).len() ==> '0' <= #[trigger] decimal(n)[i] <= '9',
        n > 0 ==> decimal(n)[0] != '0',
    decreases n,
{
    if n < 10 {
        let d = decimal(n);
        assert(number_of(d.drop_last(), 10) == Some(0nat));
    } else {
        lemma_number_of_decimal(n / 10);
        let d = decimal(n);
        assert(d.drop_last() == decimal(n / 10));
    }
}

/// The value of `c` as a digit in `radix`.
pub fn digit_of(c: char, radix: u32) -> (r: Option<u32>)
    requires
        radix <= 36,
    ensures
        r matches Some(v) ==> digit_value(c, radix as nat) == Some(v as nat),
        r is None ==> digit_value(c, radix as nat) is None,
{
    let v: u32 = if '0' <= c && c <= '9' {
        c as u32 - '0' as u32
    } else if 'a' <= c && c <= 'z' {
        c as u32 - 'a' as u32 + 10
    } else if 'A' <= c && c <= 'Z' {
        c as u32 - 'A' as u32 + 10
    } else {
        36
    };
    if v < radix {
        Some(v)
    } else {
        None
    }
}

/// Reads `chars[from..to]` as a number in `radix` that does not exceed
/// `limit`.
pub fn read_number(chars: &Vec<char>, from: usize, to: usize, radix: u32, limit: u32) -> (r: Option<
    u32,
>)
    requires
        from <= to <= chars.len(),
        1 <= radix <= 36,
    ensures
        r == match number_of(chars@.subrange(from as int, to as int), radix as nat) {
            Some(v) => if v <= limit {
                Some(v as u32)
            } else {
                None
            },
            None => None,
        },
{
    let ghost run = chars@.subrange(from as int, to as int);
    let mut acc: u64 = 0;
    let mut i: usize = from;
    while i < to
        invariant
            from <= i <= to <= chars.len(),
            1 <= radix <= 36,
            run == chars@.subrange(from as int, to as int),
            number_of(run.take(i - from), radix as nat) == Some(acc as nat),
            acc <= limit,
        decreases to - i,
    {
        proof {
            lemma_number_of_prefix(run, radix as nat, i - from + 1);
            assert(run.take(i - from + 1).drop_last() == run.take(i - from));
        }
        match digit_of(chars[i], radix) {
            None => {
                return None;
            },
            Some(d) => {
                assert(acc * radix + d <= 0xFFFF_FFFF * 36 + 36) by (nonlinear_arith)
                    requires
                        acc <= 0xFFFF_FFFF,
                        radix <= 36,
                        d < 36,
                ;
                let next: u64 = acc * (radix as u64) + (d as u64);
                if next > limit as u64 {
                    return None;
                }
                acc = next;
            },
        }
        i += 1;
    }
    assert(run.take(to - from) == run);
    Some(acc as u32)
}

/// Appends the decimal writing of `n` to `out`.
pub fn push_decimal(out: &mut String, n: u16)
    ensures
        final(out)@ == old(out)@ + decimal(n as nat),
    decreases n,
{
    if n >= 10 {
        push_decimal(out, n / 10);
    }
    let d: u8 = (n % 10) as u8;
    out.push(('0' as u8 + d) as char);
}

} // verus!
