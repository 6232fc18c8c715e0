//! Building ASCII text: decimal and hexadecimal renderings of integers.

use vstd::prelude::*;

verus! {

/// The ASCII digit for `d` (0..=9).
pub open spec fn digit_char(d: nat) -> char {
    (48 + d) as char
}

/// Decimal rendering of `n`, without sign or leading zeros.
pub open spec fn dec(n: nat) -> Seq<char>
    decreases n,
{
    if n < 10 {
        seq![digit_char(n)]
    } else {
        dec(n / 10).push(digit_char(n % 10))
    }
}

/// `k` copies of the character `c`.
pub open spec fn repeat_char(c: char, k: nat) -> Seq<char> {
    Seq::new(k, |_i: int| c)
}

/// Appends `c` to `s` (`String::push`).
#[verifier::external_body]
pub(crate) fn push_char(s: &mut String, c: char)
    ensures
        final(s)@ == old(s)@.push(c),
{
    s.push(c)
}

/// Appends the decimal rendering of `n` to `s`.
pub fn push_decimal(s: &mut String, n: usize)
    ensures
        final(s)@ == old(s)@ + dec(n as nat),
    decreases n,
{
    if n >= 10 {
        push_decimal(s, n / 10);
    }
    let d = (n % 10) as u8;
    push_char(s, (48u8 + d) as char);
    proof {
        if n >= 10 {
            assert(dec(n as nat) == dec((n / 10) as nat).push(digit_char((n % 10) as nat)));
        } else {
            assert(dec(n as nat) == seq![digit_char(n as nat)]);
        }
    }
}

/// Appends the decimal rendering of `n` to `s`.
pub fn push_decimal_u64(s: &mut String, n: u64)
    ensures
        final(s)@ == old(s)@ + dec(n as nat),
    decreases n,
{
    if n >= 10 {
        push_decimal_u64(s, n / 10);
    }
    let d = (n % 10) as u8;
    push_char(s, (48u8 + d) as char);
    proof {
        if n >= 10 {
            assert(dec(n as nat) == dec((n / 10) as nat).push(digit_char((n % 10) as nat)));
        } else {
            assert(dec(n as nat) == seq![digit_char(n as nat)]);
        }
    }
}

/// Appends `k` copies of `c` to `s`.
pub fn push_repeated(s: &mut String, c: char, k: usize)
    ensures
        final(s)@ == old(s)@ + repeat_char(c, k as nat),
{
    let ghost start = s@;
    let mut i: usize = 0;
    while i < k
        invariant
            i <= k,
            s@ == start + repeat_char(c, i as nat),
        decreases k - i,
    {
        push_char(s, c);
        i = i + 1;
        assert(s@ =~= start + repeat_char(c, i as nat));
    }
}

/// Every character of a decimal rendering is an ASCII digit.
pub proof fn lemma_dec_digits(n: nat)
    ensures
        dec(n).len() >= 1,
        forall|i: int| 0 <= i < dec(n).len() ==> 48 <= (#[trigger] dec(n)[i]) as int <= 57,
    decreases n,
{
    if n >= 10 {
        lemma_dec_digits(n / 10);
    }
}


/// The hexadecimal digit for a nibble, lower or upper case.
pub open spec fn hex_char(d: int, upper: bool) -> char {
    if d < 10 {
        (48 + d) as char
    } else if upper {
        (55 + d) as char
    } else {
        (87 + d) as char
    }
}

/// `v` as exactly four hexadecimal digits (`{:04x}` / `{:04X}`).
pub open spec fn hex4(v: u16, upper: bool) -> Seq<char> {
    seq![
        hex_char(v as int / 4096, upper),
        hex_char((v as int / 256) % 16, upper),
        hex_char((v as int / 16) % 16, upper),
        hex_char(v as int % 16, upper),
    ]
}

fn hex_char_exec(d: u16, upper: bool) -> (c: char)
    requires
        d < 16,
    ensures
        c == hex_char(d as int, upper),
{
    let b = d as u8;
    if b < 10 {
        (48u8 + b) as char
    } else if upper {
        (55u8 + b) as char
    } else {
        (87u8 + b) as char
    }
}

/// Appends `v` as four hexadecimal digits to `s`.
pub fn push_hex4(s: &mut String, v: u16, upper: bool)
    ensures
        final(s)@ == old(s)@ + hex4(v, upper),
{
    let ghost start = s@;
    push_char(s, hex_char_exec(v / 4096, upper));
    push_char(s, hex_char_exec((v / 256) % 16, upper));
    push_char(s, hex_char_exec((v / 16) % 16, upper));
    push_char(s, hex_char_exec(v % 16, upper));
    assert(s@ =~= start + hex4(v, upper));
}

/// Appends the characters of `t` to `s`.
pub fn push_str(s: &mut String, t: &str)
    ensures
        final(s)@ == old(s)@ + t@,
{
    s.append(t);
}


/// `s` cut to at most `max_len` characters by replacing its middle with `...`:
/// unchanged when it fits, `...` alone when `max_len` leaves no room, else the
/// first `(max_len - 3) / 2` and the last remaining characters around `...`.
pub open spec fn spec_truncate_middle(s: Seq<char>, max_len: nat) -> Seq<char> {
    if s.len() <= max_len {
        s
    } else if max_len <= 3 {
        "..."@
    } else {
        let prefix_len = (max_len - 3) / 2;
        let suffix_len = max_len - 3 - prefix_len;
        s.take(prefix_len as int) + "..."@ + s.skip(s.len() - suffix_len)
    }
}

/// Shortens `value` to at most `max_len` characters (but never below `...`),
/// keeping its start and end.
pub fn truncate_middle(value: &str, max_len: usize) -> (r: String)
    ensures
        r@ == spec_truncate_middle(value@, max_len as nat),
{
    let n = value.unicode_len();
    if n <= max_len {
        return value.to_owned();
    }
    if max_len <= 3 {
        return String::from_str("...");
    }
    let prefix_len = (max_len - 3) / 2;
    let suffix_len = max_len - 3 - prefix_len;
    let head = value.substring_char(0, prefix_len);
    let tail = value.substring_char(n - suffix_len, n);
    let mut r = head.to_owned();
    push_str(&mut r, "...");
    push_str(&mut r, tail);
    proof {
        assert(head@ =~= value@.take(prefix_len as int));
        assert(tail@ =~= value@.skip(n - suffix_len));
    }
    r
}

/// A preview of `value` keeping about `head` characters at its start and
/// `tail` at its end.
pub fn preview_head_tail(value: &str, head: usize, tail: usize) -> (r: String)
    requires
        head + tail + 3 <= usize::MAX,
    ensures
        r@ == spec_truncate_middle(value@, (head + tail + 3) as nat),
{
    truncate_middle(value, head + tail + 3)
}

/// Truncation keeps short text as it is and never yields more than `max_len`
/// characters, nor fewer than the three of `...` when it shortens.
pub proof fn lemma_truncate_middle_bounds(s: Seq<char>, max_len: nat)
    ensures
        s.len() <= max_len ==> spec_truncate_middle(s, max_len) == s,
        s.len() > max_len ==> spec_truncate_middle(s, max_len).len() == if max_len <= 3 { 3 } else { max_len },
{
    reveal_strlit("...");
}
} // verus!
