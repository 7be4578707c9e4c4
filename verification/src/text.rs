//! Character-sequence helpers: locating the CR-LF and space delimiters that
//! structure an HTTP request line, and the decimal rendering of a status code.

use vstd::prelude::*;

verus! {

/// Index of the first CR-LF pair at or after `i`, or `s.len()` when none occurs.
pub open spec fn crlf_from(s: Seq<char>, i: int) -> int
    decreases s.len() - i,
{
    if i < 0 || i + 1 >= s.len() {
        s.len() as int
    } else if s[i] == '\r' && s[i + 1] == '\n' {
        i
    } else {
        crlf_from(s, i + 1)
    }
}

pub proof fn lemma_crlf_from_bounds(s: Seq<char>, i: int)
    requires
        0 <= i <= s.len(),
    ensures
        i <= crlf_from(s, i) <= s.len(),
    decreases s.len() - i,
{
    if !(i + 1 >= s.len()) && !(s[i] == '\r' && s[i + 1] == '\n') {
        lemma_crlf_from_bounds(s, i + 1);
    }
}

/// A scan that found the first CR-LF at `k` agrees with `crlf_from`.
pub proof fn lemma_crlf_found(s: Seq<char>, i: int, k: int)
    requires
        0 <= i <= k,
        k + 1 < s.len(),
        forall|j: int| i <= j < k ==> !((#[trigger] s[j]) == '\r' && s[j + 1] == '\n'),
        s[k] == '\r' && s[k + 1] == '\n',
    ensures
        crlf_from(s, i) == k,
    decreases k - i,
{
    if i < k {
        lemma_crlf_found(s, i + 1, k);
    }
}

/// A scan that found no CR-LF pair agrees with `crlf_from`.
pub proof fn lemma_crlf_none(s: Seq<char>, i: int)
    requires
        0 <= i,
        forall|j: int| i <= j && j + 1 < s.len() ==> !((#[trigger] s[j]) == '\r' && s[j + 1] == '\n'),
    ensures
        crlf_from(s, i) == s.len(),
    decreases s.len() - i,
{
    if !(i + 1 >= s.len()) {
        lemma_crlf_none(s, i + 1);
    }
}

/// Index of the first space at or after `i`, or `s.len()` when none occurs.
pub open spec fn space_from(s: Seq<char>, i: int) -> int
    decreases s.len() - i,
{
    if i < 0 || i >= s.len() {
        s.len() as int
    } else if s[i] == ' ' {
        i
    } else {
        space_from(s, i + 1)
    }
}

pub proof fn lemma_space_from_bounds(s: Seq<char>, i: int)
    requires
        0 <= i <= s.len(),
    ensures
        i <= space_from(s, i) <= s.len(),
    decreases s.len() - i,
{
    if i < s.len() && s[i] != ' ' {
        lemma_space_from_bounds(s, i + 1);
    }
}

/// A scan that found the first space at `k` agrees with `space_from`.
pub proof fn lemma_space_found(s: Seq<char>, i: int, k: int)
    requires
        0 <= i <= k < s.len(),
        forall|j: int| i <= j < k ==> (#[trigger] s[j]) != ' ',
        s[k] == ' ',
    ensures
        space_from(s, i) == k,
    decreases k - i,
{
    if i < k {
        lemma_space_found(s, i + 1, k);
    }
}

/// A scan that found no space agrees with `space_from`.
pub proof fn lemma_space_none(s: Seq<char>, i: int)
    requires
        0 <= i,
        forall|j: int| i <= j < s.len() ==> (#[trigger] s[j]) != ' ',
    ensures
        space_from(s, i) == s.len(),
    decreases s.len() - i,
{
    if i < s.len() {
        lemma_space_none(s, i + 1);
    }
}

/// The character for a single decimal digit.
pub open spec fn digit_char(d: nat) -> char {
    if d == 0 {
        '0'
    } else if d == 1 {
        '1'
    } else if d == 2 {
        '2'
    } else if d == 3 {
        '3'
    } else if d == 4 {
        '4'
    } else if d == 5 {
        '5'
    } else if d == 6 {
        '6'
    } else if d == 7 {
        '7'
    } else if d == 8 {
        '8'
    } else {
        '9'
    }
}

/// The usual decimal rendering of `n`, most significant digit first,
/// with no leading zeros (a single `'0'` for zero itself).
pub open spec fn dec_digits(n: nat) -> Seq<char>
    decreases n,
{
    if n < 10 {
        seq![digit_char(n)]
    } else {
        dec_digits(n / 10).push(digit_char(n % 10))
    }
}

fn push_digit(d: u16, out: &mut String)
    requires
        d < 10,
    ensures
        final(out)@ == old(out)@ + seq![digit_char(d as nat)],
{
    if d == 0 {
        proof { reveal_strlit("0"); assert("0"@ =~= seq![digit_char(0)]); }
        out.append("0");
    } else if d == 1 {
        proof { reveal_strlit("1"); assert("1"@ =~= seq![digit_char(1)]); }
        out.append("1");
    } else if d == 2 {
        proof { reveal_strlit("2"); assert("2"@ =~= seq![digit_char(2)]); }
        out.append("2");
    } else if d == 3 {
        proof { reveal_strlit("3"); assert("3"@ =~= seq![digit_char(3)]); }
        out.append("3");
    } else if d == 4 {
        proof { reveal_strlit("4"); assert("4"@ =~= seq![digit_char(4)]); }
        out.append("4");
    } else if d == 5 {
        proof { reveal_strlit("5"); assert("5"@ =~= seq![digit_char(5)]); }
        out.append("5");
    } else if d == 6 {
        proof { reveal_strlit("6"); assert("6"@ =~= seq![digit_char(6)]); }
        out.append("6");
    } else if d == 7 {
        proof { reveal_strlit("7"); assert("7"@ =~= seq![digit_char(7)]); }
        out.append("7");
    } else if d == 8 {
        proof { reveal_strlit("8"); assert("8"@ =~= seq![digit_char(8)]); }
        out.append("8");
    } else {
        proof { reveal_strlit("9"); assert("9"@ =~= seq![digit_char(9)]); }
        out.append("9");
    }
}

/// Appends the decimal rendering of `n` to `out`.
pub fn push_decimal(n: u16, out: &mut String)
    ensures
        final(out)@ == old(out)@ + dec_digits(n as nat),
    decreases n,
{
    if n < 10 {
        push_digit(n, out);
    } else {
        push_decimal(n / 10, out);
        push_digit(n % 10, out);
        proof {
            assert(dec_digits(n as nat) =~= dec_digits((n / 10) as nat) + seq![
                digit_char((n % 10) as nat),
            ]);
        }
    }
}

} // verus!
