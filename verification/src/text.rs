//! Small verified text utilities shared by the command parser and the
//! message renderers: ASCII case folding, token splitting, and decimal
//! formatting/parsing.

use vstd::prelude::*;

verus! {

/// ASCII case folding of one character: `'A'..='Z'` map to `'a'..='z'`,
/// every other character is unchanged.
pub open spec fn lower_char(c: char) -> char {
    if 65 <= c as u32 && c as u32 <= 90 {
        ((c as u32 + 32) as char)
    } else {
        c
    }
}

/// ASCII case folding of a whole string.
pub open spec fn to_lower(s: Seq<char>) -> Seq<char> {
    Seq::new(s.len(), |i: int| lower_char(s[i]))
}

/// Index of the first space at or after position `from`, or `s.len()` if
/// there is none.
pub open spec fn first_space_at(s: Seq<char>, from: int) -> int
    decreases s.len() - from,
{
    if from < 0 || from >= s.len() {
        s.len() as int
    } else if s[from] == ' ' {
        from
    } else {
        first_space_at(s, from + 1)
    }
}

pub proof fn lemma_first_space_at_props(s: Seq<char>, from: int)
    requires
        0 <= from <= s.len(),
    ensures
        from <= first_space_at(s, from) <= s.len(),
        first_space_at(s, from) < s.len() ==> s[first_space_at(s, from)] == ' ',
        forall|j: int| from <= j < first_space_at(s, from) ==> s[j] != ' ',
    decreases s.len() - from,
{
    if from < s.len() && s[from] != ' ' {
        lemma_first_space_at_props(s, from + 1);
    }
}

/// If no space occurs in `[from, k)`, the first space from `from` is the
/// first space from `k`.
pub proof fn lemma_first_space_at_skip(s: Seq<char>, from: int, k: int)
    requires
        0 <= from <= k <= s.len(),
        forall|j: int| from <= j < k ==> s[j] != ' ',
    ensures
        first_space_at(s, from) == first_space_at(s, k),
    decreases k - from,
{
    if from < k {
        lemma_first_space_at_skip(s, from + 1, k);
    }
}

/// The folded value of a character, as a code point.
fn lower_u32(c: char) -> (r: u32)
    ensures
        r == lower_char(c) as u32,
{
    let u = c as u32;
    if 65 <= u && u <= 90 {
        u + 32
    } else {
        u
    }
}

/// Whether two strings are equal up to ASCII case.
pub fn eq_folded(a: &str, b: &str) -> (r: bool)
    ensures
        r == (to_lower(a@) == to_lower(b@)),
{
    let na = a.unicode_len();
    let nb = b.unicode_len();
    if na != nb {
        proof {
            assert(to_lower(a@).len() != to_lower(b@).len());
        }
        return false;
    }
    let mut i: usize = 0;
    while i < na
        invariant
            0 <= i <= na,
            na as nat == a@.len(),
            na as nat == b@.len(),
            forall|j: int| 0 <= j < i ==> lower_char(a@[j]) == lower_char(b@[j]),
        decreases na - i,
    {
        let ca = lower_u32(a.get_char(i));
        let cb = lower_u32(b.get_char(i));
        if ca != cb {
            proof {
                assert(lower_char(a@[i as int]) != lower_char(b@[i as int]));
                assert(to_lower(a@)[i as int] != to_lower(b@)[i as int]);
            }
            return false;
        }
        i += 1;
    }
    proof {
        assert(to_lower(a@) =~= to_lower(b@));
    }
    true
}

/// Index of the first space at or after `from`, or the character length of
/// `s` if there is none.
pub fn first_space_from(s: &str, from: usize) -> (r: usize)
    requires
        from as int <= s@.len(),
    ensures
        r as int == first_space_at(s@, from as int),
        s@.len() <= usize::MAX,
{
    let n = s.unicode_len();
    let mut i = from;
    while i < n
        invariant
            from <= i <= n,
            n as nat == s@.len(),
            forall|j: int| from <= j < i ==> s@[j] != ' ',
        decreases n - i,
    {
        if s.get_char(i) == ' ' {
            proof {
                lemma_first_space_at_skip(s@, from as int, i as int);
            }
            return i;
        }
        i += 1;
    }
    proof {
        lemma_first_space_at_skip(s@, from as int, n as int);
    }
    n
}

/// A command is any text with the leading prefix `/`.
pub open spec fn is_command(t: Seq<char>) -> bool {
    t.len() > 0 && t[0] == '/'
}

/// The first token after the prefix, as written.
pub open spec fn command_token(t: Seq<char>) -> Seq<char> {
    t.subrange(1, first_space_at(t, 1))
}

/// Whatever follows the first space after the token, as one argument
/// string; empty when there is no space.
pub open spec fn command_arg(t: Seq<char>) -> Seq<char> {
    if first_space_at(t, 1) < t.len() {
        t.subrange(first_space_at(t, 1) + 1, t.len() as int)
    } else {
        Seq::<char>::empty()
    }
}

/// Whether the command token of `t` is `name`, compared case-folded.
pub open spec fn cmd_is(t: Seq<char>, name: Seq<char>) -> bool {
    to_lower(command_token(t)) == to_lower(name)
}

/// Whether `s` begins with the command prefix.
pub fn text_is_command(s: &str) -> (r: bool)
    ensures
        r == is_command(s@),
{
    let n = s.unicode_len();
    if n == 0 {
        false
    } else {
        s.get_char(0) == '/'
    }
}

/// Splits a command into its token and its argument string.
pub fn split_command(s: &str) -> (r: (&str, &str))
    requires
        is_command(s@),
    ensures
        r.0@ == command_token(s@),
        r.1@ == command_arg(s@),
{
    let n = s.unicode_len();
    let fs = first_space_from(s, 1);
    proof {
        lemma_first_space_at_props(s@, 1);
    }
    let name = s.substring_char(1, fs);
    let arg = if fs < n {
        s.substring_char(fs + 1, n)
    } else {
        ""
    };
    proof {
        if fs >= n {
            reveal_strlit("");
            assert(arg@ =~= Seq::<char>::empty());
        }
    }
    (name, arg)
}

/// The character for a single decimal digit.
pub open spec fn digit_char(d: nat) -> char {
    ((48 + d) as char)
}

/// The decimal representation of `n`, most significant digit first, with no
/// leading zeros (`0` is rendered as `"0"`).
pub open spec fn dec_str(n: nat) -> Seq<char>
    decreases n,
{
    if n < 10 {
        seq![digit_char(n)]
    } else {
        dec_str(n / 10) + seq![digit_char(n % 10)]
    }
}

fn digit_str(d: u64) -> (r: &'static str)
    requires
        d < 10,
    ensures
        r@ == seq![digit_char(d as nat)],
{
    proof {
        reveal_strlit("0");
        reveal_strlit("1");
        reveal_strlit("2");
        reveal_strlit("3");
        reveal_strlit("4");
        reveal_strlit("5");
        reveal_strlit("6");
        reveal_strlit("7");
        reveal_strlit("8");
        reveal_strlit("9");
    }
    let r = match d {
        0 => "0",
        1 => "1",
        2 => "2",
        3 => "3",
        4 => "4",
        5 => "5",
        6 => "6",
        7 => "7",
        8 => "8",
        _ => "9",
    };
    proof {
        assert(r@ =~= seq![digit_char(d as nat)]);
    }
    r
}

/// Renders `n` in decimal.
pub fn u64_to_string(n: u64) -> (r: String)
    ensures
        r@ == dec_str(n as nat),
    decreases n,
{
    if n < 10 {
        String::from_str(digit_str(n))
    } else {
        let mut r = u64_to_string(n / 10);
        r.append(digit_str(n % 10));
        proof {
            assert(r@ =~= dec_str(n as nat));
        }
        r
    }
}

/// The decimal representation of `n`, zero-padded to at least two digits.
pub open spec fn dec_str_pad2(n: nat) -> Seq<char> {
    if n < 10 {
        seq![digit_char(0)] + dec_str(n)
    } else {
        dec_str(n)
    }
}

/// Renders `n` in decimal, zero-padded to at least two digits.
pub fn u64_to_string_pad2(n: u64) -> (r: String)
    ensures
        r@ == dec_str_pad2(n as nat),
{
    if n < 10 {
        let mut r = String::from_str(digit_str(0));
        let d = u64_to_string(n);
        r.append(d.as_str());
        proof {
            assert(r@ =~= dec_str_pad2(n as nat));
        }
        r
    } else {
        u64_to_string(n)
    }
}

/// The decimal representation of `n`, zero-padded to at least four digits.
pub open spec fn dec_str_pad4(n: nat) -> Seq<char> {
    if n < 10 {
        seq![digit_char(0), digit_char(0), digit_char(0)] + dec_str(n)
    } else if n < 100 {
        seq![digit_char(0), digit_char(0)] + dec_str(n)
    } else if n < 1000 {
        seq![digit_char(0)] + dec_str(n)
    } else {
        dec_str(n)
    }
}

/// Renders `n` in decimal, zero-padded to at least four digits.
pub fn u64_to_string_pad4(n: u64) -> (r: String)
    ensures
        r@ == dec_str_pad4(n as nat),
{
    let mut r = String::new();
    if n < 10 {
        r.append(digit_str(0));
        r.append(digit_str(0));
        r.append(digit_str(0));
    } else if n < 100 {
        r.append(digit_str(0));
        r.append(digit_str(0));
    } else if n < 1000 {
        r.append(digit_str(0));
    }
    let d = u64_to_string(n);
    r.append(d.as_str());
    proof {
        assert(r@ =~= dec_str_pad4(n as nat));
    }
    r
}

/// Whether `c` is a decimal digit.
pub open spec fn is_digit(c: char) -> bool {
    48 <= c as u32 <= 57
}

/// Whether every character of `s` is a decimal digit.
pub open spec fn all_digits(s: Seq<char>) -> bool {
    forall|i: int| 0 <= i < s.len() ==> is_digit(s[i])
}

/// The numeric value of a digit string, read most significant digit first.
pub open spec fn dec_val(s: Seq<char>) -> nat
    decreases s.len(),
{
    if s.len() == 0 {
        0
    } else {
        (dec_val(s.drop_last()) * 10 + (s.last() as u32 - 48)) as nat
    }
}

/// Extending a digit string cannot decrease its value.
pub proof fn lemma_dec_val_prefix(s: Seq<char>, k: int)
    requires
        0 <= k <= s.len(),
        all_digits(s),
    ensures
        dec_val(s.take(k)) <= dec_val(s),
    decreases s.len() - k,
{
    if k < s.len() {
        lemma_dec_val_prefix(s, k + 1);
        assert(s.take(k + 1).drop_last() =~= s.take(k));
        assert(dec_val(s.take(k + 1)) == dec_val(s.take(k)) * 10 + (s.take(k + 1).last() as u32
            - 48));
    } else {
        assert(s.take(k) =~= s);
    }
}

/// Parses a string of decimal digits as a `u8`. Returns `None` on an empty
/// string, on any non-digit character, and on values above 255.
pub fn parse_u8(s: &str) -> (r: Option<u8>)
    ensures
        r is Some <==> (s@.len() > 0 && all_digits(s@) && dec_val(s@) <= 255),
        r matches Some(v) ==> v as nat == dec_val(s@),
{
    let n = s.unicode_len();
    if n == 0 {
        return None;
    }
    let mut acc: u32 = 0;
    let mut i: usize = 0;
    while i < n
        invariant
            0 <= i <= n,
            n as nat == s@.len(),
            acc <= 255,
            acc as nat == dec_val(s@.take(i as int)),
            all_digits(s@.take(i as int)),
        decreases n - i,
    {
        let c = s.get_char(i);
        let u = c as u32;
        if u < 48 || u > 57 {
            proof {
                assert(!is_digit(s@[i as int]));
            }
            return None;
        }
        acc = acc * 10 + (u - 48);
        proof {
            assert(s@.take(i as int + 1).drop_last() =~= s@.take(i as int));
            assert(forall|j: int|
                0 <= j < i as int + 1 ==> is_digit(#[trigger] s@.take(i as int + 1)[j]));
        }
        if acc > 255 {
            proof {
                if all_digits(s@) {
                    lemma_dec_val_prefix(s@, i as int + 1);
                }
            }
            return None;
        }
        i += 1;
    }
    proof {
        assert(s@.take(n as int) =~= s@);
    }
    Some(acc as u8)
}

} // verus!
