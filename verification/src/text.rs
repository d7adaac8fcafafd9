//! Character and string helpers shared by the parsers: ASCII case folding
//! and plain string comparison, stated over `Seq<char>` views.

use vstd::prelude::*;
use vstd::string::StrSliceExecFns;
use vstd::string::StringExecFns;

verus! {

/// ASCII case folding of a single character: `A`..`Z` map to `a`..`z`,
/// every other character is left as it is.
pub open spec fn spec_fold_char(c: char) -> char {
    if 65 <= c as u32 && c as u32 <= 90 {
        ((c as u32) + 32) as char
    } else {
        c
    }
}

/// ASCII case folding of a whole string.
pub open spec fn spec_fold(s: Seq<char>) -> Seq<char> {
    s.map_values(|c: char| spec_fold_char(c))
}

/// Compares one character case-insensitively against an expected character.
fn fold_char_eq(a: char, b: char) -> (r: bool)
    ensures
        r == (spec_fold_char(a) == b),
{
    let ua = a as u32;
    let ub = b as u32;
    let folded: u32 = if 65 <= ua && ua <= 90 {
        ua + 32
    } else {
        ua
    };
    proof {
        assert(spec_fold_char(a) as u32 == folded);
    }
    folded == ub
}

/// Exact string equality over the character views.
pub fn str_eq(a: &str, b: &str) -> (r: bool)
    ensures
        r == (a@ == b@),
{
    let na = a.unicode_len();
    let nb = b.unicode_len();
    if na != nb {
        proof {
            assert(a@.len() != b@.len());
        }
        return false;
    }
    let mut i: usize = 0;
    while i < na
        invariant
            i <= na,
            na == a@.len(),
            na == b@.len(),
            forall|j: int| 0 <= j < i ==> a@[j] == b@[j],
        decreases na - i,
    {
        if a.get_char(i) != b.get_char(i) {
            return false;
        }
        i += 1;
    }
    proof {
        assert(a@ =~= b@);
    }
    true
}

/// Case-insensitive comparison of `a` against an expected string `b`:
/// true exactly when folding `a` yields `b`.
pub fn str_fold_eq(a: &str, b: &str) -> (r: bool)
    ensures
        r == (spec_fold(a@) == b@),
{
    let na = a.unicode_len();
    let nb = b.unicode_len();
    if na != nb {
        proof {
            assert(spec_fold(a@).len() != b@.len());
        }
        return false;
    }
    let mut i: usize = 0;
    while i < na
        invariant
            i <= na,
            na == a@.len(),
            na == b@.len(),
            forall|j: int| 0 <= j < i ==> spec_fold_char(a@[j]) == b@[j],
        decreases na - i,
    {
        if !fold_char_eq(a.get_char(i), b.get_char(i)) {
            proof {
                assert(spec_fold(a@)[i as int] != b@[i as int]);
            }
            return false;
        }
        i += 1;
    }
    proof {
        assert forall|j: int| 0 <= j < spec_fold(a@).len() implies spec_fold(a@)[j] == b@[j] by {
            assert(spec_fold_char(a@[j]) == b@[j]);
        }
        assert(spec_fold(a@) =~= b@);
    }
    true
}

/// Relies on String::push: it appends the one character to the string.
pub assume_specification[ String::push ](s: &mut String, c: char)
    ensures
        final (s)@ == old(s)@.push(c),
;

/// The digit character of a value below ten.
pub open spec fn digit_char(n: nat) -> char {
    (48 + n) as char
}

/// The decimal rendering of `n`, most significant digit first, with no
/// leading zeros (a lone zero for zero itself).
pub open spec fn spec_digits_of(n: nat) -> Seq<char>
    decreases n,
{
    if n < 10 {
        seq![digit_char(n)]
    } else {
        spec_digits_of(n / 10).push(digit_char(n % 10))
    }
}

/// The decimal rendering of a signed value: a minus sign before the digits
/// of its magnitude when it is negative.
pub open spec fn spec_int_digits(v: int) -> Seq<char> {
    if v < 0 {
        seq!['-'] + spec_digits_of((-v) as nat)
    } else {
        spec_digits_of(v as nat)
    }
}

/// Appending a digit to a sequence mirrors prepending it to the reversal.
proof fn lemma_reverse_push(s: Seq<char>, c: char)
    ensures
        s.push(c).reverse() =~= seq![c] + s.reverse(),
{
}

/// The decimal digit characters of `n`, most significant first.
#[verifier::loop_isolation(false)]
pub fn digit_chars(n: u64) -> (r: Vec<char>)
    ensures
        r@ == spec_digits_of(n as nat),
{
    if n == 0 {
        let mut out: Vec<char> = Vec::new();
        out.push('0');
        proof {
            assert(out@ =~= spec_digits_of(0));
        }
        return out;
    }
    let mut digits: Vec<char> = Vec::new();
    let mut cur: u64 = n;
    while cur > 0
        invariant
            (cur == n && digits@.len() == 0) || (spec_digits_of(n as nat) == if cur > 0 {
                spec_digits_of(cur as nat) + digits@.reverse()
            } else {
                digits@.reverse()
            }),
            cur == 0 ==> digits@.len() > 0,
        decreases cur,
    {
        let ghost before = digits@;
        let d: u8 = (cur % 10) as u8;
        let c: char = (48 + d as u32) as u8 as char;
        proof {
            assert(c == digit_char((cur % 10) as nat));
            lemma_reverse_push(before, c);
        }
        digits.push(c);
        let next = cur / 10;
        proof {
            if cur >= 10 {
                assert(spec_digits_of(cur as nat) == spec_digits_of((cur / 10) as nat).push(
                    digit_char((cur % 10) as nat),
                ));
                assert(spec_digits_of((cur / 10) as nat).push(digit_char((cur % 10) as nat))
                    + before.reverse() =~= spec_digits_of((cur / 10) as nat) + (seq![c]
                    + before.reverse()));
            } else {
                assert(spec_digits_of(cur as nat) == seq![digit_char(cur as nat)]);
                assert(seq![digit_char(cur as nat)] + before.reverse() =~= seq![c]
                    + before.reverse());
            }
        }
        cur = next;
    }
    let mut out: Vec<char> = Vec::new();
    let n_digits = digits.len();
    let mut j: usize = n_digits;
    while j > 0
        invariant
            j <= n_digits,
            n_digits == digits@.len(),
            out@ =~= digits@.reverse().take(n_digits - j),
        decreases j,
    {
        j -= 1;
        out.push(digits[j]);
        proof {
            assert(digits@.reverse()[n_digits - j - 1] == digits@[j as int]);
            assert(out@ =~= digits@.reverse().take(n_digits - j));
        }
    }
    proof {
        assert(digits@.reverse().take(n_digits as int) =~= digits@.reverse());
    }
    out
}

/// Renders `n` in decimal.
#[verifier::loop_isolation(false)]
pub fn u64_to_string(n: u64) -> (r: String)
    ensures
        r@ == spec_digits_of(n as nat),
{
    let digits = digit_chars(n);
    let mut out = String::new();
    let len = digits.len();
    let mut i: usize = 0;
    while i < len
        invariant
            i <= len,
            out@ =~= digits@.take(i as int),
        decreases len - i,
    {
        out.push(digits[i]);
        i += 1;
        proof {
            assert(out@ =~= digits@.take(i as int));
        }
    }
    proof {
        assert(digits@.take(len as int) =~= digits@);
    }
    out
}

/// Renders a signed value in decimal.
pub fn i64_to_string(v: i64) -> (r: String)
    ensures
        r@ == spec_int_digits(v as int),
{
    if v < 0 {
        let magnitude: u64 = (-(v as i128)) as u64;
        let mut out = String::from_str("-");
        let digits = u64_to_string(magnitude);
        out.append(digits.as_str());
        proof {
            reveal_strlit("-");
            assert(out@ =~= spec_int_digits(v as int));
        }
        out
    } else {
        u64_to_string(v as u64)
    }
}

/// The hex digit of a value below sixteen, lowercase.
pub open spec fn spec_hex_char(d: nat) -> char {
    if d < 10 {
        (48 + d) as char
    } else {
        (87 + d) as char
    }
}

/// The hex digit of a value below sixteen, lowercase.
pub fn hex_char_of(d: u32) -> (r: char)
    requires
        d < 16,
    ensures
        r == spec_hex_char(d as nat),
{
    if d < 10 {
        (48 + d) as u8 as char
    } else {
        (87 + d) as u8 as char
    }
}

/// How one character stands inside a JSON string literal: the quote and
/// the backslash escaped, a control character as a `\u00..` sequence,
/// every other character as itself.
pub open spec fn spec_escape_char(c: char) -> Seq<char> {
    if c == '"' {
        seq!['\\', '"']
    } else if c == '\\' {
        seq!['\\', '\\']
    } else if (c as u32) < 32 {
        seq![
            '\\',
            'u',
            '0',
            '0',
            spec_hex_char(((c as u32) / 16) as nat),
            spec_hex_char(((c as u32) % 16) as nat),
        ]
    } else {
        seq![c]
    }
}

/// How a whole text stands inside a JSON string literal.
pub open spec fn spec_escape(s: Seq<char>) -> Seq<char>
    decreases s.len(),
{
    if s.len() == 0 {
        Seq::<char>::empty()
    } else {
        spec_escape_char(s[0]) + spec_escape(s.drop_first())
    }
}

/// Escaping one more character appends its escape sequence.
proof fn lemma_escape_push(s: Seq<char>, c: char)
    ensures
        spec_escape(s.push(c)) == spec_escape(s) + spec_escape_char(c),
    decreases s.len(),
{
    if s.len() == 0 {
        assert(s.push(c)[0] == c);
        assert(s.push(c).drop_first() =~= Seq::<char>::empty());
        assert(spec_escape(s.push(c)) == spec_escape_char(c) + spec_escape(
            s.push(c).drop_first(),
        ));
        assert(spec_escape_char(c) + Seq::<char>::empty() =~= spec_escape_char(c));
        assert(Seq::<char>::empty() + spec_escape_char(c) =~= spec_escape_char(c));
    } else {
        assert(s.push(c)[0] == s[0]);
        assert(s.push(c).drop_first() =~= s.drop_first().push(c));
        lemma_escape_push(s.drop_first(), c);
        assert(spec_escape_char(s[0]) + (spec_escape(s.drop_first()) + spec_escape_char(c))
            =~= (spec_escape_char(s[0]) + spec_escape(s.drop_first())) + spec_escape_char(c));
    }
}

/// Appends `s` to `out` in its JSON string-literal form.
#[verifier::loop_isolation(false)]
pub fn append_escaped(out: &mut String, s: &str)
    ensures
        final (out)@ == old(out)@ + spec_escape(s@),
{
    let n = s.unicode_len();
    let ghost base = out@;
    proof {
        assert(s@.take(0) =~= Seq::<char>::empty());
        assert(base + spec_escape(s@.take(0)) =~= base);
    }
    let mut i: usize = 0;
    while i < n
        invariant
            i <= n,
            out@ == base + spec_escape(s@.take(i as int)),
        decreases n - i,
    {
        let c = s.get_char(i);
        proof {
            assert(s@.take(i + 1) =~= s@.take(i as int).push(s@[i as int]));
            lemma_escape_push(s@.take(i as int), s@[i as int]);
        }
        let u = c as u32;
        if c == '"' {
            out.push('\\');
            out.push('"');
        } else if c == '\\' {
            out.push('\\');
            out.push('\\');
        } else if u < 32 {
            out.push('\\');
            out.push('u');
            out.push('0');
            out.push('0');
            out.push(hex_char_of(u / 16));
            out.push(hex_char_of(u % 16));
        } else {
            out.push(c);
        }
        proof {
            assert(out@ =~= base + spec_escape(s@.take(i + 1)));
        }
        i += 1;
    }
    proof {
        assert(s@.take(n as int) =~= s@);
    }
}

} // verus!
