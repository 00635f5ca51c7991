//! Character-level specifications and executable helpers: decimal rendering
//! of integers, fixed-point rendering with three decimal digits, token
//! trimming and lowercasing, and the `plain_text` predicate that CSV
//! rendering relies on.

use vstd::prelude::*;

verus! {

/// The decimal digit character for a single digit value.
pub open spec fn digit_char(d: nat) -> char {
    if d == 0 {
        '0'
    } else if d == 1 {
        '1'
    } else if d == 2 {
        '2'
    } else if d == 3 {
        '3'
    } else if d == 4 {
        '4'
    } else if d == 5 {
        '5'
    } else if d == 6 {
        '6'
    } else if d == 7 {
        '7'
    } else if d == 8 {
        '8'
    } else {
        '9'
    }
}

/// The decimal rendering of a natural number, most significant digit first.
pub open spec fn dec_digits(n: nat) -> Seq<char>
    decreases n,
{
    if n < 10 {
        seq![digit_char(n)]
    } else {
        dec_digits(n / 10).push(digit_char(n % 10))
    }
}

/// Text that the CSV layer may write verbatim: free of the field delimiter,
/// the quote character and line breaks.
pub open spec fn plain_text(s: Seq<char>) -> bool {
    forall|i: int|
        0 <= i < s.len() ==> s[i] != ',' && s[i] != '"' && s[i] != '\n' && s[i] != '\r'
}

/// How many times a character occurs in a sequence.
pub open spec fn count_char(s: Seq<char>, c: char) -> nat
    decreases s.len(),
{
    if s.len() == 0 {
        0
    } else {
        (if s[0] == c {
            1nat
        } else {
            0nat
        }) + count_char(s.drop_first(), c)
    }
}

/// The length of a decimal rendering: one digit per decimal order.
pub proof fn lemma_dec_digits_len(n: nat)
    ensures
        1 <= dec_digits(n).len(),
        n < 10 ==> dec_digits(n).len() == 1,
        10 <= n < 100 ==> dec_digits(n).len() == 2,
        100 <= n < 1000 ==> dec_digits(n).len() == 3,
        n >= 10 ==> dec_digits(n).len() >= 2,
    decreases n,
{
    if n >= 10 {
        lemma_dec_digits_len(n / 10);
    }
}

/// Every character of a decimal rendering is a digit.
pub proof fn lemma_dec_digits_are_digits(n: nat)
    ensures
        forall|i: int|
            0 <= i < dec_digits(n).len() ==> '0' <= #[trigger] dec_digits(n)[i] <= '9',
    decreases n,
{
    if n < 10 {
        assert(dec_digits(n) =~= seq![digit_char(n)]);
        assert(dec_digits(n)[0] == digit_char(n));
    } else {
        lemma_dec_digits_are_digits(n / 10);
        let prefix = dec_digits(n / 10);
        assert(dec_digits(n) == prefix.push(digit_char(n % 10)));
        assert forall|i: int| 0 <= i < dec_digits(n).len() implies '0'
            <= #[trigger] dec_digits(n)[i] <= '9' by {
            if i < prefix.len() {
                assert(dec_digits(n)[i] == prefix[i]);
            } else {
                assert(dec_digits(n)[i] == digit_char(n % 10));
            }
        }
    }
}

/// Distinct numbers render to distinct digit strings.
pub proof fn lemma_dec_digits_injective(a: nat, b: nat)
    requires
        dec_digits(a) == dec_digits(b),
    ensures
        a == b,
    decreases a + b,
{
    lemma_dec_digits_len(a);
    lemma_dec_digits_len(b);
    if a < 10 && b < 10 {
        assert(dec_digits(a)[0] == digit_char(a));
        assert(dec_digits(b)[0] == digit_char(b));
        assert(digit_char(a) == digit_char(b));
    } else if a >= 10 && b >= 10 {
        let la = dec_digits(a).len() as int;
        assert(dec_digits(a)[la - 1] == digit_char(a % 10));
        assert(dec_digits(b)[la - 1] == digit_char(b % 10));
        assert(a % 10 == b % 10);
        assert(dec_digits(a).drop_last() =~= dec_digits(a / 10));
        assert(dec_digits(b).drop_last() =~= dec_digits(b / 10));
        lemma_dec_digits_injective(a / 10, b / 10);
    }
}

/// The digits of a number are plain text.
pub proof fn lemma_dec_digits_plain(n: nat)
    ensures
        plain_text(dec_digits(n)),
{
    lemma_dec_digits_are_digits(n);
}

/// The single digit characters, as string slices.
fn digit_str(d: usize) -> (r: &'static str)
    requires
        d < 10,
    ensures
        r@ =~= seq![digit_char(d as nat)],
{
    proof {
        reveal_strlit("0");
        reveal_strlit("1");
        reveal_strlit("2");
        reveal_strlit("3");
        reveal_strlit("4");
        reveal_strlit("5");
        reveal_strlit("6");
        reveal_strlit("7");
        reveal_strlit("8");
        reveal_strlit("9");
    }
    match d {
        0 => "0",
        1 => "1",
        2 => "2",
        3 => "3",
        4 => "4",
        5 => "5",
        6 => "6",
        7 => "7",
        8 => "8",
        _ => "9",
    }
}

/// The fractional part of a fixed-point rendering: three digit characters,
/// zero-padded on the left.
pub open spec fn pad3(f: nat) -> Seq<char> {
    if f < 10 {
        seq!['0', '0'] + dec_digits(f)
    } else if f < 100 {
        seq!['0'] + dec_digits(f)
    } else {
        dec_digits(f)
    }
}

/// The rendering of `m` thousandths as a decimal number with exactly three
/// digits after the point.
pub open spec fn fixed3(m: nat) -> Seq<char> {
    dec_digits(m / 1000) + seq!['.'] + pad3(m % 1000)
}

/// A fixed-point rendering always ends in a point followed by exactly three
/// digits, and the point appears nowhere else.
pub proof fn lemma_fixed3_shape(m: nat)
    ensures
        fixed3(m).len() >= 5,
        fixed3(m)[fixed3(m).len() - 4] == '.',
        forall|i: int|
            fixed3(m).len() - 3 <= i < fixed3(m).len() ==> '0' <= #[trigger] fixed3(m)[i]
                <= '9',
        forall|i: int|
            0 <= i < fixed3(m).len() - 4 ==> '0' <= #[trigger] fixed3(m)[i] <= '9',
{
    lemma_dec_digits_len(m / 1000);
    lemma_dec_digits_len((m % 1000) as nat);
    lemma_dec_digits_are_digits(m / 1000);
    lemma_dec_digits_are_digits((m % 1000) as nat);
    assert(pad3((m % 1000) as nat).len() == 3);
    let s = fixed3(m);
    let w = dec_digits(m / 1000);
    assert forall|i: int| 0 <= i < s.len() - 4 implies '0' <= #[trigger] s[i] <= '9' by {
        assert(s[i] == w[i]);
    }
    assert forall|i: int| s.len() - 3 <= i < s.len() implies '0' <= #[trigger] s[i]
        <= '9' by {
        let p = pad3((m % 1000) as nat);
        assert(s[i] == p[i - (s.len() - 3)]);
        if (m % 1000) < 10 {
            assert(p =~= seq!['0', '0'] + dec_digits((m % 1000) as nat));
        }
    }
}

/// Every character of a fixed-point rendering is a digit or the point, so
/// the rendering is plain text.
pub proof fn lemma_fixed3_plain(m: nat)
    ensures
        plain_text(fixed3(m)),
{
    lemma_fixed3_shape(m);
}

/// Renders `m` thousandths with exactly three digits after the point.
pub fn fixed3_string(m: usize) -> (r: String)
    ensures
        r@ == fixed3(m as nat),
{
    proof {
        reveal_strlit(".");
        reveal_strlit("00");
        reveal_strlit("0");
    }
    let whole = decimal_string(m / 1000);
    let frac = m % 1000;
    let mut s = whole.concat(".");
    if frac < 10 {
        s = s.concat("00");
    } else if frac < 100 {
        s = s.concat("0");
    }
    let fs = decimal_string(frac);
    let r = s.concat(fs.as_str());
    proof {
        assert("."@ =~= seq!['.']);
        assert("00"@ =~= seq!['0', '0']);
        assert("0"@ =~= seq!['0']);
        assert(r@ =~= fixed3(m as nat));
    }
    r
}

/// Renders a number in decimal, without sign or padding.
pub fn decimal_string(n: usize) -> (r: String)
    ensures
        r@ == dec_digits(n as nat),
    decreases n,
{
    if n < 10 {
        let s = String::from_str(digit_str(n));
        proof {
            assert(s@ =~= dec_digits(n as nat));
        }
        s
    } else {
        let prefix = decimal_string(n / 10);
        let r = prefix.concat(digit_str(n % 10));
        proof {
            assert(r@ =~= dec_digits(n as nat));
        }
        r
    }
}

/// Whitespace characters removed from the ends of a column-type token.
pub open spec fn is_space(c: char) -> bool {
    c == ' ' || c == '\t' || c == '\n' || c == '\r'
}

/// A token with its leading whitespace removed.
pub open spec fn trim_front(s: Seq<char>) -> Seq<char>
    decreases s.len(),
{
    if s.len() > 0 && is_space(s[0]) {
        trim_front(s.drop_first())
    } else {
        s
    }
}

/// A token with its trailing whitespace removed.
pub open spec fn trim_back(s: Seq<char>) -> Seq<char>
    decreases s.len(),
{
    if s.len() > 0 && is_space(s[s.len() - 1]) {
        trim_back(s.drop_last())
    } else {
        s
    }
}

/// A token with whitespace removed from both ends.
pub open spec fn trim_seq(s: Seq<char>) -> Seq<char> {
    trim_back(trim_front(s))
}

/// An upper-case letter mapped to its lower-case form; anything else kept.
pub open spec fn lower_char(c: char) -> char {
    match c {
        'A' => 'a',
        'B' => 'b',
        'C' => 'c',
        'D' => 'd',
        'E' => 'e',
        'F' => 'f',
        'G' => 'g',
        'H' => 'h',
        'I' => 'i',
        'J' => 'j',
        'K' => 'k',
        'L' => 'l',
        'M' => 'm',
        'N' => 'n',
        'O' => 'o',
        'P' => 'p',
        'Q' => 'q',
        'R' => 'r',
        'S' => 's',
        'T' => 't',
        'U' => 'u',
        'V' => 'v',
        'W' => 'w',
        'X' => 'x',
        'Y' => 'y',
        'Z' => 'z',
        _ => c,
    }
}

/// A sequence with each character lower-cased.
pub open spec fn lower_seq(s: Seq<char>) -> Seq<char> {
    Seq::new(s.len(), |i: int| lower_char(s[i]))
}

pub fn is_space_exec(c: char) -> (b: bool)
    ensures
        b == is_space(c),
{
    c == ' ' || c == '\t' || c == '\n' || c == '\r'
}

pub fn lower_char_exec(c: char) -> (r: char)
    ensures
        r == lower_char(c),
{
    match c {
        'A' => 'a',
        'B' => 'b',
        'C' => 'c',
        'D' => 'd',
        'E' => 'e',
        'F' => 'f',
        'G' => 'g',
        'H' => 'h',
        'I' => 'i',
        'J' => 'j',
        'K' => 'k',
        'L' => 'l',
        'M' => 'm',
        'N' => 'n',
        'O' => 'o',
        'P' => 'p',
        'Q' => 'q',
        'R' => 'r',
        'S' => 's',
        'T' => 't',
        'U' => 'u',
        'V' => 'v',
        'W' => 'w',
        'X' => 'x',
        'Y' => 'y',
        'Z' => 'z',
        _ => c,
    }
}

/// If everything before `i` is whitespace and `i` is the end or a
/// non-whitespace character, then trimming the front keeps exactly the
/// suffix from `i` on.
pub proof fn lemma_trim_front_range(s: Seq<char>, i: int)
    requires
        0 <= i <= s.len(),
        forall|j: int| 0 <= j < i ==> is_space(#[trigger] s[j]),
        i == s.len() || !is_space(s[i]),
    ensures
        trim_front(s) == s.subrange(i, s.len() as int),
    decreases i,
{
    if i == 0 {
        assert(s.subrange(0, s.len() as int) =~= s);
    } else {
        let t = s.drop_first();
        assert(forall|j: int| 0 <= j < i - 1 ==> is_space(#[trigger] t[j]));
        lemma_trim_front_range(t, i - 1);
        assert(t.subrange(i - 1, t.len() as int) =~= s.subrange(i, s.len() as int));
    }
}

/// If everything from `e` on is whitespace and `e` is the start or follows a
/// non-whitespace character, then trimming the back keeps exactly the prefix
/// up to `e`.
pub proof fn lemma_trim_back_range(s: Seq<char>, e: int)
    requires
        0 <= e <= s.len(),
        forall|j: int| e <= j < s.len() ==> is_space(#[trigger] s[j]),
        e == 0 || !is_space(s[e - 1]),
    ensures
        trim_back(s) == s.subrange(0, e),
    decreases s.len(),
{
    if e == s.len() {
        assert(s.subrange(0, e) =~= s);
    } else {
        let t = s.drop_last();
        assert(is_space(s[s.len() - 1]));
        lemma_trim_back_range(t, e);
        assert(t.subrange(0, e) =~= s.subrange(0, e));
    }
}

/// Appending sequences adds their character counts.
pub proof fn lemma_count_char_concat(a: Seq<char>, b: Seq<char>, c: char)
    ensures
        count_char(a + b, c) == count_char(a, c) + count_char(b, c),
    decreases a.len(),
{
    if a.len() == 0 {
        assert(a + b =~= b);
    } else {
        assert((a + b).drop_first() =~= a.drop_first() + b);
        lemma_count_char_concat(a.drop_first(), b, c);
    }
}

/// Plain text contains no field separators and no line breaks.
pub proof fn lemma_plain_count(s: Seq<char>)
    requires
        plain_text(s),
    ensures
        count_char(s, ',') == 0,
        count_char(s, '\n') == 0,
    decreases s.len(),
{
    if s.len() > 0 {
        assert(plain_text(s.drop_first()));
        lemma_plain_count(s.drop_first());
    }
}

} // verus!
