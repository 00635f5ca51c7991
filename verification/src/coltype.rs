//! The closed set of column types, the lenient token parser that maps a
//! comma-separated list of type tokens to column types, and the derived
//! header names.

use vstd::prelude::*;

use crate::text::{
    dec_digits, is_space, is_space_exec, lower_char, lower_char_exec, lower_seq, plain_text,
    trim_front, trim_seq, lemma_trim_back_range, lemma_trim_front_range,
    lemma_dec_digits_plain, lemma_dec_digits_len, decimal_string,
};

verus! {

/// A supported column type. Ordering and duplicates follow the user-supplied
/// column list.
#[derive(Clone, Copy, Debug, PartialEq, Eq, Structural)]
pub enum ColType {
    Int,
    Float,
    Word,
    Name,
    Phone,
}

/// The token that names a column type in the column list and in headers.
pub open spec fn type_label(t: ColType) -> Seq<char> {
    match t {
        ColType::Int => "int"@,
        ColType::Float => "float"@,
        ColType::Word => "word"@,
        ColType::Name => "name"@,
        ColType::Phone => "phone"@,
    }
}

/// What a single token resolves to: trimmed and lower-cased, then matched
/// against the five known names; anything else falls back to `Word`.
pub open spec fn resolve_spec(token: Seq<char>) -> ColType {
    let u = lower_seq(trim_seq(token));
    if u == "int"@ {
        ColType::Int
    } else if u == "float"@ {
        ColType::Float
    } else if u == "word"@ {
        ColType::Word
    } else if u == "name"@ {
        ColType::Name
    } else if u == "phone"@ {
        ColType::Phone
    } else {
        ColType::Word
    }
}

/// Any token other than `int`, `float`, `name` and `phone` resolves to
/// `Word`: unrecognized tokens are accepted silently, never rejected, and
/// `word` itself resolves the same way.
pub proof fn lemma_unknown_token_is_word(token: Seq<char>)
    requires
        lower_seq(trim_seq(token)) != "int"@,
        lower_seq(trim_seq(token)) != "float"@,
        lower_seq(trim_seq(token)) != "name"@,
        lower_seq(trim_seq(token)) != "phone"@,
    ensures
        resolve_spec(token) == ColType::Word,
{
}

/// The position of the first comma, or -1 if there is none.
pub open spec fn first_comma(s: Seq<char>) -> int
    decreases s.len(),
{
    if s.len() == 0 {
        -1
    } else if s[0] == ',' {
        0
    } else if first_comma(s.drop_first()) == -1 {
        -1
    } else {
        first_comma(s.drop_first()) + 1
    }
}

/// The comma-separated tokens of a column list. Splitting any string yields
/// at least one token; an empty string yields one empty token.
pub open spec fn split_commas(s: Seq<char>) -> Seq<Seq<char>>
    decreases s.len(),
{
    let p = first_comma(s);
    if 0 <= p < s.len() {
        seq![s.subrange(0, p)] + split_commas(s.subrange(p + 1, s.len() as int))
    } else {
        seq![s]
    }
}

/// What a column list parses to: each token resolved in order.
pub open spec fn parse_spec(s: Seq<char>) -> Seq<ColType> {
    split_commas(s).map_values(|t: Seq<char>| resolve_spec(t))
}

/// Locates the first comma from the positions of the commas themselves.
pub proof fn lemma_first_comma_range(s: Seq<char>, p: int)
    requires
        0 <= p <= s.len(),
        forall|j: int| 0 <= j < p ==> s[j] != ',',
        p < s.len() ==> s[p] == ',',
    ensures
        first_comma(s) == if p < s.len() {
            p
        } else {
            -1
        },
    decreases s.len(),
{
    if s.len() > 0 && s[0] != ',' {
        let t = s.drop_first();
        lemma_first_comma_range(t, p - 1);
    }
}

/// Whether the token at `s[from..to]`, lower-cased, equals `lit`.
fn eq_lower_range(s: &str, from: usize, to: usize, lit: &str) -> (b: bool)
    requires
        from <= to <= s@.len(),
    ensures
        b == (lower_seq(s@.subrange(from as int, to as int)) == lit@),
{
    let ghost tok = s@.subrange(from as int, to as int);
    let m = to - from;
    if lit.unicode_len() != m {
        proof {
            assert(lower_seq(tok).len() == tok.len());
        }
        return false;
    }
    let mut i: usize = 0;
    while i < m
        invariant
            from <= to <= s@.len(),
            0 <= i <= m,
            m == to - from,
            m == lit@.len(),
            tok == s@.subrange(from as int, to as int),
            forall|j: int| 0 <= j < i ==> lower_char(#[trigger] tok[j]) == lit@[j],
        decreases m - i,
    {
        let c = lower_char_exec(s.get_char(from + i));
        let l = lit.get_char(i);
        if c != l {
            proof {
                assert(lower_seq(tok)[i as int] == lower_char(tok[i as int]));
            }
            return false;
        }
        i += 1;
    }
    proof {
        assert(lower_seq(tok) =~= lit@);
    }
    true
}

/// Resolves the token at `s[from..to]`: trims whitespace, lower-cases, and
/// matches against the five known type names, with `Word` as the fallback.
fn resolve_token(s: &str, from: usize, to: usize) -> (r: ColType)
    requires
        from <= to <= s@.len(),
    ensures
        r == resolve_spec(s@.subrange(from as int, to as int)),
{
    let ghost tok = s@.subrange(from as int, to as int);
    let mut a = from;
    while a < to && is_space_exec(s.get_char(a))
        invariant
            from <= a <= to <= s@.len(),
            forall|j: int| from <= j < a ==> is_space(#[trigger] s@[j]),
        decreases to - a,
    {
        a += 1;
    }
    let mut b = to;
    while b > a && is_space_exec(s.get_char(b - 1))
        invariant
            from <= a <= b <= to <= s@.len(),
            forall|j: int| b <= j < to ==> is_space(#[trigger] s@[j]),
        decreases b,
    {
        b -= 1;
    }
    proof {
        assert forall|j: int| 0 <= j < a - from implies is_space(#[trigger] tok[j]) by {
            assert(tok[j] == s@[from + j]);
        }
        if a < to {
            assert(tok[a - from] == s@[a as int]);
        }
        lemma_trim_front_range(tok, a - from);
        let tf = s@.subrange(a as int, to as int);
        assert(trim_front(tok) =~= tf);
        assert forall|j: int| b - a <= j < tf.len() implies is_space(#[trigger] tf[j]) by {
            assert(tf[j] == s@[a + j]);
        }
        if b > a {
            assert(tf[b - a - 1] == s@[b - 1]);
        }
        lemma_trim_back_range(tf, b - a);
        assert(trim_seq(tok) =~= s@.subrange(a as int, b as int));
    }
    if eq_lower_range(s, a, b, "int") {
        ColType::Int
    } else if eq_lower_range(s, a, b, "float") {
        ColType::Float
    } else if eq_lower_range(s, a, b, "word") {
        ColType::Word
    } else if eq_lower_range(s, a, b, "name") {
        ColType::Name
    } else if eq_lower_range(s, a, b, "phone") {
        ColType::Phone
    } else {
        ColType::Word
    }
}

/// Finds the first comma at or after `from`, or the end of the string.
fn find_comma(s: &str, from: usize) -> (p: usize)
    requires
        from <= s@.len(),
    ensures
        from <= p <= s@.len(),
        forall|j: int| from <= j < p ==> s@[j] != ',',
        p < s@.len() ==> s@[p as int] == ',',
{
    let n = s.unicode_len();
    let mut p = from;
    while p < n
        invariant
            from <= p <= n == s@.len(),
            forall|j: int| from <= j < p ==> s@[j] != ',',
        decreases n - p,
    {
        if s.get_char(p) == ',' {
            return p;
        }
        p += 1;
    }
    p
}

/// Parses a comma-separated list of type tokens into column types, in
/// order, with duplicates kept. Tokens are trimmed and lower-cased;
/// unrecognized tokens resolve to `Word`.
pub fn parse_col_types(columns: &str) -> (r: Vec<ColType>)
    ensures
        r@ == parse_spec(columns@),
        r@.len() >= 1,
    decreases columns@.len(),
{
    let n = columns.unicode_len();
    let p = find_comma(columns, 0);
    proof {
        lemma_first_comma_range(columns@, p as int);
    }
    if p == n {
        let t = resolve_token(columns, 0, n);
        let r = vec![t];
        proof {
            assert(columns@.subrange(0, n as int) =~= columns@);
            assert(split_commas(columns@) =~= seq![columns@]);
            assert(r@ =~= parse_spec(columns@));
        }
        r
    } else {
        let head = resolve_token(columns, 0, p);
        let rest = columns.substring_char(p + 1, n);
        let mut r = parse_col_types(rest);
        r.insert(0, head);
        proof {
            let tail = columns@.subrange(p + 1, n as int);
            assert(split_commas(columns@) =~= seq![columns@.subrange(0, p as int)]
                + split_commas(tail));
            assert(r@ =~= parse_spec(columns@));
        }
        r
    }
}

/// The header name of column `n` (1-based) of type `t`.
pub open spec fn header_name(n: nat, t: ColType) -> Seq<char> {
    "col"@ + dec_digits(n) + "_"@ + type_label(t)
}

/// Type names are plain, non-empty text.
pub proof fn lemma_type_label_plain(t: ColType)
    ensures
        plain_text(type_label(t)),
        type_label(t).len() > 0,
{
    reveal_strlit("int");
    reveal_strlit("float");
    reveal_strlit("word");
    reveal_strlit("name");
    reveal_strlit("phone");
}

/// Header names are plain, non-empty text.
pub proof fn lemma_header_name_plain(n: nat, t: ColType)
    ensures
        plain_text(header_name(n, t)),
        header_name(n, t).len() > 0,
{
    reveal_strlit("col");
    reveal_strlit("_");
    lemma_type_label_plain(t);
    lemma_dec_digits_plain(n);
    lemma_dec_digits_len(n);
    let h = header_name(n, t);
    assert forall|i: int| 0 <= i < h.len() implies h[i] != ',' && h[i] != '"' && h[i] != '\n'
        && h[i] != '\r' by {
        let a = "col"@;
        let b = dec_digits(n);
        let c = "_"@;
        let d = type_label(t);
        if i < a.len() {
            assert(h[i] == a[i]);
        } else if i < a.len() + b.len() {
            assert(h[i] == b[i - a.len()]);
        } else if i < a.len() + b.len() + c.len() {
            assert(h[i] == c[i - a.len() - b.len()]);
        } else {
            assert(h[i] == d[i - a.len() - b.len() - c.len()]);
        }
    }
}

impl ColType {
    /// The token that names this type, e.g. in headers.
    pub fn to_string(&self) -> (r: String)
        ensures
            r@ == type_label(*self),
    {
        match self {
            ColType::Int => String::from_str("int"),
            ColType::Float => String::from_str("float"),
            ColType::Word => String::from_str("word"),
            ColType::Name => String::from_str("name"),
            ColType::Phone => String::from_str("phone"),
        }
    }
}

/// The header row: `col1_t1, col2_t2, ...` derived from the column types.
pub fn header_names(cols: &Vec<ColType>) -> (h: Vec<String>)
    ensures
        h@.len() == cols@.len(),
        forall|i: int| 0 <= i < h@.len() ==> (#[trigger] h@[i])@ == header_name((i + 1) as nat, cols@[i]),
{
    let mut h: Vec<String> = Vec::new();
    let mut i: usize = 0;
    while i < cols.len()
        invariant
            0 <= i <= cols@.len(),
            h@.len() == i,
            forall|j: int| 0 <= j < i ==> (#[trigger] h@[j])@ == header_name((j + 1) as nat, cols@[j]),
        decreases cols@.len() - i,
    {
        let name = String::from_str("col")
            .concat(decimal_string(i + 1).as_str())
            .concat("_")
            .concat(cols[i].to_string().as_str());
        proof {
            assert(name@ =~= header_name((i + 1) as nat, cols@[i as int]));
        }
        h.push(name);
        i += 1;
    }
    h
}

} // verus!
