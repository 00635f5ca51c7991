//! Random row generation: one value per declared column type, and the
//! assembly of header and rows into a complete CSV document.

use vstd::prelude::*;

use fake::Fake;

use crate::coltype::{header_name, header_names, lemma_header_name_plain, ColType};
use crate::csvout::{csv_text, render_csv, writable_records};
use crate::text::{
    count_char, dec_digits, fixed3, lemma_dec_digits_len, lemma_dec_digits_plain,
    lemma_fixed3_plain, lemma_fixed3_shape, plain_text, decimal_string, fixed3_string,
};

verus! {

/// What a generated cell may hold, by column type: integers render a number
/// below `range`; floats render a number of thousandths below `range`, with
/// exactly three digits after the point; words, names and phone numbers are
/// non-empty plain text.
pub open spec fn cell_ok(t: ColType, s: Seq<char>, range: nat) -> bool {
    match t {
        ColType::Int => exists|k: nat| k < range && s == dec_digits(k),
        ColType::Float => exists|m: nat| m < range * 1000 && s == fixed3(m),
        ColType::Word => plain_text(s) && s.len() > 0,
        ColType::Name => plain_text(s) && s.len() > 0,
        ColType::Phone => plain_text(s) && s.len() > 0,
    }
}

/// Every well-formed cell is non-empty plain text.
pub proof fn lemma_cell_ok_plain(t: ColType, s: Seq<char>, range: nat)
    requires
        cell_ok(t, s, range),
    ensures
        plain_text(s),
        s.len() > 0,
{
    match t {
        ColType::Int => {
            let k = choose|k: nat| k < range && s == dec_digits(k);
            lemma_dec_digits_plain(k);
            lemma_dec_digits_len(k);
        },
        ColType::Float => {
            let m = choose|m: nat| m < range * 1000 && s == fixed3(m);
            lemma_fixed3_plain(m);
            lemma_fixed3_shape(m);
        },
        _ => {},
    }
}

/// The header record derived from the column types.
pub open spec fn header_row(cols: Seq<ColType>) -> Seq<Seq<char>> {
    Seq::new(cols.len(), |i: int| header_name((i + 1) as nat, cols[i]))
}

/// Relies on rand's thread-local generator with `RngExt::random_range` over
/// `0..bound`, which returns a value of the non-empty range: the result is
/// always below `bound`.
#[verifier::external_body]
fn random_below(bound: usize) -> (r: usize)
    requires
        1 <= bound,
    ensures
        r < bound,
{
    let mut rng = rand::rng();
    rand::RngExt::random_range(&mut rng, 0..bound)
}

/// Relies on fake's English lorem `Word` faker, which picks from a fixed
/// list of non-empty words free of commas, quotes and line breaks.
#[verifier::external_body]
fn fake_word() -> (r: String)
    ensures
        plain_text(r@),
        r@.len() > 0,
{
    fake::faker::lorem::en::Word().fake::<String>()
}

/// Relies on fake's English `Name` faker, which joins a first and a last
/// name from fixed lists with a space: non-empty, free of commas, quotes and
/// line breaks.
#[verifier::external_body]
fn fake_name() -> (r: String)
    ensures
        plain_text(r@),
        r@.len() > 0,
{
    fake::faker::name::en::Name().fake::<String>()
}

/// Relies on fake's English `PhoneNumber` faker, which fills a fixed format
/// of digits, dots, dashes, parentheses and spaces: non-empty, free of
/// commas, quotes and line breaks.
#[verifier::external_body]
fn fake_phone() -> (r: String)
    ensures
        plain_text(r@),
        r@.len() > 0,
{
    fake::faker::phone_number::en::PhoneNumber().fake::<String>()
}

/// Generates one data row: one well-formed cell per declared column type,
/// each drawn independently.
pub fn generate_row(cols: &Vec<ColType>, range: usize) -> (row: Vec<String>)
    requires
        1 <= range <= usize::MAX / 1000,
    ensures
        row@.len() == cols@.len(),
        forall|j: int|
            0 <= j < cols@.len() ==> cell_ok(cols@[j], (#[trigger] row@[j])@, range as nat),
{
    let mut row: Vec<String> = Vec::new();
    let mut j: usize = 0;
    while j < cols.len()
        invariant
            0 <= j <= cols@.len(),
            row@.len() == j,
            1 <= range <= usize::MAX / 1000,
            forall|t: int|
                0 <= t < j ==> cell_ok(cols@[t], (#[trigger] row@[t])@, range as nat),
        decreases cols@.len() - j,
    {
        let cell: String = match cols[j] {
            ColType::Int => {
                let k = random_below(range);
                let s = decimal_string(k);
                proof {
                    assert((k as nat) < range as nat && s@ == dec_digits(k as nat));
                }
                s
            },
            ColType::Float => {
                let m = random_below(range * 1000);
                let s = fixed3_string(m);
                proof {
                    assert((m as nat) < (range as nat) * 1000 && s@ == fixed3(m as nat));
                }
                s
            },
            ColType::Word => fake_word(),
            ColType::Name => fake_name(),
            ColType::Phone => fake_phone(),
        };
        proof {
            assert(cell_ok(cols@[j as int], cell@, range as nat));
        }
        row.push(cell);
        j += 1;
    }
    row
}

/// Generates the whole table: the header record followed by `rows` data
/// rows, each with one well-formed cell per column.
pub fn generate_table(cols: &Vec<ColType>, rows: usize, range: usize) -> (table: Vec<
    Vec<String>,
>)
    requires
        cols@.len() >= 1,
        1 <= range <= usize::MAX / 1000,
    ensures
        table@.len() == rows + 1,
        table.deep_view()[0] == header_row(cols@),
        forall|i: int|
            1 <= i <= rows ==> (#[trigger] table.deep_view()[i]).len() == cols@.len(),
        forall|i: int, j: int|
            1 <= i <= rows && 0 <= j < cols@.len() ==> cell_ok(
                cols@[j],
                #[trigger] table.deep_view()[i][j],
                range as nat,
            ),
        writable_records(table.deep_view()),
{
    let header = header_names(cols);
    proof {
        assert(header.deep_view() =~= header_row(cols@));
    }
    let mut table: Vec<Vec<String>> = Vec::new();
    table.push(header);
    let mut i: usize = 0;
    while i < rows
        invariant
            0 <= i <= rows,
            cols@.len() >= 1,
            1 <= range <= usize::MAX / 1000,
            table@.len() == i + 1,
            table.deep_view()[0] == header_row(cols@),
            forall|t: int|
                1 <= t <= i ==> (#[trigger] table.deep_view()[t]).len() == cols@.len(),
            forall|t: int, j: int|
                1 <= t <= i && 0 <= j < cols@.len() ==> cell_ok(
                    cols@[j],
                    #[trigger] table.deep_view()[t][j],
                    range as nat,
                ),
        decreases rows - i,
    {
        let row = generate_row(cols, range);
        let ghost dv = table.deep_view();
        let ghost rv = row.deep_view();
        proof {
            assert(rv.len() == cols@.len());
            assert(forall|j: int|
                0 <= j < cols@.len() ==> cell_ok(cols@[j], #[trigger] rv[j], range as nat));
        }
        table.push(row);
        proof {
            assert(table.deep_view() =~= dv.push(rv));
        }
        i += 1;
    }
    proof {
        lemma_table_writable(table.deep_view(), cols@, rows as nat, range as nat);
    }
    table
}

/// A table of a header and well-formed cells can be written verbatim.
proof fn lemma_table_writable(
    table: Seq<Seq<Seq<char>>>,
    cols: Seq<ColType>,
    rows: nat,
    range: nat,
)
    requires
        cols.len() >= 1,
        table.len() == rows + 1,
        table[0] == header_row(cols),
        forall|i: int| 1 <= i <= rows ==> (#[trigger] table[i]).len() == cols.len(),
        forall|i: int, j: int|
            1 <= i <= rows && 0 <= j < cols.len() ==> cell_ok(
                cols[j],
                #[trigger] table[i][j],
                range,
            ),
    ensures
        writable_records(table),
{
    assert forall|i: int| 0 <= i < table.len() implies (forall|j: int|
        0 <= j < table[i].len() ==> plain_text(#[trigger] table[i][j])) && table[i].len() >= 1
        && (table[i].len() == 1 ==> table[i][0].len() > 0) by {
        if i == 0 {
            assert forall|j: int| 0 <= j < table[0].len() implies plain_text(
                #[trigger] table[0][j],
            ) by {
                lemma_header_name_plain((j + 1) as nat, cols[j]);
            }
            if table[0].len() == 1 {
                lemma_header_name_plain(1, cols[0]);
            }
        } else {
            assert forall|j: int| 0 <= j < table[i].len() implies plain_text(
                #[trigger] table[i][j],
            ) by {
                lemma_cell_ok_plain(cols[j], table[i][j], range);
            }
            if table[i].len() == 1 {
                lemma_cell_ok_plain(cols[0], table[i][0], range);
            }
        }
    }
}

/// Generates the complete CSV document for `rows` data rows: the header
/// line followed by one line per row, each with one well-formed cell per
/// column. The document holds exactly `rows + 1` lines.
pub fn generate_csv(cols: &Vec<ColType>, rows: usize, range: usize) -> (out: String)
    requires
        cols@.len() >= 1,
        1 <= range <= usize::MAX / 1000,
    ensures
        count_char(out@, '\n') == rows + 1,
        out@.len() > 0 && out@[out@.len() - 1] == '\n',
        exists|table: Seq<Seq<Seq<char>>>|
            {
                &&& out@ == #[trigger] csv_text(table)
                &&& table.len() == rows + 1
                &&& table[0] == header_row(cols@)
                &&& forall|i: int| 1 <= i <= rows ==> (#[trigger] table[i]).len() == cols@.len()
                &&& forall|i: int, j: int|
                    1 <= i <= rows && 0 <= j < cols@.len() ==> cell_ok(
                        cols@[j],
                        #[trigger] table[i][j],
                        range as nat,
                    )
            },
{
    let table = generate_table(cols, rows, range);
    let out = render_csv(&table);
    proof {
        let t = table.deep_view();
        assert(out@ == csv_text(t) && t.len() == rows + 1 && t[0] == header_row(cols@) && (
        forall|i: int| 1 <= i <= rows ==> (#[trigger] t[i]).len() == cols@.len()) && (forall|
            i: int,
            j: int,
        |
            1 <= i <= rows && 0 <= j < cols@.len() ==> cell_ok(
                cols@[j],
                #[trigger] t[i][j],
                range as nat,
            )));
    }
    out
}

} // verus!
