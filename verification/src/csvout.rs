//! CSV rendering. Records whose fields are plain text are encoded through
//! the `csv` crate; the encoding of such a record is pinned down exactly:
//! the fields joined by commas, with a newline terminator.

use vstd::prelude::*;

use crate::coltype::{first_comma, lemma_first_comma_range, split_commas};
use crate::text::{count_char, lemma_count_char_concat, lemma_plain_count, plain_text};

verus! {

/// Fields joined by the comma delimiter.
pub open spec fn join_fields(fields: Seq<Seq<char>>) -> Seq<char>
    decreases fields.len(),
{
    if fields.len() == 0 {
        Seq::empty()
    } else if fields.len() == 1 {
        fields[0]
    } else {
        fields[0] + seq![','] + join_fields(fields.drop_first())
    }
}

/// One encoded CSV record: the fields joined by commas, newline-terminated.
pub open spec fn csv_line(fields: Seq<Seq<char>>) -> Seq<char> {
    join_fields(fields) + seq!['\n']
}

/// A whole CSV document: the encoded records in order.
pub open spec fn csv_text(records: Seq<Seq<Seq<char>>>) -> Seq<char>
    decreases records.len(),
{
    if records.len() == 0 {
        Seq::empty()
    } else {
        csv_line(records[0]) + csv_text(records.drop_first())
    }
}

/// Whether every field of the record may be written verbatim.
pub open spec fn plain_record(fields: Seq<Seq<char>>) -> bool {
    forall|i: int| 0 <= i < fields.len() ==> plain_text(#[trigger] fields[i])
}

/// Whether every record of the document can be written verbatim: fields are
/// plain, records are never empty, and a single-field record is non-empty
/// (the one case the CSV layer would quote).
pub open spec fn writable_records(records: Seq<Seq<Seq<char>>>) -> bool {
    forall|i: int|
        0 <= i < records.len() ==> plain_record(#[trigger] records[i]) && records[i].len() >= 1
            && (records[i].len() == 1 ==> records[i][0].len() > 0)
}

/// The character counts of a one-character sequence.
proof fn lemma_count_char_single(c: char, d: char)
    ensures
        count_char(seq![c], d) == if c == d {
            1nat
        } else {
            0nat
        },
{
    let s = seq![c];
    assert(s.drop_first() =~= Seq::<char>::empty());
    assert(count_char(Seq::<char>::empty(), d) == 0);
    assert(count_char(s, d) == (if s[0] == d {
        1nat
    } else {
        0nat
    }) + count_char(s.drop_first(), d));
}

/// A line holding `C` plain fields has exactly `C - 1` commas and exactly
/// one newline, at its end.
pub proof fn lemma_csv_line_fields(fields: Seq<Seq<char>>)
    requires
        fields.len() >= 1,
        plain_record(fields),
    ensures
        count_char(csv_line(fields), ',') == fields.len() - 1,
        count_char(csv_line(fields), '\n') == 1,
        csv_line(fields)[csv_line(fields).len() - 1] == '\n',
    decreases fields.len(),
{
    lemma_count_char_concat(join_fields(fields), seq!['\n'], ',');
    lemma_count_char_concat(join_fields(fields), seq!['\n'], '\n');
    lemma_count_char_single('\n', ',');
    lemma_count_char_single('\n', '\n');
    lemma_join_counts(fields);
}

/// The comma and newline counts of joined plain fields.
proof fn lemma_join_counts(fields: Seq<Seq<char>>)
    requires
        fields.len() >= 1,
        plain_record(fields),
    ensures
        count_char(join_fields(fields), ',') == fields.len() - 1,
        count_char(join_fields(fields), '\n') == 0,
    decreases fields.len(),
{
    if fields.len() == 1 {
        lemma_plain_count(fields[0]);
    } else {
        let rest = fields.drop_first();
        assert(plain_record(rest));
        lemma_join_counts(rest);
        lemma_plain_count(fields[0]);
        lemma_count_char_concat(fields[0], seq![','], ',');
        lemma_count_char_concat(fields[0] + seq![','], join_fields(rest), ',');
        lemma_count_char_concat(fields[0], seq![','], '\n');
        lemma_count_char_concat(fields[0] + seq![','], join_fields(rest), '\n');
        lemma_count_char_single(',', ',');
        lemma_count_char_single(',', '\n');
        assert(fields[0] + seq![','] + join_fields(rest) =~= join_fields(fields));
    }
}

/// A document of `R` writable records holds exactly `R` newlines — one line
/// per record — and, when there is at least one record, ends in a newline.
pub proof fn lemma_csv_text_lines(records: Seq<Seq<Seq<char>>>)
    requires
        writable_records(records),
    ensures
        count_char(csv_text(records), '\n') == records.len(),
        records.len() > 0 ==> csv_text(records).len() > 0 && csv_text(records)[csv_text(
            records,
        ).len() - 1] == '\n',
    decreases records.len(),
{
    if records.len() > 0 {
        let rest = records.drop_first();
        assert(writable_records(rest));
        lemma_csv_text_lines(rest);
        lemma_csv_line_fields(records[0]);
        lemma_count_char_concat(csv_line(records[0]), csv_text(rest), '\n');
        let line = csv_line(records[0]);
        let text = csv_text(records);
        if rest.len() == 0 {
            assert(csv_text(rest) =~= Seq::<char>::empty());
            assert(text =~= line);
        } else {
            assert(text[text.len() - 1] == csv_text(rest)[csv_text(rest).len() - 1]);
        }
    }
}

/// Splitting an encoded record's joined fields on commas recovers exactly
/// the fields: a line rendered from `C` plain fields reads back as `C`
/// comma-separated fields.
pub proof fn lemma_split_joined(fields: Seq<Seq<char>>)
    requires
        fields.len() >= 1,
        plain_record(fields),
    ensures
        split_commas(join_fields(fields)) == fields,
    decreases fields.len(),
{
    let s = join_fields(fields);
    if fields.len() == 1 {
        lemma_first_comma_range(s, s.len() as int);
        assert(split_commas(s) =~= seq![fields[0]]);
        assert(seq![fields[0]] =~= fields);
    } else {
        let rest = fields.drop_first();
        let head = fields[0];
        let p = head.len() as int;
        assert(s == head + seq![','] + join_fields(rest));
        assert forall|j: int| 0 <= j < p implies s[j] != ',' by {
            assert(s[j] == head[j]);
        }
        assert(s[p] == ',');
        lemma_first_comma_range(s, p);
        assert(first_comma(s) == p);
        assert(s.subrange(0, p) =~= head);
        assert(s.subrange(p + 1, s.len() as int) =~= join_fields(rest));
        assert(plain_record(rest));
        lemma_split_joined(rest);
        assert(split_commas(s) =~= seq![head] + split_commas(join_fields(rest)));
        assert(seq![head] + rest =~= fields);
    }
}

/// Appending one record extends the document by one encoded line.
pub proof fn lemma_csv_text_snoc(records: Seq<Seq<Seq<char>>>, rec: Seq<Seq<char>>)
    ensures
        csv_text(records.push(rec)) == csv_text(records) + csv_line(rec),
    decreases records.len(),
{
    if records.len() == 0 {
        assert(records.push(rec).drop_first() =~= Seq::<Seq<Seq<char>>>::empty());
        assert(records.push(rec)[0] == rec);
        assert(csv_text(Seq::<Seq<Seq<char>>>::empty()) =~= Seq::<char>::empty());
        assert(csv_text(records.push(rec)) =~= csv_line(rec));
        assert(csv_text(records) + csv_line(rec) =~= csv_line(rec));
    } else {
        let rest = records.drop_first();
        lemma_csv_text_snoc(rest, rec);
        assert(records.push(rec).drop_first() =~= rest.push(rec));
        assert(records.push(rec)[0] == records[0]);
        assert(csv_line(records[0]) + (csv_text(rest) + csv_line(rec)) =~= csv_line(
            records[0],
        ) + csv_text(rest) + csv_line(rec));
        assert(csv_text(records) + csv_line(rec) =~= csv_line(records[0]) + csv_text(rest)
            + csv_line(rec));
    }
}

/// Relies on `csv::Writer` with its default configuration (comma delimiter,
/// newline terminator, quoting only where needed): a record whose fields are
/// free of commas, quotes and line breaks — and is not a single empty field —
/// is written verbatim, comma-separated, with a trailing newline.
#[verifier::external_body]
fn csv_encode_record(fields: &Vec<String>) -> (r: String)
    requires
        fields@.len() >= 1,
        plain_record(fields@.map_values(|f: String| f@)),
        fields@.len() == 1 ==> fields@[0]@.len() > 0,
    ensures
        r@ == csv_line(fields@.map_values(|f: String| f@)),
{
    let mut w = csv::Writer::from_writer(Vec::new());
    w.write_record(fields).expect("in-memory CSV write cannot fail");
    let bytes = w.into_inner().expect("in-memory CSV flush cannot fail");
    String::from_utf8(bytes).expect("CSV output of UTF-8 fields is UTF-8")
}

/// Renders the records as one CSV document. The document is exactly the
/// records joined as comma-separated lines, and holds one line per record.
pub fn render_csv(records: &Vec<Vec<String>>) -> (r: String)
    requires
        writable_records(records.deep_view()),
    ensures
        r@ == csv_text(records.deep_view()),
        count_char(r@, '\n') == records@.len(),
        records@.len() > 0 ==> r@.len() > 0 && r@[r@.len() - 1] == '\n',
{
    let ghost all = records.deep_view();
    let mut r = String::new();
    let mut i: usize = 0;
    while i < records.len()
        invariant
            0 <= i <= records@.len(),
            all == records.deep_view(),
            all.len() == records@.len(),
            writable_records(all),
            r@ == csv_text(all.subrange(0, i as int)),
        decreases records@.len() - i,
    {
        proof {
            assert(all[i as int] == records@[i as int].deep_view());
            assert(records@[i as int].deep_view() =~= records@[i as int]@.map_values(
                |f: String| f@,
            ));
        }
        let line = csv_encode_record(&records[i]);
        r = r.concat(line.as_str());
        proof {
            lemma_csv_text_snoc(all.subrange(0, i as int), all[i as int]);
            assert(all.subrange(0, i as int).push(all[i as int]) =~= all.subrange(
                0,
                i as int + 1,
            ));
        }
        i += 1;
    }
    proof {
        assert(all.subrange(0, all.len() as int) =~= all);
        lemma_csv_text_lines(all);
    }
    r
}

} // verus!
