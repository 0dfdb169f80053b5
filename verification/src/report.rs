//! The reporters: read-only consumers of the aggregate. They render the valid
//! list for the plain-text sink, encode it for the indexed CSV sink, and build
//! the terminal summary lines. None of them alters the aggregate.

use vstd::prelude::*;
use vstd::string::StringExecFns;
use crate::classify::Outcome;
use crate::text::dec_digits;
use crate::text::u64_to_decimal;

verus! {

/// One line of the plain-text sink: the content followed by a newline.
pub open spec fn line_of(s: Seq<char>) -> Seq<char> {
    s + seq!['\n']
}

/// The whole plain-text document: one newline-terminated line per entry.
pub open spec fn join_lines(ls: Seq<Seq<char>>) -> Seq<char>
    decreases ls.len(),
{
    if ls.len() == 0 {
        Seq::empty()
    } else {
        join_lines(ls.drop_last()) + line_of(ls.last())
    }
}

/// Renders the plain-text sink content: one valid address per line, each line
/// newline-terminated.
pub fn render_text(valids: &Vec<String>) -> (r: String)
    ensures
        r@ == join_lines(valids.deep_view()),
{
    let mut r = String::new();
    let mut i: usize = 0;
    while i < valids.len()
        invariant
            i <= valids@.len(),
            r@ == join_lines(valids.deep_view().take(i as int)),
        decreases valids@.len() - i,
    {
        r.append(valids[i].as_str());
        r.append("\n");
        proof {
            reveal_strlit("\n");
            assert("\n"@ =~= seq!['\n']);
            let dv = valids.deep_view();
            assert(dv.take(i + 1).drop_last() =~= dv.take(i as int));
            assert(dv.take(i + 1).last() == dv[i as int]);
            assert(r@ =~= join_lines(dv.take(i + 1)));
        }
        i += 1;
    }
    proof {
        assert(valids.deep_view().take(valids@.len() as int) =~= valids.deep_view());
    }
    r
}

/// A character that forces a CSV field into quotes under the encoder's
/// default configuration.
pub open spec fn is_csv_special(c: char) -> bool {
    c == ',' || c == '"' || c == '\n' || c == '\r'
}

/// True when the field must be written quoted.
pub open spec fn needs_quoting(f: Seq<char>) -> bool {
    exists|i: int| 0 <= i < f.len() && is_csv_special(f[i])
}

/// The body of a quoted field: every quote is doubled.
pub open spec fn escape_quotes(f: Seq<char>) -> Seq<char>
    decreases f.len(),
{
    if f.len() == 0 {
        Seq::empty()
    } else {
        (if f[0] == '"' {
            seq!['"', '"']
        } else {
            seq![f[0]]
        }) + escape_quotes(f.drop_first())
    }
}

/// One encoded CSV field: quoted exactly when it holds a comma, a quote, or a
/// line break.
pub open spec fn csv_field(f: Seq<char>) -> Seq<char> {
    if needs_quoting(f) {
        seq!['"'] + escape_quotes(f) + seq!['"']
    } else {
        f
    }
}

/// One encoded CSV record of two fields, terminated by a newline.
pub open spec fn csv_row(a: Seq<char>, b: Seq<char>) -> Seq<char> {
    csv_field(a) + seq![','] + csv_field(b) + seq!['\n']
}

/// The whole CSV document for a sequence of two-field records.
pub open spec fn csv_document(rows: Seq<(Seq<char>, Seq<char>)>) -> Seq<char>
    decreases rows.len(),
{
    if rows.len() == 0 {
        Seq::empty()
    } else {
        csv_document(rows.drop_last()) + csv_row(rows.last().0, rows.last().1)
    }
}

/// The records of the indexed CSV sink: the entry at position `i` becomes the
/// record (decimal rendering of `i`, entry).
pub open spec fn indexed_rows(valids: Seq<Seq<char>>) -> Seq<(Seq<char>, Seq<char>)> {
    Seq::new(valids.len(), |i: int| (dec_digits(i as nat), valids[i]))
}

/// A CSV encoder writing into an in-memory buffer. Held behind an opaque
/// struct: Verus sees it only through `written` and the trusted items below.
#[verifier::external_body]
pub struct CsvSink {
    writer: csv::Writer<Vec<u8>>,
}

/// The records a CSV sink has accepted so far, as the characters its buffer
/// will hold once flushed.
pub uninterp spec fn written(w: CsvSink) -> Seq<char>;

/// Relies on csv::Writer::from_writer: a writer over an in-memory buffer, in
/// the crate's default configuration, that has been handed no records yet.
#[verifier::external_body]
fn csv_writer_new() -> (w: CsvSink)
    ensures
        written(w) == Seq::<char>::empty(),
{
    CsvSink { writer: csv::Writer::from_writer(Vec::new()) }
}

/// Relies on csv::Writer::write_record in the default configuration: fields
/// joined by ',', the record terminated by '\n', a field quoted with '"'
/// exactly when it holds a comma, a quote, or a line break, and quotes
/// doubled inside a quoted field. The call succeeds: its only failures are an
/// I/O error of the underlying writer, which for an in-memory buffer cannot
/// occur, and a record length differing from the first record's, while every
/// record handed to this sink has exactly two fields.
#[verifier::external_body]
fn csv_write_pair(w: &mut CsvSink, a: &str, b: &str) -> (ok: bool)
    ensures
        ok,
        written(*final(w)) == written(*old(w)) + csv_row(a@, b@),
{
    w.writer.write_record(&[a, b]).is_ok()
}

/// Relies on csv::Writer::into_inner: flushes the writer and hands back the
/// buffer, which holds the UTF-8 encoding of the records written so far. The
/// call succeeds: flushing into an in-memory buffer cannot fail, and the
/// buffer decodes as a string because it holds string fields joined by ASCII
/// separators.
#[verifier::external_body]
fn csv_writer_finish(w: CsvSink) -> (r: Option<String>)
    ensures
        r is Some,
        r matches Some(s) ==> s@ == written(w),
{
    match w.writer.into_inner() {
        Ok(bytes) => String::from_utf8(bytes).ok(),
        Err(_) => None,
    }
}

/// Renders the indexed CSV sink content: one record per valid address, the
/// first field its zero-based position, the second the address; no header
/// row. The in-memory encoder cannot fail, so the rendering always succeeds.
pub fn render_csv(valids: &Vec<String>) -> (r: Option<String>)
    ensures
        r is Some,
        r matches Some(s) ==> s@ == csv_document(indexed_rows(valids.deep_view())),
{
    let ghost rows = indexed_rows(valids.deep_view());
    let mut w = csv_writer_new();
    let mut i: usize = 0;
    proof {
        assert(rows.take(0) =~= Seq::empty());
    }
    while i < valids.len()
        invariant
            i <= valids@.len(),
            rows == indexed_rows(valids.deep_view()),
            rows.len() == valids@.len(),
            written(w) == csv_document(rows.take(i as int)),
        decreases valids@.len() - i,
    {
        let index = u64_to_decimal(i as u64);
        csv_write_pair(&mut w, index.as_str(), valids[i].as_str());
        proof {
            assert(rows.take(i + 1).drop_last() =~= rows.take(i as int));
            assert(rows.take(i + 1).last() == rows[i as int]);
            assert(written(w) =~= csv_document(rows.take(i + 1)));
        }
        i += 1;
    }
    proof {
        assert(rows.take(rows.len() as int) =~= rows);
    }
    csv_writer_finish(w)
}

/// A sequence of characters without a newline.
pub open spec fn newline_free(s: Seq<char>) -> bool {
    forall|k: int| 0 <= k < s.len() ==> s[k] != '\n'
}

/// A field that the CSV encoder writes unchanged: no comma, quote, or line
/// break anywhere in it.
pub open spec fn plain_field(s: Seq<char>) -> bool {
    forall|k: int| 0 <= k < s.len() ==> !is_csv_special(s[k])
}

/// The index of the first newline in `s`, or `s.len()` when none occurs.
pub open spec fn first_newline(s: Seq<char>) -> int
    decreases s.len(),
{
    if s.len() == 0 {
        0
    } else if s[0] == '\n' {
        0
    } else {
        1 + first_newline(s.drop_first())
    }
}

proof fn lemma_first_newline_bounds(s: Seq<char>)
    ensures
        0 <= first_newline(s) <= s.len(),
        first_newline(s) < s.len() ==> s[first_newline(s)] == '\n',
        forall|k: int| 0 <= k < first_newline(s) ==> s[k] != '\n',
    decreases s.len(),
{
    if s.len() == 0 {
    } else if s[0] == '\n' {
    } else {
        lemma_first_newline_bounds(s.drop_first());
        let i = first_newline(s);
        assert forall|k: int| 0 <= k < i implies s[k] != '\n' by {
            if k > 0 {
                assert(s.drop_first()[k - 1] == s[k]);
            }
        }
        if i < s.len() {
            assert(s.drop_first()[i - 1] == s[i]);
        }
    }
}

/// The lines of a document: the pieces between newlines, a trailing piece
/// without its newline kept only when it is nonempty.
pub open spec fn split_lines(s: Seq<char>) -> Seq<Seq<char>>
    decreases s.len(),
{
    if s.len() == 0 {
        Seq::empty()
    } else {
        let i = first_newline(s);
        if 0 <= i && i < s.len() {
            seq![s.take(i)] + split_lines(s.skip(i + 1))
        } else {
            seq![s]
        }
    }
}

proof fn lemma_split_prepend(p: Seq<char>, t: Seq<char>)
    requires
        newline_free(p),
    ensures
        split_lines(line_of(p) + t) == seq![p] + split_lines(t),
{
    let s = line_of(p) + t;
    lemma_first_newline_bounds(s);
    let i = first_newline(s);
    assert(s[p.len() as int] == '\n');
    if i < p.len() {
        assert(s[i] == p[i]);
        assert(false);
    }
    if i > p.len() {
        assert(s[p.len() as int] != '\n');
        assert(false);
    }
    assert(s.take(i) =~= p);
    assert(s.skip(i + 1) =~= t);
    assert(split_lines(s) =~= seq![p] + split_lines(t));
}

proof fn lemma_join_first(ls: Seq<Seq<char>>)
    requires
        ls.len() > 0,
    ensures
        join_lines(ls) == line_of(ls[0]) + join_lines(ls.drop_first()),
    decreases ls.len(),
{
    if ls.len() == 1 {
        assert(ls.drop_last().len() == 0);
        assert(ls.drop_first().len() == 0);
        assert(join_lines(ls.drop_last()) =~= Seq::<char>::empty());
        assert(join_lines(ls.drop_first()) =~= Seq::<char>::empty());
        assert(ls.last() == ls[0]);
        assert(join_lines(ls) =~= line_of(ls[0]) + join_lines(ls.drop_first()));
    } else {
        let dl = ls.drop_last();
        let df = ls.drop_first();
        lemma_join_first(dl);
        assert(dl.drop_first() =~= df.drop_last());
        assert(dl[0] == ls[0]);
        assert(df.last() == ls.last());
        assert(join_lines(ls) == join_lines(dl) + line_of(ls.last()));
        assert(join_lines(dl) == line_of(ls[0]) + join_lines(df.drop_last()));
        assert(join_lines(df) == join_lines(df.drop_last()) + line_of(df.last()));
        assert(join_lines(ls) =~= line_of(ls[0]) + join_lines(df));
    }
}

/// Joining newline-free lines and splitting the document again gives back
/// exactly the lines, each at its own position.
pub proof fn lemma_join_split_round_trip(ls: Seq<Seq<char>>)
    requires
        forall|i: int| 0 <= i < ls.len() ==> newline_free(#[trigger] ls[i]),
    ensures
        split_lines(join_lines(ls)) == ls,
    decreases ls.len(),
{
    if ls.len() == 0 {
        assert(split_lines(join_lines(ls)) =~= ls);
    } else {
        lemma_join_first(ls);
        assert(forall|i: int|
            0 <= i < ls.drop_first().len() ==> newline_free(#[trigger] ls.drop_first()[i]));
        lemma_join_split_round_trip(ls.drop_first());
        lemma_split_prepend(ls[0], join_lines(ls.drop_first()));
        assert(split_lines(join_lines(ls)) =~= ls);
    }
}

/// The decimal rendering of any number is nonempty and free of characters
/// that matter to the sinks.
pub proof fn lemma_digits_plain(n: nat)
    ensures
        plain_field(dec_digits(n)),
        dec_digits(n).len() > 0,
    decreases n,
{
    if n < 10 {
    } else {
        lemma_digits_plain(n / 10);
        assert forall|k: int| 0 <= k < dec_digits(n).len() implies !is_csv_special(
            dec_digits(n)[k],
        ) by {
            if k < dec_digits(n / 10).len() {
                assert(dec_digits(n)[k] == dec_digits(n / 10)[k]);
            }
        }
    }
}

/// The content of one indexed CSV row for a plain address: no quoting
/// happens, so the row is the decimal index, a comma, and the address.
pub proof fn lemma_csv_row_plain(a: Seq<char>, b: Seq<char>)
    requires
        plain_field(a),
        plain_field(b),
    ensures
        csv_row(a, b) == line_of(a + seq![','] + b),
{
    assert(!needs_quoting(a));
    assert(!needs_quoting(b));
    assert(csv_row(a, b) =~= line_of(a + seq![','] + b));
}

/// The contents of the CSV rows for `valids`, line by line, newline left off.
pub open spec fn row_contents(valids: Seq<Seq<char>>) -> Seq<Seq<char>> {
    Seq::new(valids.len(), |i: int| dec_digits(i as nat) + seq![','] + valids[i])
}

proof fn lemma_csv_document_lines(valids: Seq<Seq<char>>)
    requires
        forall|i: int| 0 <= i < valids.len() ==> plain_field(#[trigger] valids[i]),
    ensures
        csv_document(indexed_rows(valids)) == join_lines(row_contents(valids)),
    decreases valids.len(),
{
    if valids.len() == 0 {
        assert(csv_document(indexed_rows(valids)) =~= join_lines(row_contents(valids)));
    } else {
        let prefix = valids.drop_last();
        lemma_csv_document_lines(prefix);
        assert(indexed_rows(prefix) =~= indexed_rows(valids).drop_last());
        assert(row_contents(prefix) =~= row_contents(valids).drop_last());
        lemma_digits_plain((valids.len() - 1) as nat);
        lemma_csv_row_plain(dec_digits((valids.len() - 1) as nat), valids.last());
        assert(indexed_rows(valids).last() == (
            dec_digits((valids.len() - 1) as nat),
            valids[valids.len() - 1],
        ));
        assert(row_contents(valids).last() == dec_digits((valids.len() - 1) as nat) + seq![',']
            + valids[valids.len() - 1]);
        assert(csv_document(indexed_rows(valids)) =~= join_lines(row_contents(valids)));
    }
}

/// Round trip through the two sinks, both configured for one run over plain
/// addresses: the text document splits back into exactly the valid list, and
/// line `i` of the CSV document is the decimal rendering of `i`, a comma, and
/// the address at position `i` of the valid list.
pub proof fn lemma_sink_round_trip(valids: Seq<Seq<char>>)
    requires
        forall|i: int| 0 <= i < valids.len() ==> plain_field(#[trigger] valids[i]),
    ensures
        split_lines(join_lines(valids)) == valids,
        split_lines(csv_document(indexed_rows(valids))).len() == valids.len(),
        forall|i: int|
            0 <= i < valids.len() ==> split_lines(csv_document(indexed_rows(valids)))[i]
                == dec_digits(i as nat) + seq![','] + valids[i],
{
    assert forall|i: int| 0 <= i < valids.len() implies newline_free(#[trigger] valids[i]) by {
        assert(forall|k: int| 0 <= k < valids[i].len() ==> !is_csv_special(valids[i][k]));
    }
    lemma_join_split_round_trip(valids);
    lemma_csv_document_lines(valids);
    assert forall|i: int|
        0 <= i < row_contents(valids).len() implies newline_free(
        #[trigger] row_contents(valids)[i],
    ) by {
        lemma_digits_plain(i as nat);
    }
    lemma_join_split_round_trip(row_contents(valids));
}

/// The terminal summary for a batch run.
pub open spec fn spec_summary_line(valid: nat, total: nat, output: Seq<char>) -> Seq<char> {
    "Validation completed: "@ + dec_digits(valid) + " valid emails out of "@ + dec_digits(total)
        + " processed. Results saved to '"@ + output + "'"@
}

/// Builds the batch summary line; without an output path the legacy
/// placeholder stands in for it.
pub fn summary_line(valid: usize, total: usize, output: Option<&String>) -> (r: String)
    ensures
        r@ == spec_summary_line(
            valid as nat,
            total as nat,
            match output {
                Some(p) => p@,
                None => "No file specified"@,
            },
        ),
{
    let mut r = "Validation completed: ".to_owned();
    r.append(u64_to_decimal(valid as u64).as_str());
    r.append(" valid emails out of ");
    r.append(u64_to_decimal(total as u64).as_str());
    r.append(" processed. Results saved to '");
    match output {
        Some(p) => r.append(p.as_str()),
        None => r.append("No file specified"),
    }
    r.append("'");
    r
}

/// The terminal line for a single-address run.
pub fn completion_line(address: &str) -> (r: String)
    ensures
        r@ == "Checking completed for: "@ + address@,
{
    let mut r = "Checking completed for: ".to_owned();
    r.append(address);
    r
}

/// The uncolored per-address classification line of verbose and
/// single-address mode; an `Unknown` outcome prints nothing.
pub fn classification_line(address: &str, outcome: &Outcome) -> (r: Option<String>)
    ensures
        outcome@ is Valid ==> (r matches Some(s) && s@ == address@ + " - VALID"@),
        outcome@ is Invalid ==> (r matches Some(s) && s@ == address@ + " - INVALID"@),
        outcome@ is Unknown ==> r is None,
{
    match outcome {
        Outcome::Valid(_) => {
            let mut r = address.to_owned();
            r.append(" - VALID");
            Some(r)
        },
        Outcome::Invalid => {
            let mut r = address.to_owned();
            r.append(" - INVALID");
            Some(r)
        },
        Outcome::Unknown => None,
    }
}

/// The bare classification label, for callers that decorate it themselves; an
/// `Unknown` outcome has none.
pub fn outcome_label(outcome: &Outcome) -> (r: Option<&'static str>)
    ensures
        outcome@ is Valid ==> (r matches Some(s) && s@ == "VALID"@),
        outcome@ is Invalid ==> (r matches Some(s) && s@ == "INVALID"@),
        outcome@ is Unknown ==> r is None,
{
    match outcome {
        Outcome::Valid(_) => Some("VALID"),
        Outcome::Invalid => Some("INVALID"),
        Outcome::Unknown => None,
    }
}

} // verus!
