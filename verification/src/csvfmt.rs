//! The CSV transformation: comma-separated records are re-emitted
//! tab-separated, preserving record and field order. The reader follows
//! the usual lenient CSV conventions: records end at `\r`, `\n` or
//! `\r\n`; a final terminator is tolerated and fully empty lines are
//! skipped; a field starting with `"` is quoted and may contain commas,
//! quotes doubled as `""`, and even line breaks; a stray quote is
//! ordinary text. Every record must have as many fields as the first
//! one, and the first offending record is reported otherwise.

use vstd::prelude::*;
use crate::text::push_char;
use crate::transform::TransformError;
use crate::transform::res_view;
use crate::is_blank;
use crate::validate_input;

verus! {

/// A record whose field count differs from the first record's.
#[derive(Debug, Clone, Copy, PartialEq, Eq, Structural)]
pub struct CsvError {
    /// Index of the first offending record, counting from zero.
    pub row: usize,
    /// The field count of the first record, which every record must match.
    pub expected: usize,
    /// The field count of the offending record.
    pub found: usize,
}

/// Splits a sequence at every occurrence of the separator. The separator
/// is not kept; `n` separators yield exactly `n + 1` parts, so the empty
/// sequence yields one empty part.
pub open spec fn split_on(s: Seq<char>, sep: char) -> Seq<Seq<char>>
    decreases s.len(),
{
    if s.len() == 0 {
        seq![Seq::<char>::empty()]
    } else {
        let parts = split_on(s.drop_last(), sep);
        if s.last() == sep {
            parts.push(Seq::<char>::empty())
        } else {
            parts.update(parts.len() - 1, parts.last().push(s.last()))
        }
    }
}

/// Joins the parts with the separator between each adjacent pair.
pub open spec fn join_with(parts: Seq<Seq<char>>, sep: char) -> Seq<char>
    decreases parts.len(),
{
    if parts.len() == 0 {
        Seq::<char>::empty()
    } else if parts.len() == 1 {
        parts[0]
    } else {
        join_with(parts.drop_last(), sep).push(sep) + parts.last()
    }
}

/// Where the reader stands between two characters.
#[derive(Copy, Clone, Debug, PartialEq, Eq, Structural)]
pub enum ScanMode {
    /// At the start of a field (start of input, of a record, or after a
    /// comma).
    FieldStart,
    /// Inside an unquoted field.
    Unquoted,
    /// Inside a quoted field.
    Quoted,
    /// Just after a quote inside a quoted field: a second quote is a
    /// literal quote, anything else ends the quoted part.
    QuoteEnd,
    /// Just after a `\r` that ended a record: a following `\n` belongs
    /// to the same terminator.
    AfterCr,
}

/// The reader's whole state: finished records, finished fields of the
/// current record, the current field, and the mode.
pub ghost struct ScanState {
    pub records: Seq<Seq<Seq<char>>>,
    pub fields: Seq<Seq<char>>,
    pub cur: Seq<char>,
    pub mode: ScanMode,
}

pub open spec fn scan_init() -> ScanState {
    ScanState {
        records: Seq::empty(),
        fields: Seq::empty(),
        cur: Seq::empty(),
        mode: ScanMode::FieldStart,
    }
}

/// One character read at the start of a field. A terminator here ends
/// the record, except that a record with nothing in it at all — a fully
/// empty line — is skipped.
pub open spec fn scan_start(
    records: Seq<Seq<Seq<char>>>,
    fields: Seq<Seq<char>>,
    cur: Seq<char>,
    c: char,
) -> ScanState {
    if c == '"' {
        ScanState { records, fields, cur, mode: ScanMode::Quoted }
    } else if c == ',' {
        ScanState {
            records,
            fields: fields.push(cur),
            cur: Seq::empty(),
            mode: ScanMode::FieldStart,
        }
    } else if c == '\r' || c == '\n' {
        let ended = if fields.len() == 0 && cur.len() == 0 {
            records
        } else {
            records.push(fields.push(cur))
        };
        ScanState {
            records: ended,
            fields: Seq::empty(),
            cur: Seq::empty(),
            mode: if c == '\r' {
                ScanMode::AfterCr
            } else {
                ScanMode::FieldStart
            },
        }
    } else {
        ScanState { records, fields, cur: cur.push(c), mode: ScanMode::Unquoted }
    }
}

/// One character read in any state.
pub open spec fn scan_step(st: ScanState, c: char) -> ScanState {
    match st.mode {
        ScanMode::FieldStart => scan_start(st.records, st.fields, st.cur, c),
        ScanMode::AfterCr => if c == '\n' {
            ScanState { records: st.records, fields: st.fields, cur: st.cur, mode: ScanMode::FieldStart }
        } else {
            scan_start(st.records, st.fields, st.cur, c)
        },
        ScanMode::Unquoted => if c == ',' {
            ScanState {
                records: st.records,
                fields: st.fields.push(st.cur),
                cur: Seq::empty(),
                mode: ScanMode::FieldStart,
            }
        } else if c == '\r' || c == '\n' {
            ScanState {
                records: st.records.push(st.fields.push(st.cur)),
                fields: Seq::empty(),
                cur: Seq::empty(),
                mode: if c == '\r' {
                    ScanMode::AfterCr
                } else {
                    ScanMode::FieldStart
                },
            }
        } else {
            ScanState { records: st.records, fields: st.fields, cur: st.cur.push(c), mode: ScanMode::Unquoted }
        },
        ScanMode::Quoted => if c == '"' {
            ScanState { records: st.records, fields: st.fields, cur: st.cur, mode: ScanMode::QuoteEnd }
        } else {
            ScanState { records: st.records, fields: st.fields, cur: st.cur.push(c), mode: ScanMode::Quoted }
        },
        ScanMode::QuoteEnd => if c == '"' {
            ScanState { records: st.records, fields: st.fields, cur: st.cur.push('"'), mode: ScanMode::Quoted }
        } else if c == ',' {
            ScanState {
                records: st.records,
                fields: st.fields.push(st.cur),
                cur: Seq::empty(),
                mode: ScanMode::FieldStart,
            }
        } else if c == '\r' || c == '\n' {
            ScanState {
                records: st.records.push(st.fields.push(st.cur)),
                fields: Seq::empty(),
                cur: Seq::empty(),
                mode: if c == '\r' {
                    ScanMode::AfterCr
                } else {
                    ScanMode::FieldStart
                },
            }
        } else {
            ScanState { records: st.records, fields: st.fields, cur: st.cur.push(c), mode: ScanMode::Unquoted }
        },
    }
}

/// The reader's state after the whole input.
pub open spec fn scan_csv(s: Seq<char>) -> ScanState
    decreases s.len(),
{
    if s.len() == 0 {
        scan_init()
    } else {
        scan_step(scan_csv(s.drop_last()), s.last())
    }
}

/// What the end of input leaves: a pending record is emitted, a fully
/// empty final line (or one consumed by a terminator) is not.
pub open spec fn scan_finish(st: ScanState) -> Seq<Seq<Seq<char>>> {
    match st.mode {
        ScanMode::FieldStart | ScanMode::AfterCr => if st.fields.len() == 0 && st.cur.len()
            == 0 {
            st.records
        } else {
            st.records.push(st.fields.push(st.cur))
        },
        _ => st.records.push(st.fields.push(st.cur)),
    }
}

/// The records of the input, each a sequence of fields, in order.
pub open spec fn records_of(s: Seq<char>) -> Seq<Seq<Seq<char>>> {
    scan_finish(scan_csv(s))
}

/// Index of the first record whose field count differs from `expected`;
/// the total record count when there is none.
pub open spec fn first_bad_at(recs: Seq<Seq<Seq<char>>>, expected: nat) -> nat
    decreases recs.len(),
{
    if recs.len() == 0 {
        0
    } else if recs[0].len() != expected {
        0
    } else {
        1 + first_bad_at(recs.drop_first(), expected)
    }
}

/// The tab-separated rendering: each record's fields joined by tabs,
/// records by line feeds, with no trailing terminator.
pub open spec fn tsv_of(s: Seq<char>) -> Seq<char> {
    join_with(records_of(s).map_values(|r: Seq<Seq<char>>| join_with(r, '\t')), '\n')
}

/// What the CSV transformation returns: the tab-separated rendering of
/// well-formed input, and otherwise the first offending record with both
/// field counts.
pub open spec fn csv_spec(s: Seq<char>) -> Result<Seq<char>, TransformError> {
    if is_blank(s) {
        Err(TransformError::EmptyInput)
    } else {
        let recs = records_of(s);
        if recs.len() == 0 {
            Ok(tsv_of(s))
        } else {
            let expected = recs[0].len();
            let bad = first_bad_at(recs, expected);
            if bad == recs.len() {
                Ok(tsv_of(s))
            } else {
                Err(
                    TransformError::CsvParse(
                        CsvError {
                            row: bad as usize,
                            expected: expected as usize,
                            found: recs[bad as int].len() as usize,
                        },
                    ),
                )
            }
        }
    }
}

/// `first_bad_at` is the index of the first mismatch: a run of matching
/// records followed by a mismatch (or by the end) pins it down.
proof fn lemma_first_bad_at_is(recs: Seq<Seq<Seq<char>>>, expected: nat, i: int)
    requires
        0 <= i <= recs.len(),
        forall|j: int| 0 <= j < i ==> (#[trigger] recs[j]).len() == expected,
        i < recs.len() ==> recs[i].len() != expected,
    ensures
        first_bad_at(recs, expected) == i,
    decreases recs.len(),
{
    if recs.len() == 0 {
    } else if i == 0 {
    } else {
        let rest = recs.drop_first();
        assert(forall|j: int| 0 <= j < i - 1 ==> (#[trigger] rest[j]).len() == expected);
        lemma_first_bad_at_is(rest, expected, i - 1);
    }
}

proof fn lemma_split_on_nonempty(s: Seq<char>, sep: char)
    ensures
        split_on(s, sep).len() >= 1,
    decreases s.len(),
{
    if s.len() > 0 {
        lemma_split_on_nonempty(s.drop_last(), sep);
    }
}

/// Every record the reader has finished holds at least one field.
proof fn lemma_scan_records_nonempty(s: Seq<char>)
    ensures
        forall|j: int|
            0 <= j < scan_csv(s).records.len() ==> (#[trigger] scan_csv(s).records[j]).len() >= 1,
    decreases s.len(),
{
    if s.len() > 0 {
        lemma_scan_records_nonempty(s.drop_last());
        let st = scan_csv(s.drop_last());
        let st2 = scan_step(st, s.last());
        assert forall|j: int| 0 <= j < st2.records.len() implies (#[trigger] st2.records[j]).len()
            >= 1 by {
            if j < st.records.len() {
                assert(st.records[j].len() >= 1);
            } else {
                assert(st2.records[j] == st.fields.push(st.cur));
            }
        }
    }
}

/// Every record of the input holds at least one field.
proof fn lemma_records_nonempty(s: Seq<char>)
    ensures
        forall|j: int|
            0 <= j < records_of(s).len() ==> (#[trigger] records_of(s)[j]).len() >= 1,
{
    lemma_scan_records_nonempty(s);
    let st = scan_csv(s);
    let recs = records_of(s);
    assert forall|j: int| 0 <= j < recs.len() implies (#[trigger] recs[j]).len() >= 1 by {
        if j < st.records.len() {
            assert(st.records[j].len() >= 1);
        } else {
            assert(recs[j] == st.fields.push(st.cur));
        }
    }
}

/// Joining parts that lack a character with a different separator yields
/// a sequence that still lacks it.
proof fn lemma_join_with_free(parts: Seq<Seq<char>>, sep: char, c: char)
    requires
        c != sep,
        forall|i: int| 0 <= i < parts.len() ==> !(#[trigger] parts[i]).contains(c),
    ensures
        !join_with(parts, sep).contains(c),
    decreases parts.len(),
{
    if parts.len() == 0 {
    } else if parts.len() == 1 {
        assert(!parts[0].contains(c));
    } else {
        assert(forall|i: int|
            0 <= i < parts.drop_last().len() ==> parts.drop_last()[i] == #[trigger] parts[i]);
        lemma_join_with_free(parts.drop_last(), sep, c);
        let head = join_with(parts.drop_last(), sep);
        let whole = head.push(sep) + parts.last();
        assert forall|i: int| 0 <= i < whole.len() implies whole[i] != c by {
            if i < head.len() {
                assert(whole[i] == head[i]);
                assert(!head.contains(c));
            } else if i == head.len() {
                assert(whole[i] == sep);
            } else {
                assert(whole[i] == parts.last()[i - head.len() - 1]);
                assert(!parts[parts.len() - 1].contains(c));
            }
        }
        assert(!whole.contains(c));
    }
}

/// Splitting a sequence free of the separator yields that sequence as
/// the one part.
proof fn lemma_split_on_whole(s: Seq<char>, sep: char)
    requires
        !s.contains(sep),
    ensures
        split_on(s, sep) == seq![s],
    decreases s.len(),
{
    if s.len() == 0 {
        assert(split_on(s, sep) =~~= seq![s]);
    } else {
        assert(s[s.len() - 1] != sep);
        assert(!s.drop_last().contains(sep)) by {
            assert(forall|i: int|
                0 <= i < s.drop_last().len() ==> s.drop_last()[i] == #[trigger] s[i]);
        }
        lemma_split_on_whole(s.drop_last(), sep);
        assert(split_on(s, sep) =~~= seq![s.drop_last().push(s.last())]);
        assert(s.drop_last().push(s.last()) =~= s);
        assert(split_on(s, sep) =~~= seq![s]);
    }
}

/// Appending a separator and a separator-free tail to a sequence appends
/// exactly one part to its split.
proof fn lemma_split_on_append(x: Seq<char>, y: Seq<char>, sep: char)
    requires
        !y.contains(sep),
    ensures
        split_on(x + seq![sep] + y, sep) == split_on(x, sep).push(y),
    decreases y.len(),
{
    if y.len() == 0 {
        let s = x + seq![sep] + y;
        assert(s =~= x.push(sep));
        assert(x.push(sep).drop_last() =~= x);
        assert(x.push(sep).last() == sep);
        assert(split_on(x.push(sep), sep) == split_on(x, sep).push(Seq::<char>::empty()));
        assert(y =~= Seq::<char>::empty());
    } else {
        let s = x + seq![sep] + y;
        let c = y.last();
        assert(c != sep) by {
            assert(y[y.len() - 1] == c);
        }
        assert(!y.drop_last().contains(sep)) by {
            assert(forall|i: int|
                0 <= i < y.drop_last().len() ==> y.drop_last()[i] == #[trigger] y[i]);
        }
        lemma_split_on_append(x, y.drop_last(), sep);
        assert(s.drop_last() =~= x + seq![sep] + y.drop_last());
        assert(s.last() == c);
        let prev = split_on(x, sep).push(y.drop_last());
        lemma_split_on_nonempty(x, sep);
        assert(split_on(s, sep) == prev.update(prev.len() - 1, prev.last().push(c)));
        assert(prev.last() == y.drop_last());
        assert(prev.update(prev.len() - 1, y.drop_last().push(c)) =~~= split_on(x, sep).push(
            y.drop_last().push(c),
        ));
        assert(y.drop_last().push(c) =~= y);
    }
}

/// Splitting undoes joining whenever no part contains the separator.
proof fn lemma_split_join_inverse(parts: Seq<Seq<char>>, sep: char)
    requires
        parts.len() >= 1,
        forall|i: int| 0 <= i < parts.len() ==> !(#[trigger] parts[i]).contains(sep),
    ensures
        split_on(join_with(parts, sep), sep) == parts,
    decreases parts.len(),
{
    if parts.len() == 1 {
        lemma_split_on_whole(parts[0], sep);
        assert(seq![parts[0]] =~~= parts);
    } else {
        assert(forall|i: int|
            0 <= i < parts.drop_last().len() ==> parts.drop_last()[i] == #[trigger] parts[i]);
        lemma_split_join_inverse(parts.drop_last(), sep);
        let head = join_with(parts.drop_last(), sep);
        assert(join_with(parts, sep) =~= head + seq![sep] + parts.last());
        lemma_split_on_append(head, parts.last(), sep);
        assert(parts.drop_last().push(parts.last()) =~~= parts);
    }
}

/// Law: the tab-separated rendering preserves the record count and
/// order: splitting it at line feeds yields exactly one line per input
/// record, each the tab-joined fields of that record. The proviso is
/// honest: a quoted input field with a line feed inside keeps it, and
/// such a line feed cannot be told from a record boundary afterwards.
pub proof fn lemma_tsv_preserves_records(s: Seq<char>)
    requires
        records_of(s).len() >= 1,
        forall|j: int, k: int|
            0 <= j < records_of(s).len() && 0 <= k < records_of(s)[j].len() ==> !(
            #[trigger] records_of(s)[j][k]).contains('\n'),
    ensures
        split_on(tsv_of(s), '\n').len() == records_of(s).len(),
        forall|j: int|
            0 <= j < records_of(s).len() ==> split_on(tsv_of(s), '\n')[j] == join_with(
                #[trigger] records_of(s)[j],
                '\t',
            ),
{
    let recs = records_of(s);
    let parts = recs.map_values(|r: Seq<Seq<char>>| join_with(r, '\t'));
    assert forall|i: int| 0 <= i < parts.len() implies !(#[trigger] parts[i]).contains('\n') by {
        assert(parts[i] == join_with(recs[i], '\t'));
        assert forall|k: int| 0 <= k < recs[i].len() implies !(#[trigger] recs[i][k]).contains(
            '\n',
        ) by {
            assert(records_of(s)[i][k] == recs[i][k]);
        }
        lemma_join_with_free(recs[i], '\t', '\n');
    }
    lemma_split_join_inverse(parts, '\n');
}

/// Law: the tab-separated rendering preserves each record's field count
/// and order, whenever none of the record's own fields contains a tab:
/// splitting its line at tabs yields exactly the record's fields.
pub proof fn lemma_tsv_preserves_fields(s: Seq<char>, j: int)
    requires
        0 <= j < records_of(s).len(),
        forall|j2: int, k: int|
            0 <= j2 < records_of(s).len() && 0 <= k < records_of(s)[j2].len() ==> !(
            #[trigger] records_of(s)[j2][k]).contains('\n'),
        forall|k: int|
            0 <= k < records_of(s)[j].len() ==> !(#[trigger] records_of(s)[j][k]).contains('\t'),
    ensures
        split_on(split_on(tsv_of(s), '\n')[j], '\t') == records_of(s)[j],
{
    lemma_tsv_preserves_records(s);
    lemma_records_nonempty(s);
    lemma_split_join_inverse(records_of(s)[j], '\t');
}

/// Joins the parts with the separator between each adjacent pair.
fn join_strs(parts: &Vec<String>, sep: char) -> (r: String)
    ensures
        r@ == join_with(parts.deep_view(), sep),
{
    let mut out = String::new();
    let mut i: usize = 0;
    while i < parts.len()
        invariant
            i <= parts@.len(),
            out@ == join_with(parts.deep_view().subrange(0, i as int), sep),
        decreases parts@.len() - i,
    {
        if i > 0 {
            push_char(&mut out, sep);
        }
        out.append(parts[i].as_str());
        proof {
            let dv = parts.deep_view();
            let pre = dv.subrange(0, i + 1);
            assert(pre.drop_last() =~= dv.subrange(0, i as int));
            assert(pre.last() == dv[i as int]);
            if i == 0 {
                assert(out@ =~= join_with(pre, sep));
            }
        }
        i = i + 1;
    }
    proof {
        assert(parts.deep_view().subrange(0, parts.deep_view().len() as int) =~= parts.deep_view());
    }
    out
}

/// Reads the whole input into records of fields, as `records_of`
/// describes.
fn scan_records(s: &str) -> (r: Vec<Vec<String>>)
    ensures
        r.deep_view() == records_of(s@),
{
    let n: usize = s.unicode_len();
    let mut records: Vec<Vec<String>> = Vec::new();
    let mut fields: Vec<String> = Vec::new();
    let mut cur = String::new();
    let mut mode = ScanMode::FieldStart;
    let mut i: usize = 0;
    while i < n
        invariant
            i <= n,
            n == s@.len(),
            records.deep_view() == scan_csv(s@.subrange(0, i as int)).records,
            fields.deep_view() == scan_csv(s@.subrange(0, i as int)).fields,
            cur@ == scan_csv(s@.subrange(0, i as int)).cur,
            mode == scan_csv(s@.subrange(0, i as int)).mode,
        decreases n - i,
    {
        let ghost st = scan_csv(s@.subrange(0, i as int));
        proof {
            assert(s@.subrange(0, i + 1).drop_last() =~= s@.subrange(0, i as int));
            assert(s@.subrange(0, i + 1).last() == s@[i as int]);
            assert(scan_csv(s@.subrange(0, i + 1)) == scan_step(st, s@[i as int]));
        }
        let ghost rdv = records.deep_view();
        let ghost fdv = fields.deep_view();
        let ghost cv = cur@;
        let c = s.get_char(i);
        match mode {
            ScanMode::FieldStart | ScanMode::AfterCr => {
                if mode == ScanMode::AfterCr && c == '\n' {
                    mode = ScanMode::FieldStart;
                } else if c == '"' {
                    mode = ScanMode::Quoted;
                } else if c == ',' {
                    fields.push(cur);
                    cur = String::new();
                    proof {
                        assert(fields.deep_view() =~~= fdv.push(cv));
                    }
                    mode = ScanMode::FieldStart;
                } else if c == '\r' || c == '\n' {
                    if fields.len() > 0 || !cur.as_str().is_empty() {
                        fields.push(cur);
                        cur = String::new();
                        proof {
                            assert(fields.deep_view() =~~= fdv.push(cv));
                        }
                        let ghost f2 = fields.deep_view();
                        records.push(fields);
                        fields = Vec::new();
                        proof {
                            assert(records.deep_view() =~~= rdv.push(f2));
                            assert(fields.deep_view() =~~= Seq::<Seq<char>>::empty());
                        }
                    } else {
                        proof {
                            assert(fdv =~~= Seq::<Seq<char>>::empty());
                            assert(cv =~= Seq::<char>::empty());
                        }
                    }
                    mode = if c == '\r' {
                        ScanMode::AfterCr
                    } else {
                        ScanMode::FieldStart
                    };
                } else {
                    push_char(&mut cur, c);
                    mode = ScanMode::Unquoted;
                }
            },
            ScanMode::Unquoted => {
                if c == ',' {
                    fields.push(cur);
                    cur = String::new();
                    proof {
                        assert(fields.deep_view() =~~= fdv.push(cv));
                    }
                    mode = ScanMode::FieldStart;
                } else if c == '\r' || c == '\n' {
                    fields.push(cur);
                    cur = String::new();
                    proof {
                        assert(fields.deep_view() =~~= fdv.push(cv));
                    }
                    let ghost f2 = fields.deep_view();
                    records.push(fields);
                    fields = Vec::new();
                    proof {
                        assert(records.deep_view() =~~= rdv.push(f2));
                        assert(fields.deep_view() =~~= Seq::<Seq<char>>::empty());
                    }
                    mode = if c == '\r' {
                        ScanMode::AfterCr
                    } else {
                        ScanMode::FieldStart
                    };
                } else {
                    push_char(&mut cur, c);
                }
            },
            ScanMode::Quoted => {
                if c == '"' {
                    mode = ScanMode::QuoteEnd;
                } else {
                    push_char(&mut cur, c);
                }
            },
            ScanMode::QuoteEnd => {
                if c == '"' {
                    push_char(&mut cur, '"');
                    mode = ScanMode::Quoted;
                } else if c == ',' {
                    fields.push(cur);
                    cur = String::new();
                    proof {
                        assert(fields.deep_view() =~~= fdv.push(cv));
                    }
                    mode = ScanMode::FieldStart;
                } else if c == '\r' || c == '\n' {
                    fields.push(cur);
                    cur = String::new();
                    proof {
                        assert(fields.deep_view() =~~= fdv.push(cv));
                    }
                    let ghost f2 = fields.deep_view();
                    records.push(fields);
                    fields = Vec::new();
                    proof {
                        assert(records.deep_view() =~~= rdv.push(f2));
                        assert(fields.deep_view() =~~= Seq::<Seq<char>>::empty());
                    }
                    mode = if c == '\r' {
                        ScanMode::AfterCr
                    } else {
                        ScanMode::FieldStart
                    };
                } else {
                    push_char(&mut cur, c);
                    mode = ScanMode::Unquoted;
                }
            },
        }
        proof {
            let st2 = scan_csv(s@.subrange(0, i + 1));
            assert(records.deep_view() == st2.records);
            assert(fields.deep_view() == st2.fields);
            assert(cur@ == st2.cur);
            assert(mode == st2.mode);
        }
        i = i + 1;
    }
    proof {
        assert(s@.subrange(0, n as int) =~= s@);
    }
    let pending = match mode {
        ScanMode::FieldStart | ScanMode::AfterCr => fields.len() > 0 || !cur.as_str().is_empty(),
        _ => true,
    };
    if pending {
        let ghost rdv = records.deep_view();
        let ghost fdv = fields.deep_view();
        let ghost cv = cur@;
        fields.push(cur);
        proof {
            assert(fields.deep_view() =~~= fdv.push(cv));
        }
        let ghost f2 = fields.deep_view();
        records.push(fields);
        proof {
            assert(records.deep_view() =~~= rdv.push(f2));
            assert(records.deep_view() == records_of(s@));
        }
    } else {
        proof {
            assert(records.deep_view() == records_of(s@));
        }
    }
    records
}

/// Re-emits comma-separated records tab-separated; rejects blank input,
/// and reports the first record whose field count differs from the
/// first record's.
pub fn print_csv(user_string: &str) -> (r: Result<String, TransformError>)
    ensures
        res_view(r) == csv_spec(user_string@),
{
    if !validate_input(user_string) {
        return Err(TransformError::EmptyInput);
    }
    let ghost recs = records_of(user_string@);
    let records = scan_records(user_string);
    if records.len() == 0 {
        proof {
            assert(recs.len() == 0);
            assert(recs.map_values(|r: Seq<Seq<char>>| join_with(r, '\t')).len() == 0);
            assert(tsv_of(user_string@) == Seq::<char>::empty());
        }
        let out = String::new();
        return Ok(out);
    }
    proof {
        assert(records.deep_view()[0] == records@[0].deep_view());
    }
    let expected: usize = records[0].len();
    let mut out_lines: Vec<String> = Vec::new();
    let mut i: usize = 0;
    while i < records.len()
        invariant
            i <= records@.len(),
            !is_blank(user_string@),
            recs == records_of(user_string@),
            records.deep_view() == recs,
            records@.len() == recs.len(),
            recs.len() >= 1,
            expected == recs[0].len(),
            forall|j: int| 0 <= j < i ==> (#[trigger] recs[j]).len() == expected,
            out_lines@.len() == i,
            forall|j: int|
                0 <= j < i ==> out_lines.deep_view()[j] == join_with(#[trigger] recs[j], '\t'),
        decreases records@.len() - i,
    {
        proof {
            assert(records.deep_view()[i as int] == records@[i as int].deep_view());
        }
        let found: usize = records[i].len();
        if found != expected {
            proof {
                lemma_first_bad_at_is(recs, expected as nat, i as int);
            }
            return Err(TransformError::CsvParse(CsvError { row: i, expected, found }));
        }
        out_lines.push(join_strs(&records[i], '\t'));
        i = i + 1;
    }
    proof {
        lemma_first_bad_at_is(recs, expected as nat, recs.len() as int);
    }
    let out = join_strs(&out_lines, '\n');
    proof {
        let g = |r: Seq<Seq<char>>| join_with(r, '\t');
        assert forall|j: int|
            0 <= j < recs.len() implies out_lines.deep_view()[j] == recs.map_values(g)[j] by {
            assert(recs.map_values(g)[j] == g(recs[j]));
        }
        assert(out_lines.deep_view() =~~= recs.map_values(g));
        assert(out@ == tsv_of(user_string@));
    }
    Ok(out)
}

} // verus!
