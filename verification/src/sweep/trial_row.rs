use vstd::prelude::*;

use super::candidate_space::CandidateShape;
use crate::env_file::{lines_of, lines_roundtrip, lines_text, plain_line, text_lines};
use crate::number::{decimal_reads_back, parse_unsigned, parse_usize};
use crate::text::{
    decimal_facts, decimal_string, is_digit, join_strings, join_with, lacks, spec_decimal,
    split_chars, split_join, split_on, string_from_chars,
};

verus! {

/// A row of the trials table as text and whole numbers: the loss, ratio and
/// timing columns are kept as the text the row holds.
pub struct RowText {
    pub status: Seq<char>,
    pub val_loss: Seq<char>,
    pub completed_steps: Option<usize>,
    pub shape: CandidateShape,
    pub lr_scale: Seq<char>,
    pub adam_lr_scale: Seq<char>,
    pub warmup_steps: usize,
    pub start_ratio: Seq<char>,
    pub amuse_beta1: Seq<char>,
    pub amuse_rho: Seq<char>,
    pub log_path: Seq<char>,
    pub elapsed_s: Option<Seq<char>>,
}

/// One row of the trials table.
pub struct TrialRow {
    pub status: String,
    pub val_loss: String,
    pub completed_steps: Option<usize>,
    pub shape: CandidateShape,
    pub lr_scale: String,
    pub adam_lr_scale: String,
    pub warmup_steps: usize,
    pub start_ratio: String,
    pub amuse_beta1: String,
    pub amuse_rho: String,
    pub log_path: String,
    pub elapsed_s: Option<String>,
}

impl View for TrialRow {
    type V = RowText;

    open spec fn view(&self) -> RowText {
        RowText {
            status: self.status@,
            val_loss: self.val_loss@,
            completed_steps: self.completed_steps,
            shape: self.shape,
            lr_scale: self.lr_scale@,
            adam_lr_scale: self.adam_lr_scale@,
            warmup_steps: self.warmup_steps,
            start_ratio: self.start_ratio@,
            amuse_beta1: self.amuse_beta1@,
            amuse_rho: self.amuse_rho@,
            log_path: self.log_path@,
            elapsed_s: match self.elapsed_s {
                Some(e) => Some(e@),
                None => None,
            },
        }
    }
}

/// A column read as a whole number.
pub open spec fn column_number(s: Seq<char>) -> Option<usize> {
    match parse_unsigned(s, 10, usize::MAX as nat) {
        Some(n) => Some(n as usize),
        None => None,
    }
}

/// The row a line of the trials table holds: sixteen or seventeen
/// tab-separated columns whose shape and warmup columns are whole numbers.
/// An empty seventeenth column, like a missing one, gives no elapsed time.
pub open spec fn parse_row(line: Seq<char>) -> Option<RowText> {
    let p = split_on(line, '\t');
    if p.len() != 16 && p.len() != 17 {
        None
    } else if column_number(p[3]) is None || column_number(p[4]) is None || column_number(p[5]) is None
        || column_number(p[6]) is None || column_number(p[7]) is None || column_number(p[8]) is None
        || column_number(p[11]) is None {
        None
    } else {
        Some(
            RowText {
                status: p[0],
                val_loss: p[1],
                completed_steps: column_number(p[2]),
                shape: CandidateShape {
                    batch_size: column_number(p[3])->0,
                    n_layer: column_number(p[4])->0,
                    n_embd: column_number(p[5])->0,
                    n_head: column_number(p[6])->0,
                    aurora_phases: column_number(p[7])->0,
                    aurora_blocks: column_number(p[8])->0,
                },
                lr_scale: p[9],
                adam_lr_scale: p[10],
                warmup_steps: column_number(p[11])->0,
                start_ratio: p[12],
                amuse_beta1: p[13],
                amuse_rho: p[14],
                log_path: p[15],
                elapsed_s: if p.len() == 17 && p[16].len() > 0 {
                    Some(p[16])
                } else {
                    None
                },
            },
        )
    }
}

/// The seventeen columns a row is written as.
pub open spec fn row_columns(r: RowText) -> Seq<Seq<char>> {
    seq![
        r.status,
        r.val_loss,
        match r.completed_steps {
            Some(n) => spec_decimal(n as nat),
            None => Seq::empty(),
        },
        spec_decimal(r.shape.batch_size as nat),
        spec_decimal(r.shape.n_layer as nat),
        spec_decimal(r.shape.n_embd as nat),
        spec_decimal(r.shape.n_head as nat),
        spec_decimal(r.shape.aurora_phases as nat),
        spec_decimal(r.shape.aurora_blocks as nat),
        r.lr_scale,
        r.adam_lr_scale,
        spec_decimal(r.warmup_steps as nat),
        r.start_ratio,
        r.amuse_beta1,
        r.amuse_rho,
        r.log_path,
        match r.elapsed_s {
            Some(e) => e,
            None => Seq::empty(),
        },
    ]
}

/// The line a row is written as.
pub open spec fn format_row(r: RowText) -> Seq<char> {
    join_with(row_columns(r), '\t')
}

/// Whether no text column of the row holds a tab and a given elapsed time
/// is not empty: the rows that a line can hold.
pub open spec fn writable(r: RowText) -> bool {
    &&& lacks(r.status, '\t')
    &&& lacks(r.val_loss, '\t')
    &&& lacks(r.lr_scale, '\t')
    &&& lacks(r.adam_lr_scale, '\t')
    &&& lacks(r.start_ratio, '\t')
    &&& lacks(r.amuse_beta1, '\t')
    &&& lacks(r.amuse_rho, '\t')
    &&& lacks(r.log_path, '\t')
    &&& match r.elapsed_s {
        Some(e) => lacks(e, '\t') && e.len() > 0,
        None => true,
    }
}

proof fn decimal_lacks_tab(n: nat)
    ensures
        lacks(spec_decimal(n), '\t'),
        column_number(spec_decimal(n)) == (if n <= usize::MAX {
            Some(n as usize)
        } else {
            column_number(spec_decimal(n))
        }),
{
    decimal_facts(n);
    assert forall|k: int| 0 <= k < spec_decimal(n).len() implies spec_decimal(n)[k] != '\t' by {
        assert(is_digit(spec_decimal(n)[k]));
    }
    if n <= usize::MAX {
        decimal_reads_back(n, usize::MAX as nat);
    }
}

/// A row written as a line reads back as the same row.
#[verifier::spinoff_prover]
#[verifier::rlimit(40)]
pub proof fn row_roundtrip(r: RowText)
    requires
        writable(r),
    ensures
        parse_row(format_row(r)) == Some(r),
{
    let cols = row_columns(r);
    decimal_lacks_tab(r.shape.batch_size as nat);
    decimal_lacks_tab(r.shape.n_layer as nat);
    decimal_lacks_tab(r.shape.n_embd as nat);
    decimal_lacks_tab(r.shape.n_head as nat);
    decimal_lacks_tab(r.shape.aurora_phases as nat);
    decimal_lacks_tab(r.shape.aurora_blocks as nat);
    decimal_lacks_tab(r.warmup_steps as nat);
    match r.completed_steps {
        Some(n) => decimal_lacks_tab(n as nat),
        None => {
            assert(parse_unsigned(Seq::<char>::empty(), 10, usize::MAX as nat) is None);
        },
    }
    assert forall|k: int| 0 <= k < cols.len() implies lacks(#[trigger] cols[k], '\t') by {
        if k == 2 {
            if r.completed_steps is None {
                assert(cols[2] =~= Seq::<char>::empty());
            }
        } else if k == 16 {
            if r.elapsed_s is None {
                assert(cols[16] =~= Seq::<char>::empty());
            }
        }
    }
    split_join(cols, '\t');
    let p = split_on(format_row(r), '\t');
    assert(p == cols);
    assert(p.len() == 17);
    let parsed = parse_row(format_row(r));
    assert(parsed is Some);
    assert(parsed->0.elapsed_s == r.elapsed_s);
    assert(parsed->0.completed_steps == r.completed_steps);
    assert(parsed->0 == r);
}

fn column_usize(cols: &Vec<Vec<char>>, k: usize) -> (r: Option<usize>)
    requires
        k < cols@.len(),
    ensures
        r == column_number(cols@[k as int]@),
{
    let s = string_from_chars(cols[k].as_slice());
    parse_usize(s.as_str())
}

fn column_text(cols: &Vec<Vec<char>>, k: usize) -> (r: String)
    requires
        k < cols@.len(),
    ensures
        r@ == cols@[k as int]@,
{
    string_from_chars(cols[k].as_slice())
}

/// Reads a line of the trials table.
pub fn parse_trial_row(line: &str) -> (r: Option<TrialRow>)
    ensures
        match parse_row(line@) {
            Some(row) => r matches Some(x) && x@ == row,
            None => r is None,
        },
{
    let chars = crate::text::chars_of(line);
    let cols = split_chars(&chars, '\t');
    let ghost p = split_on(line@, '\t');
    assert(chars@ == line@);
    if cols.len() != 16 && cols.len() != 17 {
        return None;
    }
    let batch_size = match column_usize(&cols, 3) {
        Some(n) => n,
        None => return None,
    };
    let n_layer = match column_usize(&cols, 4) {
        Some(n) => n,
        None => return None,
    };
    let n_embd = match column_usize(&cols, 5) {
        Some(n) => n,
        None => return None,
    };
    let n_head = match column_usize(&cols, 6) {
        Some(n) => n,
        None => return None,
    };
    let aurora_phases = match column_usize(&cols, 7) {
        Some(n) => n,
        None => return None,
    };
    let aurora_blocks = match column_usize(&cols, 8) {
        Some(n) => n,
        None => return None,
    };
    let warmup_steps = match column_usize(&cols, 11) {
        Some(n) => n,
        None => return None,
    };
    let elapsed_s = if cols.len() == 17 && cols[16].len() > 0 {
        Some(column_text(&cols, 16))
    } else {
        None
    };
    let row = TrialRow {
        status: column_text(&cols, 0),
        val_loss: column_text(&cols, 1),
        completed_steps: column_usize(&cols, 2),
        shape: CandidateShape { batch_size, n_layer, n_embd, n_head, aurora_phases, aurora_blocks },
        lr_scale: column_text(&cols, 9),
        adam_lr_scale: column_text(&cols, 10),
        warmup_steps,
        start_ratio: column_text(&cols, 12),
        amuse_beta1: column_text(&cols, 13),
        amuse_rho: column_text(&cols, 14),
        log_path: column_text(&cols, 15),
        elapsed_s,
    };
    assert(row@ == parse_row(line@)->0);
    Some(row)
}

/// Writes a row as a line of the trials table (without the line end).
pub fn format_trial_row(row: &TrialRow) -> (r: String)
    ensures
        r@ == format_row(row@),
{
    let mut cols: Vec<String> = Vec::new();
    cols.push(row.status.clone());
    cols.push(row.val_loss.clone());
    cols.push(
        match row.completed_steps {
            Some(n) => decimal_string(n),
            None => String::new(),
        },
    );
    cols.push(decimal_string(row.shape.batch_size));
    cols.push(decimal_string(row.shape.n_layer));
    cols.push(decimal_string(row.shape.n_embd));
    cols.push(decimal_string(row.shape.n_head));
    cols.push(decimal_string(row.shape.aurora_phases));
    cols.push(decimal_string(row.shape.aurora_blocks));
    cols.push(row.lr_scale.clone());
    cols.push(row.adam_lr_scale.clone());
    cols.push(decimal_string(row.warmup_steps));
    cols.push(row.start_ratio.clone());
    cols.push(row.amuse_beta1.clone());
    cols.push(row.amuse_rho.clone());
    cols.push(row.log_path.clone());
    cols.push(
        match &row.elapsed_s {
            Some(e) => e.clone(),
            None => String::new(),
        },
    );
    let r = join_strings(&cols, '\t');
    assert(Seq::new(cols@.len(), |k: int| cols@[k]@) =~= row_columns(row@));
    r
}

/// The first line of the trials table.
pub fn header() -> (r: &'static str)
    ensures
        r@ == "status\tval_loss\tcompleted_steps\tbatch_size\tn_layer\tn_embd\tn_head\taurora_phases\taurora_blocks\tlr_scale\tadam_lr_scale\twarmup_steps\tstart_ratio\tamuse_beta1\tamuse_rho\tlog_path\telapsed_s"@,
{
    "status\tval_loss\tcompleted_steps\tbatch_size\tn_layer\tn_embd\tn_head\taurora_phases\taurora_blocks\tlr_scale\tadam_lr_scale\twarmup_steps\tstart_ratio\tamuse_beta1\tamuse_rho\tlog_path\telapsed_s"
}

/// The rows that `lines` hold, skipping lines that hold none.
pub open spec fn rows_of(lines: Seq<Seq<char>>) -> Seq<RowText>
    decreases lines.len(),
{
    if lines.len() == 0 {
        Seq::empty()
    } else {
        let rest = rows_of(lines.drop_last());
        match parse_row(lines.last()) {
            Some(r) => rest.push(r),
            None => rest,
        }
    }
}

/// The lines after the first.
pub open spec fn after_header(lines: Seq<Seq<char>>) -> Seq<Seq<char>> {
    if lines.len() == 0 {
        lines
    } else {
        lines.skip(1)
    }
}

/// The rows of a trials table: every line after the header that holds one.
pub fn parse_trials(text: &str) -> (r: Vec<TrialRow>)
    ensures
        r@.len() == rows_of(after_header(text_lines(text@))).len(),
        forall|k: int| 0 <= k < r@.len() ==> (#[trigger] r@[k])@ == rows_of(after_header(text_lines(text@)))[k],
{
    let lines = lines_of(text);
    let ghost all = text_lines(text@);
    let mut out: Vec<TrialRow> = Vec::new();
    if lines.len() == 0 {
        return out;
    }
    let mut k: usize = 1;
    while k < lines.len()
        invariant
            1 <= k <= lines.len(),
            lines@.len() == all.len(),
            all == text_lines(text@),
            forall|j: int| 0 <= j < lines@.len() ==> (#[trigger] lines@[j])@ == all[j],
            out@.len() == rows_of(all.subrange(1, k as int)).len(),
            forall|j: int| 0 <= j < out@.len() ==> (#[trigger] out@[j])@ == rows_of(all.subrange(1, k as int))[j],
        decreases lines.len() - k,
    {
        let s = string_from_chars(lines[k].as_slice());
        let parsed = parse_trial_row(s.as_str());
        assert(all.subrange(1, k + 1).drop_last() =~= all.subrange(1, k as int));
        assert(all.subrange(1, k + 1).last() == all[k as int]);
        match parsed {
            Some(row) => {
                out.push(row);
            },
            None => {},
        }
        k = k + 1;
    }
    assert(all.subrange(1, all.len() as int) =~= all.skip(1));
    out
}


/// The first line of the trials table.
pub open spec fn header_text() -> Seq<char> {
    "status\tval_loss\tcompleted_steps\tbatch_size\tn_layer\tn_embd\tn_head\taurora_phases\taurora_blocks\tlr_scale\tadam_lr_scale\twarmup_steps\tstart_ratio\tamuse_beta1\tamuse_rho\tlog_path\telapsed_s"@
}

/// A trials table: the header line, then one line per row, each line
/// ended by `\n`.
pub open spec fn table_text(rows: Seq<RowText>) -> Seq<char> {
    lines_text(seq![header_text()] + rows.map_values(|r: RowText| format_row(r)))
}

/// Whether a row can be written as one line of the table and read back: no
/// text column holds a tab or a line end, and a given elapsed time is not
/// empty.
pub open spec fn table_row(r: RowText) -> bool {
    &&& writable(r)
    &&& plain_line(r.status)
    &&& plain_line(r.val_loss)
    &&& plain_line(r.lr_scale)
    &&& plain_line(r.adam_lr_scale)
    &&& plain_line(r.start_ratio)
    &&& plain_line(r.amuse_beta1)
    &&& plain_line(r.amuse_rho)
    &&& plain_line(r.log_path)
    &&& match r.elapsed_s {
        Some(e) => plain_line(e),
        None => true,
    }
}

proof fn join_lacks(fs: Seq<Seq<char>>, sep: char, c: char)
    requires
        sep != c,
        forall|k: int| 0 <= k < fs.len() ==> lacks(#[trigger] fs[k], c),
    ensures
        lacks(join_with(fs, sep), c),
    decreases fs.len(),
{
    if fs.len() > 1 {
        let rest = fs.drop_first();
        assert forall|k: int| 0 <= k < rest.len() implies lacks(#[trigger] rest[k], c) by {
            assert(rest[k] == fs[k + 1]);
        }
        join_lacks(rest, sep, c);
        let j = join_with(fs, sep);
        let a = fs[0];
        let b = join_with(rest, sep);
        assert(j =~= a + seq![sep] + b);
        assert(lacks(a, c));
        assert forall|k: int| 0 <= k < j.len() implies j[k] != c by {
            if k < a.len() {
                assert(j[k] == a[k]);
            } else if k == a.len() {
                assert(j[k] == sep);
            } else {
                assert(j[k] == b[k - a.len() - 1]);
            }
        }
    } else if fs.len() == 1 {
        assert(lacks(fs[0], c));
    }
}

proof fn decimal_plain(n: nat)
    ensures
        plain_line(spec_decimal(n)),
{
    decimal_facts(n);
    assert forall|k: int| 0 <= k < spec_decimal(n).len() implies spec_decimal(n)[k] != '\n'
        && spec_decimal(n)[k] != '\r' by {
        assert(is_digit(spec_decimal(n)[k]));
    }
}

proof fn row_line_plain(r: RowText)
    requires
        table_row(r),
    ensures
        plain_line(format_row(r)),
{
    let cols = row_columns(r);
    decimal_plain(r.shape.batch_size as nat);
    decimal_plain(r.shape.n_layer as nat);
    decimal_plain(r.shape.n_embd as nat);
    decimal_plain(r.shape.n_head as nat);
    decimal_plain(r.shape.aurora_phases as nat);
    decimal_plain(r.shape.aurora_blocks as nat);
    decimal_plain(r.warmup_steps as nat);
    match r.completed_steps {
        Some(n) => decimal_plain(n as nat),
        None => {},
    }
    assert forall|k: int| 0 <= k < cols.len() implies plain_line(#[trigger] cols[k]) by {
        if k == 2 {
            if r.completed_steps is None {
                assert(cols[2] =~= Seq::<char>::empty());
            }
        } else if k == 16 {
            if r.elapsed_s is None {
                assert(cols[16] =~= Seq::<char>::empty());
            }
        }
    }
    join_lacks(cols, '\t', '\n');
    join_lacks(cols, '\t', '\r');
}

proof fn header_plain()
    ensures
        plain_line(header_text()),
{
    reveal_strlit(
        "status\tval_loss\tcompleted_steps\tbatch_size\tn_layer\tn_embd\tn_head\taurora_phases\taurora_blocks\tlr_scale\tadam_lr_scale\twarmup_steps\tstart_ratio\tamuse_beta1\tamuse_rho\tlog_path\telapsed_s",
    );
    let h = header_text();
    assert forall|k: int| 0 <= k < h.len() implies h[k] != '\n' && h[k] != '\r' by {}
}

proof fn rows_of_formatted(rows: Seq<RowText>)
    requires
        forall|k: int| 0 <= k < rows.len() ==> table_row(#[trigger] rows[k]),
    ensures
        rows_of(rows.map_values(|r: RowText| format_row(r))) == rows,
    decreases rows.len(),
{
    if rows.len() > 0 {
        let init = rows.drop_last();
        assert forall|k: int| 0 <= k < init.len() implies table_row(#[trigger] init[k]) by {
            assert(init[k] == rows[k]);
        }
        rows_of_formatted(init);
        let lines = rows.map_values(|r: RowText| format_row(r));
        assert(lines.drop_last() =~= init.map_values(|r: RowText| format_row(r)));
        assert(table_row(rows.last()));
        row_roundtrip(rows.last());
        assert(lines.last() == format_row(rows.last()));
        assert(init.push(rows.last()) =~= rows);
    } else {
        assert(rows.map_values(|r: RowText| format_row(r)) =~= Seq::<Seq<char>>::empty());
    }
}

/// A trials table written from rows reads back as the same rows.
pub proof fn table_roundtrip(rows: Seq<RowText>)
    requires
        forall|k: int| 0 <= k < rows.len() ==> table_row(#[trigger] rows[k]),
    ensures
        rows_of(after_header(text_lines(table_text(rows)))) == rows,
{
    let lines = seq![header_text()] + rows.map_values(|r: RowText| format_row(r));
    header_plain();
    assert forall|k: int| 0 <= k < lines.len() implies plain_line(#[trigger] lines[k]) by {
        if k > 0 {
            assert(lines[k] == format_row(rows[k - 1]));
            row_line_plain(rows[k - 1]);
        }
    }
    lines_roundtrip(lines);
    assert(after_header(lines) =~= rows.map_values(|r: RowText| format_row(r)));
    rows_of_formatted(rows);
}

/// Writes a whole trials table: the header, then each row, each line ended
/// by `\n`.
pub fn format_trials(rows: &Vec<TrialRow>) -> (r: String)
    ensures
        r@ == table_text(rows@.map_values(|t: TrialRow| t@)),
{
    let ghost views = rows@.map_values(|t: TrialRow| t@);
    let ghost lines = seq![header_text()] + views.map_values(|r: RowText| format_row(r));
    let mut out = String::new();
    out.append(header());
    out.append("\n");
    proof {
        reveal_strlit("\n");
    }
    let mut k: usize = 0;
    while k < rows.len()
        invariant
            k <= rows.len(),
            views == rows@.map_values(|t: TrialRow| t@),
            lines == seq![header_text()] + views.map_values(|r: RowText| format_row(r)),
            lines_text(lines) == out@ + lines_text(lines.skip(k + 1)),
        decreases rows.len() - k,
    {
        let line = format_trial_row(&rows[k]);
        out.append(line.as_str());
        out.append("\n");
        proof {
            reveal_strlit("\n");
            let rest = lines.skip(k + 1);
            assert(rest[0] == format_row(rows@[k as int]@));
            assert(rest.drop_first() =~= lines.skip(k + 2));
        }
        k = k + 1;
    }
    proof {
        assert(lines.skip(rows.len() + 1) =~= Seq::<Seq<char>>::empty());
    }
    out
}


/// Reading a line takes each field from the tab-separated column the header
/// names for it: status, validation loss, completed steps, batch size,
/// layers, embedding width, heads, Aurora phases, Aurora blocks, learning-rate
/// scale, Adam learning-rate scale, warmup steps, start ratio, beta1, rho,
/// log path, elapsed time; the whole-number columns read in decimal. A line
/// holds a row exactly when it has sixteen or seventeen columns and each
/// shape column and the warmup column reads as a whole number.
pub proof fn parse_row_columns(line: Seq<char>)
    ensures
        parse_row(line) matches Some(r) ==> {
            let p = split_on(line, '\t');
            &&& p.len() == 16 || p.len() == 17
            &&& r.status == p[0]
            &&& r.val_loss == p[1]
            &&& r.completed_steps == column_number(p[2])
            &&& Some(r.shape.batch_size) == column_number(p[3])
            &&& Some(r.shape.n_layer) == column_number(p[4])
            &&& Some(r.shape.n_embd) == column_number(p[5])
            &&& Some(r.shape.n_head) == column_number(p[6])
            &&& Some(r.shape.aurora_phases) == column_number(p[7])
            &&& Some(r.shape.aurora_blocks) == column_number(p[8])
            &&& r.lr_scale == p[9]
            &&& r.adam_lr_scale == p[10]
            &&& Some(r.warmup_steps) == column_number(p[11])
            &&& r.start_ratio == p[12]
            &&& r.amuse_beta1 == p[13]
            &&& r.amuse_rho == p[14]
            &&& r.log_path == p[15]
            &&& r.elapsed_s == (if p.len() == 17 && p[16].len() > 0 {
                Some(p[16])
            } else {
                None
            })
        },
        parse_row(line) is Some <==> ({
            let p = split_on(line, '\t');
            &&& p.len() == 16 || p.len() == 17
            &&& column_number(p[3]) is Some && column_number(p[4]) is Some
            &&& column_number(p[5]) is Some && column_number(p[6]) is Some
            &&& column_number(p[7]) is Some && column_number(p[8]) is Some
            &&& column_number(p[11]) is Some
        }),
{
}

/// Writing a row puts each field in the column the header names for it,
/// the whole numbers in decimal: seventeen tab-separated columns.
pub proof fn format_row_columns(r: RowText)
    requires
        writable(r),
    ensures
        ({
            let p = split_on(format_row(r), '\t');
            &&& p.len() == 17
            &&& p[0] == r.status
            &&& p[1] == r.val_loss
            &&& p[2] == (match r.completed_steps {
                Some(n) => spec_decimal(n as nat),
                None => Seq::empty(),
            })
            &&& p[3] == spec_decimal(r.shape.batch_size as nat)
            &&& p[4] == spec_decimal(r.shape.n_layer as nat)
            &&& p[5] == spec_decimal(r.shape.n_embd as nat)
            &&& p[6] == spec_decimal(r.shape.n_head as nat)
            &&& p[7] == spec_decimal(r.shape.aurora_phases as nat)
            &&& p[8] == spec_decimal(r.shape.aurora_blocks as nat)
            &&& p[9] == r.lr_scale
            &&& p[10] == r.adam_lr_scale
            &&& p[11] == spec_decimal(r.warmup_steps as nat)
            &&& p[12] == r.start_ratio
            &&& p[13] == r.amuse_beta1
            &&& p[14] == r.amuse_rho
            &&& p[15] == r.log_path
            &&& p[16] == (match r.elapsed_s {
                Some(e) => e,
                None => Seq::empty(),
            })
        }),
{
    let cols = row_columns(r);
    decimal_lacks_tab(r.shape.batch_size as nat);
    decimal_lacks_tab(r.shape.n_layer as nat);
    decimal_lacks_tab(r.shape.n_embd as nat);
    decimal_lacks_tab(r.shape.n_head as nat);
    decimal_lacks_tab(r.shape.aurora_phases as nat);
    decimal_lacks_tab(r.shape.aurora_blocks as nat);
    decimal_lacks_tab(r.warmup_steps as nat);
    match r.completed_steps {
        Some(n) => decimal_lacks_tab(n as nat),
        None => {},
    }
    assert forall|k: int| 0 <= k < cols.len() implies lacks(#[trigger] cols[k], '\t') by {
        if k == 2 {
            if r.completed_steps is None {
                assert(cols[2] =~= Seq::<char>::empty());
            }
        } else if k == 16 {
            if r.elapsed_s is None {
                assert(cols[16] =~= Seq::<char>::empty());
            }
        }
    }
    split_join(cols, '\t');
}

/// The header names the columns in the order rows are written and read.
pub proof fn header_columns()
    ensures
        split_on(header_text(), '\t') == seq![
            "status"@,
            "val_loss"@,
            "completed_steps"@,
            "batch_size"@,
            "n_layer"@,
            "n_embd"@,
            "n_head"@,
            "aurora_phases"@,
            "aurora_blocks"@,
            "lr_scale"@,
            "adam_lr_scale"@,
            "warmup_steps"@,
            "start_ratio"@,
            "amuse_beta1"@,
            "amuse_rho"@,
            "log_path"@,
            "elapsed_s"@,
        ],
{
    let names = seq![
        "status"@,
        "val_loss"@,
        "completed_steps"@,
        "batch_size"@,
        "n_layer"@,
        "n_embd"@,
        "n_head"@,
        "aurora_phases"@,
        "aurora_blocks"@,
        "lr_scale"@,
        "adam_lr_scale"@,
        "warmup_steps"@,
        "start_ratio"@,
        "amuse_beta1"@,
        "amuse_rho"@,
        "log_path"@,
        "elapsed_s"@,
    ];
    reveal_strlit(
        "status\tval_loss\tcompleted_steps\tbatch_size\tn_layer\tn_embd\tn_head\taurora_phases\taurora_blocks\tlr_scale\tadam_lr_scale\twarmup_steps\tstart_ratio\tamuse_beta1\tamuse_rho\tlog_path\telapsed_s",
    );
    reveal_strlit("status");
    reveal_strlit("val_loss");
    reveal_strlit("completed_steps");
    reveal_strlit("batch_size");
    reveal_strlit("n_layer");
    reveal_strlit("n_embd");
    reveal_strlit("n_head");
    reveal_strlit("aurora_phases");
    reveal_strlit("aurora_blocks");
    reveal_strlit("lr_scale");
    reveal_strlit("adam_lr_scale");
    reveal_strlit("warmup_steps");
    reveal_strlit("start_ratio");
    reveal_strlit("amuse_beta1");
    reveal_strlit("amuse_rho");
    reveal_strlit("log_path");
    reveal_strlit("elapsed_s");
    reveal_with_fuel(join_with, 18);
    assert(header_text() =~= join_with(names, '\t'));
    assert forall|k: int| 0 <= k < names.len() implies lacks(#[trigger] names[k], '\t') by {}
    split_join(names, '\t');
}

} // verus!
