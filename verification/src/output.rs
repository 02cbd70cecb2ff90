use vstd::prelude::*;
use vstd::string::StringExecFns;

use crate::items::ts_valid;
use crate::jsonval::{
    json_compact_of, json_is_string_object, json_new_object, json_obj_entries, json_pretty_of,
    json_set, json_stringify, json_stringify_pretty,
};

verus! {

/// How much noise (verbosity) should be used when printing to standard output.
#[derive(Clone, Copy, PartialEq, Eq, Structural, Debug)]
pub enum NoiseLevel {
    Verbose,
    Normal,
    Quiet,
}

/// Output formats supported by the stack manager.
#[derive(Clone, Copy, PartialEq, Eq, Structural, Debug)]
pub enum OutputFormat {
    /// Comma-separated values.
    Csv,
    /// Human readable formats. Accepts a "noise level" for how much to output.
    Human(NoiseLevel),
    /// JSON, pretty-printed with newlines and two-space indentation.
    Json,
    /// JSON with no newlines or indentation.
    JsonCompact,
    /// Print nothing at all.
    Silent,
    /// Tab-separated values.
    Tsv,
}

/// The cells of a sequence of strings joined with a separator.
pub open spec fn join_spec(cells: Seq<Seq<char>>, sep: Seq<char>) -> Seq<char>
    decreases cells.len(),
{
    if cells.len() == 0 {
        Seq::empty()
    } else if cells.len() == 1 {
        cells[0]
    } else {
        join_spec(cells.drop_last(), sep) + sep + cells.last()
    }
}

/// The line a single row prints as under a human noise level, if any:
/// Verbose spells out every cell, Normal the first two, Quiet only the
/// second.
pub open spec fn human_line(noise: NoiseLevel, row: Seq<Seq<char>>) -> Option<Seq<char>> {
    match noise {
        NoiseLevel::Verbose => if row.len() == 0 {
            None
        } else if row.len() == 1 {
            Some(row[0])
        } else if row.len() == 2 {
            Some(row[0] + ": "@ + row[1])
        } else {
            Some(row[0] + ": "@ + row[1] + " ("@ + join_spec(row.skip(2), ", "@) + ")"@)
        },
        NoiseLevel::Normal => if row.len() >= 2 {
            Some(row[0] + ": "@ + row[1])
        } else if row.len() == 1 {
            Some(row[0])
        } else {
            None
        },
        NoiseLevel::Quiet => if row.len() >= 2 {
            Some(row[1])
        } else {
            None
        },
    }
}

/// The lines a sequence of rows prints as under a human noise level;
/// rows that print nothing contribute no line.
pub open spec fn human_lines(noise: NoiseLevel, rows: Seq<Seq<Seq<char>>>) -> Seq<Seq<char>>
    decreases rows.len(),
{
    if rows.len() == 0 {
        Seq::empty()
    } else {
        let rest = human_lines(noise, rows.drop_last());
        match human_line(noise, rows.last()) {
            Some(l) => rest.push(l),
            None => rest,
        }
    }
}

/// The smaller of two lengths.
pub open spec fn min_len(a: nat, b: nat) -> nat {
    if a <= b {
        a
    } else {
        b
    }
}

/// One row as JSON object entries: each label paired with its
/// positional cell; a row shorter than the labels omits trailing keys,
/// and labels beyond the row are dropped.
pub open spec fn zip_row(labels: Seq<Seq<char>>, row: Seq<Seq<char>>) -> Seq<(Seq<char>, Seq<char>)> {
    Seq::new(min_len(labels.len(), row.len()), |j: int| (labels[j], row[j]))
}

/// All rows as JSON object entries.
pub open spec fn zip_rows(labels: Seq<Seq<char>>, rows: Seq<Seq<Seq<char>>>) -> Seq<Seq<(Seq<char>, Seq<char>)>> {
    rows.map_values(|r: Seq<Seq<char>>| zip_row(labels, r))
}

/// No two labels are the same: the column labels form a set.
pub open spec fn labels_distinct(labels: Seq<Seq<char>>) -> bool {
    forall|i: int, j: int| 0 <= i < j < labels.len() ==> labels[i] != labels[j]
}

/// The lines that rendering labeled rows in a format prints, in order:
/// CSV and TSV print a label line and then one joined line per row;
/// the JSON formats print one line holding the whole serialized array;
/// the human formats print per-row lines; Silent prints nothing.
pub open spec fn render_spec(fmt: OutputFormat, labels: Seq<Seq<char>>, rows: Seq<Seq<Seq<char>>>) -> Seq<Seq<char>> {
    match fmt {
        OutputFormat::Silent => Seq::empty(),
        OutputFormat::Csv => seq![join_spec(labels, ","@)]
            + rows.map_values(|r: Seq<Seq<char>>| join_spec(r, ","@)),
        OutputFormat::Tsv => seq![join_spec(labels, "\t"@)]
            + rows.map_values(|r: Seq<Seq<char>>| join_spec(r, "\t"@)),
        OutputFormat::Json => seq![json_pretty_of(zip_rows(labels, rows), 2)],
        OutputFormat::JsonCompact => seq![json_compact_of(zip_rows(labels, rows))],
        OutputFormat::Human(noise) => human_lines(noise, rows),
    }
}

/// The cells of a vector of strings from index `from` on, joined with a
/// separator.
fn join_from(cells: &Vec<String>, from: usize, sep: &str) -> (r: String)
    requires
        from <= cells.len(),
    ensures
        r@ == join_spec(cells.deep_view().skip(from as int), sep@),
{
    let ghost all = cells.deep_view();
    if from >= cells.len() {
        proof {
            assert(all.skip(from as int).len() == 0);
        }
        return String::new();
    }
    let mut r = cells[from].clone();
    let mut i: usize = from + 1;
    proof {
        assert(all.subrange(from as int, from + 1) =~= seq![all[from as int]]);
    }
    while i < cells.len()
        invariant
            from < i <= cells.len(),
            all == cells.deep_view(),
            r@ == join_spec(all.subrange(from as int, i as int), sep@),
        decreases cells.len() - i,
    {
        let mut piece = String::from_str(sep);
        piece.append(cells[i].as_str());
        r.append(piece.as_str());
        proof {
            let prev = all.subrange(from as int, i as int);
            let cur = all.subrange(from as int, i + 1);
            assert(cur.drop_last() =~= prev);
            assert(cur.last() == all[i as int]);
        }
        i = i + 1;
    }
    proof {
        assert(all.subrange(from as int, cells.len() as int) =~= all.skip(from as int));
    }
    r
}

/// The label line and one line per row, cells joined with a separator.
fn render_sep(labels: &Vec<String>, values: &Vec<Vec<String>>, sep: &str) -> (lines: Vec<String>)
    ensures
        lines.deep_view() == seq![join_spec(labels.deep_view(), sep@)]
            + values.deep_view().map_values(|r: Seq<Seq<char>>| join_spec(r, sep@)),
{
    let ghost rows = values.deep_view();
    let mut lines: Vec<String> = Vec::new();
    let head = join_from(labels, 0, sep);
    proof {
        assert(labels.deep_view().skip(0) =~= labels.deep_view());
    }
    lines.push(head);
    let mut i: usize = 0;
    while i < values.len()
        invariant
            0 <= i <= values.len(),
            rows == values.deep_view(),
            lines@.len() == i + 1,
            lines.deep_view()[0] == join_spec(labels.deep_view(), sep@),
            forall|k: int| 0 <= k < i
                ==> lines.deep_view()[k + 1] == join_spec(#[trigger] rows[k], sep@),
        decreases values.len() - i,
    {
        let line = join_from(&values[i], 0, sep);
        proof {
            assert(values@[i as int].deep_view().skip(0) =~= rows[i as int]);
        }
        lines.push(line);
        proof {
            assert(lines.deep_view()[i + 1] == line@);
            assert(forall|k: int| 0 <= k < i
                ==> lines.deep_view()[k + 1] == #[trigger] lines@[k + 1].deep_view());
        }
        i = i + 1;
    }
    proof {
        assert(lines.deep_view() =~= seq![join_spec(labels.deep_view(), sep@)]
            + rows.map_values(|r: Seq<Seq<char>>| join_spec(r, sep@)));
    }
    lines
}

/// The per-row lines of the human formats.
fn render_human(noise: NoiseLevel, values: &Vec<Vec<String>>) -> (lines: Vec<String>)
    ensures
        lines.deep_view() == human_lines(noise, values.deep_view()),
{
    let ghost rows = values.deep_view();
    let mut lines: Vec<String> = Vec::new();
    let mut i: usize = 0;
    while i < values.len()
        invariant
            0 <= i <= values.len(),
            rows == values.deep_view(),
            lines.deep_view() =~= human_lines(noise, rows.take(i as int)),
        decreases values.len() - i,
    {
        let row = &values[i];
        let ghost rv = rows[i as int];
        proof {
            assert(values@[i as int].deep_view() == rv);
            assert(rows.take(i + 1).drop_last() =~= rows.take(i as int));
            assert(rows.take(i + 1).last() == rv);
        }
        match noise {
            NoiseLevel::Verbose => {
                if row.len() == 0 {
                } else if row.len() == 1 {
                    lines.push(row[0].clone());
                } else if row.len() == 2 {
                    let mut l = row[0].clone();
                    l.append(": ");
                    l.append(row[1].as_str());
                    lines.push(l);
                } else {
                    let mut l = row[0].clone();
                    l.append(": ");
                    l.append(row[1].as_str());
                    l.append(" (");
                    let mid = join_from(row, 2, ", ");
                    l.append(mid.as_str());
                    l.append(")");
                    lines.push(l);
                }
            },
            NoiseLevel::Normal => {
                if row.len() >= 2 {
                    let mut l = row[0].clone();
                    l.append(": ");
                    l.append(row[1].as_str());
                    lines.push(l);
                } else if row.len() == 1 {
                    lines.push(row[0].clone());
                }
            },
            NoiseLevel::Quiet => {
                if row.len() >= 2 {
                    lines.push(row[1].clone());
                }
            },
        }
        i = i + 1;
    }
    proof {
        assert(rows.take(values.len() as int) =~= rows);
    }
    lines
}

/// One JSON object per row, each label mapped to its positional cell.
fn build_objects(labels: &Vec<String>, values: &Vec<Vec<String>>) -> (objs: Vec<json::JsonValue>)
    requires
        labels_distinct(labels.deep_view()),
    ensures
        objs@.map_values(|o: json::JsonValue| json_obj_entries(o))
            == zip_rows(labels.deep_view(), values.deep_view()),
        forall|j: int| 0 <= j < objs@.len() ==> json_is_string_object(#[trigger] objs@[j]),
{
    let ghost keys = labels.deep_view();
    let ghost rows = values.deep_view();
    let mut objs: Vec<json::JsonValue> = Vec::new();
    let mut i: usize = 0;
    while i < values.len()
        invariant
            0 <= i <= values.len(),
            keys == labels.deep_view(),
            rows == values.deep_view(),
            labels_distinct(keys),
            objs@.len() == i,
            forall|k: int| 0 <= k < i
                ==> json_obj_entries(#[trigger] objs@[k]) == zip_row(keys, rows[k]),
            forall|k: int| 0 <= k < i ==> json_is_string_object(#[trigger] objs@[k]),
        decreases values.len() - i,
    {
        let ghost rv = rows[i as int];
        let m = if labels.len() <= values[i].len() {
            labels.len()
        } else {
            values[i].len()
        };
        let mut obj = json_new_object();
        let mut j: usize = 0;
        proof {
            assert(values@[i as int].deep_view() == rv);
            assert(json_obj_entries(obj) =~= zip_row(keys, rv).take(0));
        }
        while j < m
            invariant
                0 <= j <= m,
                m == min_len(keys.len(), rv.len()),
                j <= keys.len(),
                j <= rv.len(),
                keys == labels.deep_view(),
                rows == values.deep_view(),
                rv == values@[i as int].deep_view(),
                i < values.len(),
                labels_distinct(keys),
                json_is_string_object(obj),
                json_obj_entries(obj) =~= zip_row(keys, rv).take(j as int),
            decreases m - j,
        {
            proof {
                assert(forall|k: int|
                    0 <= k < j ==> (#[trigger] zip_row(keys, rv).take(j as int)[k]).0 == keys[k]);
                assert(forall|k: int|
                    0 <= k < j ==> (#[trigger] json_obj_entries(obj)[k]).0 != keys[j as int]);
            }
            json_set(&mut obj, labels[j].as_str(), values[i][j].as_str());
            proof {
                assert(zip_row(keys, rv).take(j + 1)
                    =~= zip_row(keys, rv).take(j as int).push((keys[j as int], rv[j as int])));
            }
            j = j + 1;
        }
        proof {
            assert(zip_row(keys, rv).take(m as int) =~= zip_row(keys, rv));
        }
        objs.push(obj);
        i = i + 1;
    }
    proof {
        assert(objs@.map_values(|o: json::JsonValue| json_obj_entries(o))
            =~= zip_rows(keys, rows));
    }
    objs
}

/// The fixed long-form rendering of a timestamp: what
/// `DateTime::to_rfc2822` returns for this many seconds after the
/// Unix epoch, read as a UTC time.
pub uninterp spec fn rfc2822_of(ts: i64) -> Seq<char>;

impl OutputFormat {
    /// Relies on chrono's DateTime::from_timestamp, which is Some for
    /// every second of years 1970 through 9999, and DateTime::to_rfc2822,
    /// whose result depends on the datetime value alone.
    #[verifier::external_body]
    pub fn format_time(&self, ts: i64) -> (r: String)
        requires
            ts_valid(ts),
        ensures
            r@ == rfc2822_of(ts),
    {
        chrono::DateTime::from_timestamp(ts, 0).unwrap().to_rfc2822()
    }

    /// Render the labeled rows as the lines this format prints, in
    /// order; under Silent there are none.
    pub fn log(&self, labels: &Vec<String>, values: &Vec<Vec<String>>) -> (lines: Vec<String>)
        requires
            labels_distinct(labels.deep_view()),
        ensures
            lines.deep_view() == render_spec(*self, labels.deep_view(), values.deep_view()),
    {
        match self {
            OutputFormat::Silent => Vec::new(),
            OutputFormat::Csv => render_sep(labels, values, ","),
            OutputFormat::Tsv => render_sep(labels, values, "\t"),
            OutputFormat::Human(noise) => render_human(*noise, values),
            OutputFormat::Json => {
                let objs = build_objects(labels, values);
                let text = json_stringify_pretty(objs, 2);
                let lines = vec![text];
                proof {
                    assert(lines.deep_view()
                        =~= render_spec(*self, labels.deep_view(), values.deep_view()));
                }
                lines
            },
            OutputFormat::JsonCompact => {
                let objs = build_objects(labels, values);
                let text = json_stringify(objs);
                let lines = vec![text];
                proof {
                    assert(lines.deep_view()
                        =~= render_spec(*self, labels.deep_view(), values.deep_view()));
                }
                lines
            },
        }
    }
}

} // verus!
