use vstd::prelude::*;
use vstd::string::StringExecFns;

use crate::items::{created_timestamp, item_wf, stack_view, stack_wf, ts_valid, Item, ItemView};
use crate::numfmt::{dec_str_of, usize_to_string};
use crate::output::{labels_distinct, min_len, render_spec, rfc2822_of, OutputFormat};

verus! {

/// The position cell of a listed row: plain decimal in machine
/// formats; in human formats "Now" for the top and numbers padded to
/// line up with it.
pub open spec fn pos_str(i: nat, human: bool) -> Seq<char> {
    if human {
        if i == 0 {
            "Now"@
        } else if i <= 9 {
            "  "@ + dec_str_of(i)
        } else if i <= 99 {
            " "@ + dec_str_of(i)
        } else {
            dec_str_of(i)
        }
    } else {
        dec_str_of(i)
    }
}

/// The created cell of a listed row: the formatted timestamp of the
/// item's "created" history event, or "unknown" if it has none.
pub open spec fn created_cell(item: ItemView) -> Seq<char> {
    match created_timestamp(item.history) {
        Some(ts) => rfc2822_of(ts),
        None => "unknown"@,
    }
}

/// One listed row: position, contents, creation time.
pub open spec fn row_of(i: nat, item: ItemView, human: bool) -> Seq<Seq<char>> {
    seq![pos_str(i, human), item.contents, created_cell(item)]
}

/// The row limit a range listing uses: the requested one, or the whole
/// stack when none was requested.
pub open spec fn effective_limit(len: nat, limit: Option<usize>) -> nat {
    match limit {
        Some(n) => n as nat,
        None => len,
    }
}

/// The first listed position: the requested start, except that a
/// listing from the end starts where exactly the limit remains (or at
/// the top when the limit exceeds the stack).
pub open spec fn effective_start(len: nat, lim: nat, start: usize, from_end: bool) -> nat {
    if from_end {
        if lim <= len {
            (len - lim) as nat
        } else {
            0
        }
    } else {
        start as nat
    }
}

/// How many rows the listing window holds.
pub open spec fn window_count(len: nat, st: nat, lim: nat) -> nat {
    if st <= len {
        min_len(lim, (len - st) as nat)
    } else {
        0
    }
}

/// The rows a range listing emits: the window of items in reversed
/// order (position 0 is the most recent, i.e. the last item).
pub open spec fn list_rows(
    s: Seq<ItemView>,
    start: usize,
    limit: Option<usize>,
    from_end: bool,
    human: bool,
) -> Seq<Seq<Seq<char>>> {
    let len = s.len();
    let lim = effective_limit(len, limit);
    let st = effective_start(len, lim, start, from_end);
    Seq::new(
        window_count(len, st, lim),
        |k: int| row_of((st + k) as nat, s[len - 1 - (st + k)], human),
    )
}

/// The labels of a range listing.
pub open spec fn list_labels() -> Seq<Seq<char>> {
    seq!["position"@, "item"@, "created"@]
}

/// The row shown in human formats when there is nothing to list.
pub open spec fn placeholder_row() -> Seq<Seq<char>> {
    seq!["Now"@, "NOTHING"@]
}

/// The lines a range listing prints: nothing under Silent; with an
/// empty window the placeholder row in human formats and nothing in
/// the others; otherwise the rendered rows.
pub open spec fn list_lines(
    s: Seq<ItemView>,
    start: usize,
    limit: Option<usize>,
    from_end: bool,
    fmt: OutputFormat,
) -> Seq<Seq<char>> {
    if fmt is Silent {
        Seq::empty()
    } else {
        let rows = list_rows(s, start, limit, from_end, fmt is Human);
        if rows.len() == 0 {
            if fmt is Human {
                render_spec(fmt, list_labels(), seq![placeholder_row()])
            } else {
                Seq::empty()
            }
        } else {
            render_spec(fmt, list_labels(), rows)
        }
    }
}

/// If a history holds a "created" event, its timestamp is one of the
/// history's timestamps.
proof fn lemma_created_in_history(h: Seq<(Seq<char>, i64)>)
    ensures
        created_timestamp(h) matches Some(ts)
            ==> exists|k: int| 0 <= k < h.len() && #[trigger] h[k].1 == ts,
    decreases h.len(),
{
    if h.len() > 0 && !(h[0].0 == "created"@) {
        lemma_created_in_history(h.skip(1));
        if created_timestamp(h) is Some {
            let ts = created_timestamp(h)->0;
            let k = choose|k: int| 0 <= k < h.skip(1).len() && #[trigger] h.skip(1)[k].1 == ts;
            assert(h[k + 1].1 == ts);
        }
    }
}

/// The position cell as an owned string.
fn pos_string(i: usize, human: bool) -> (s: String)
    ensures
        s@ == pos_str(i as nat, human),
{
    if human {
        if i == 0 {
            String::from_str("Now")
        } else if i <= 9 {
            let mut s = String::from_str("  ");
            let num = usize_to_string(i);
            s.append(num.as_str());
            s
        } else if i <= 99 {
            let mut s = String::from_str(" ");
            let num = usize_to_string(i);
            s.append(num.as_str());
            s
        } else {
            usize_to_string(i)
        }
    } else {
        usize_to_string(i)
    }
}

/// The labels of a range listing, as a vector.
fn list_label_vec() -> (labels: Vec<String>)
    ensures
        labels.deep_view() == list_labels(),
        labels_distinct(labels.deep_view()),
{
    let labels = vec![
        String::from_str("position"),
        String::from_str("item"),
        String::from_str("created"),
    ];
    proof {
        reveal_strlit("position");
        reveal_strlit("item");
        reveal_strlit("created");
        assert(labels.deep_view() =~= list_labels());
        assert("position"@.len() == 8);
        assert("item"@.len() == 4);
        assert("created"@.len() == 7);
        assert(labels.deep_view()[0] == "position"@);
        assert(labels.deep_view()[1] == "item"@);
        assert(labels.deep_view()[2] == "created"@);
    }
    labels
}

/// List a window of the stack's items, most recent first: the shared
/// logic of ListAll, Head and Tail.
pub fn list_range(
    items: &Vec<Item>,
    start: usize,
    limit: Option<usize>,
    from_end: bool,
    output: OutputFormat,
) -> (lines: Vec<String>)
    requires
        stack_wf(stack_view(items@)),
    ensures
        lines.deep_view() == list_lines(stack_view(items@), start, limit, from_end, output),
{
    let ghost sv = stack_view(items@);
    if let OutputFormat::Silent = output {
        let lines: Vec<String> = Vec::new();
        proof {
            assert(lines.deep_view() =~= Seq::<Seq<char>>::empty());
        }
        return lines;
    }
    let human = match output {
        OutputFormat::Human(_) => true,
        _ => false,
    };
    let len = items.len();
    let lim = match limit {
        Some(n) => n,
        None => len,
    };
    let st = if from_end {
        if lim <= len {
            len - lim
        } else {
            0
        }
    } else {
        start
    };
    let count = if st <= len {
        if lim <= len - st {
            lim
        } else {
            len - st
        }
    } else {
        0
    };
    let ghost spec_rows = list_rows(sv, start, limit, from_end, human);
    proof {
        assert(spec_rows.len() == count);
    }
    let mut rows: Vec<Vec<String>> = Vec::new();
    let mut k: usize = 0;
    while k < count
        invariant
            0 <= k <= count,
            sv == stack_view(items@),
            stack_wf(sv),
            len == items@.len(),
            st == effective_start(sv.len(), effective_limit(sv.len(), limit), start, from_end),
            count == window_count(sv.len(), st as nat, effective_limit(sv.len(), limit)),
            count == 0 || st + count <= len,
            spec_rows == list_rows(sv, start, limit, from_end, human),
            spec_rows.len() == count,
            rows@.len() == k,
            forall|t: int| 0 <= t < k ==> rows.deep_view()[t] == #[trigger] spec_rows[t],
        decreases count - k,
    {
        let i = st + k;
        let j = len - 1 - i;
        let pos = pos_string(i, human);
        let contents = items[j].contents.clone();
        let created = match items[j].created_at() {
            Some(ts) => {
                proof {
                    lemma_created_in_history(items@[j as int]@.history);
                    assert(item_wf(sv[j as int]));
                    assert(sv[j as int] == items@[j as int]@);
                }
                output.format_time(ts)
            },
            None => String::from_str("unknown"),
        };
        let row = vec![pos, contents, created];
        proof {
            assert(row.deep_view() =~= row_of(i as nat, sv[j as int], human));
            assert(sv[j as int] == items@[j as int]@);
            assert(spec_rows[k as int] == row_of((st + k) as nat, sv[len - 1 - (st + k)], human));
        }
        rows.push(row);
        proof {
            assert(rows.deep_view()[k as int] == row.deep_view());
            assert(forall|t: int| 0 <= t < k
                ==> rows.deep_view()[t] == #[trigger] rows@[t].deep_view());
        }
        k = k + 1;
    }
    let labels = list_label_vec();
    if rows.len() == 0 {
        if human {
            let placeholder = vec![vec![String::from_str("Now"), String::from_str("NOTHING")]];
            let lines = output.log(&labels, &placeholder);
            proof {
                assert(placeholder.deep_view() =~~= seq![placeholder_row()]);
            }
            lines
        } else {
            let lines: Vec<String> = Vec::new();
            proof {
                assert(lines.deep_view() =~= Seq::<Seq<char>>::empty());
            }
            lines
        }
    } else {
        let lines = output.log(&labels, &rows);
        proof {
            assert(rows.deep_view() =~= spec_rows);
        }
        lines
    }
}

/// The labels of Peek.
pub open spec fn peek_labels() -> Seq<Seq<char>> {
    seq!["position"@, "item"@]
}

/// The lines Peek prints: nothing under Silent; the top item's
/// contents under "Now" when the stack is non-empty; on an empty stack
/// the placeholder row in human formats, and zero rendered rows (the
/// labels alone, or an empty array) in the others.
pub open spec fn peek_lines(s: Seq<ItemView>, fmt: OutputFormat) -> Seq<Seq<char>> {
    if fmt is Silent {
        Seq::empty()
    } else if s.len() > 0 {
        render_spec(fmt, peek_labels(), seq![seq!["Now"@, s.last().contents]])
    } else if fmt is Human {
        render_spec(fmt, peek_labels(), seq![placeholder_row()])
    } else {
        render_spec(fmt, peek_labels(), Seq::empty())
    }
}

/// The labels of Peek, as a vector.
fn peek_label_vec() -> (labels: Vec<String>)
    ensures
        labels.deep_view() == peek_labels(),
        labels_distinct(labels.deep_view()),
{
    let labels = vec![String::from_str("position"), String::from_str("item")];
    proof {
        reveal_strlit("position");
        reveal_strlit("item");
        assert(labels.deep_view() =~= peek_labels());
        assert("position"@.len() == 8);
        assert("item"@.len() == 4);
        assert(labels.deep_view()[0] == "position"@);
        assert(labels.deep_view()[1] == "item"@);
    }
    labels
}

/// Look at the most-recent item.
pub struct Peek {
    pub stack: String,
}

impl Peek {
    /// The lines Peek prints for the loaded stack.
    pub fn run(&self, items: &Vec<Item>, output: OutputFormat) -> (lines: Vec<String>)
        ensures
            lines.deep_view() == peek_lines(stack_view(items@), output),
    {
        let ghost sv = stack_view(items@);
        if let OutputFormat::Silent = output {
            let lines: Vec<String> = Vec::new();
            proof {
                assert(lines.deep_view() =~= Seq::<Seq<char>>::empty());
            }
            return lines;
        }
        let labels = peek_label_vec();
        if items.len() > 0 {
            let top = items[items.len() - 1].contents.clone();
            let rows = vec![vec![String::from_str("Now"), top]];
            proof {
                assert(sv.last() == items@[items@.len() - 1]@);
                assert(rows.deep_view() =~~= seq![seq!["Now"@, sv.last().contents]]);
            }
            output.log(&labels, &rows)
        } else {
            match output {
                OutputFormat::Human(_) => {
                    let rows = vec![vec![String::from_str("Now"), String::from_str("NOTHING")]];
                    proof {
                        assert(rows.deep_view() =~~= seq![placeholder_row()]);
                    }
                    output.log(&labels, &rows)
                },
                _ => {
                    let rows: Vec<Vec<String>> = Vec::new();
                    proof {
                        assert(rows.deep_view() =~= Seq::<Seq<Seq<char>>>::empty());
                    }
                    output.log(&labels, &rows)
                },
            }
        }
    }
}

/// List the stack's items.
pub struct ListAll {
    pub stack: String,
}

impl ListAll {
    /// Every item, most recent first.
    pub fn run(&self, items: &Vec<Item>, output: OutputFormat) -> (lines: Vec<String>)
        requires
            stack_wf(stack_view(items@)),
        ensures
            lines.deep_view() == list_lines(stack_view(items@), 0, None, false, output),
    {
        list_range(items, 0, None, false, output)
    }
}

/// How many items Head and Tail list when no count is requested.
pub const DEFAULT_LIST_LIMIT: usize = 10;

/// The limit Head and Tail use: the requested count, or the default.
pub open spec fn requested_limit(n: Option<usize>) -> usize {
    match n {
        Some(k) => k,
        None => DEFAULT_LIST_LIMIT,
    }
}

/// List the first N stack items.
pub struct Head {
    pub stack: String,
    pub n: Option<usize>,
}

impl Head {
    /// The N most-recent items, most recent first.
    pub fn run(&self, items: &Vec<Item>, output: OutputFormat) -> (lines: Vec<String>)
        requires
            stack_wf(stack_view(items@)),
        ensures
            lines.deep_view() == list_lines(
                stack_view(items@),
                0,
                Some(requested_limit(self.n)),
                false,
                output,
            ),
    {
        let lim = match self.n {
            Some(k) => k,
            None => DEFAULT_LIST_LIMIT,
        };
        list_range(items, 0, Some(lim), false, output)
    }
}

/// List the last N stack items.
pub struct Tail {
    pub stack: String,
    pub n: Option<usize>,
}

impl Tail {
    /// The N least-recent items, in the order ListAll would show them.
    pub fn run(&self, items: &Vec<Item>, output: OutputFormat) -> (lines: Vec<String>)
        requires
            stack_wf(stack_view(items@)),
        ensures
            lines.deep_view() == list_lines(
                stack_view(items@),
                0,
                Some(requested_limit(self.n)),
                true,
                output,
            ),
    {
        let lim = match self.n {
            Some(k) => k,
            None => DEFAULT_LIST_LIMIT,
        };
        list_range(items, 0, Some(lim), true, output)
    }
}

/// The lines Count prints: one row holding the item count in decimal,
/// and nothing under Silent.
pub open spec fn count_lines(s: Seq<ItemView>, fmt: OutputFormat) -> Seq<Seq<char>> {
    if fmt is Silent {
        Seq::empty()
    } else {
        render_spec(fmt, seq!["items"@], seq![seq![dec_str_of(s.len())]])
    }
}

/// Count the stack's items.
pub struct Count {
    pub stack: String,
}

impl Count {
    /// One row with the number of items.
    pub fn run(&self, items: &Vec<Item>, output: OutputFormat) -> (lines: Vec<String>)
        ensures
            lines.deep_view() == count_lines(stack_view(items@), output),
    {
        let ghost sv = stack_view(items@);
        if let OutputFormat::Silent = output {
            let lines: Vec<String> = Vec::new();
            proof {
                assert(lines.deep_view() =~= Seq::<Seq<char>>::empty());
            }
            return lines;
        }
        let labels = vec![String::from_str("items")];
        let num = usize_to_string(items.len());
        let rows = vec![vec![num]];
        proof {
            assert(labels.deep_view() =~= seq!["items"@]);
            assert(rows.deep_view() =~~= seq![seq![dec_str_of(sv.len())]]);
        }
        output.log(&labels, &rows)
    }
}

/// The exit code IsEmpty asks the process to end with: 1 when items
/// exist (the shell-scripting signal for "not empty"), 0 otherwise.
pub open spec fn isempty_code(s: Seq<ItemView>) -> u8 {
    if s.len() > 0 {
        1
    } else {
        0
    }
}

/// The lines IsEmpty prints: one row "false" when items exist, else
/// one row "true"; Silent renders neither.
pub open spec fn isempty_lines(s: Seq<ItemView>, fmt: OutputFormat) -> Seq<Seq<char>> {
    if s.len() > 0 {
        render_spec(fmt, seq!["empty"@], seq![seq!["false"@]])
    } else {
        render_spec(fmt, seq!["empty"@], seq![seq!["true"@]])
    }
}

/// Determine if the stack is empty or not.
pub struct IsEmpty {
    pub stack: String,
}

impl IsEmpty {
    /// The lines to print and the exit code to end the process with:
    /// the code is 1 exactly when the stack holds items, 0 when it is
    /// empty — the documented shell-scripting contract.
    pub fn run(&self, items: &Vec<Item>, output: OutputFormat) -> (r: (Vec<String>, u8))
        ensures
            r.0.deep_view() == isempty_lines(stack_view(items@), output),
            r.1 == isempty_code(stack_view(items@)),
            r.1 == 1 <==> stack_view(items@).len() > 0,
    {
        let ghost sv = stack_view(items@);
        let labels = vec![String::from_str("empty")];
        proof {
            assert(labels.deep_view() =~= seq!["empty"@]);
        }
        if items.len() > 0 {
            let rows = vec![vec![String::from_str("false")]];
            proof {
                assert(rows.deep_view() =~~= seq![seq!["false"@]]);
            }
            (output.log(&labels, &rows), 1)
        } else {
            let rows = vec![vec![String::from_str("true")]];
            proof {
                assert(rows.deep_view() =~~= seq![seq!["true"@]]);
            }
            (output.log(&labels, &rows), 0)
        }
    }
}

/// Head lists exactly the first n rows of ListAll's output, and Tail
/// exactly the last n, whenever n does not exceed the stack size.
pub proof fn lemma_head_tail_of_list_all(s: Seq<ItemView>, n: usize, human: bool)
    requires
        n <= s.len(),
    ensures
        list_rows(s, 0, Some(n), false, human) == list_rows(s, 0, None, false, human).take(n as int),
        list_rows(s, 0, Some(n), true, human) == list_rows(s, 0, None, false, human).skip(
            s.len() - n,
        ),
{
    assert(list_rows(s, 0, Some(n), false, human)
        =~= list_rows(s, 0, None, false, human).take(n as int));
    assert(list_rows(s, 0, Some(n), true, human)
        =~= list_rows(s, 0, None, false, human).skip(s.len() - n));
}

/// ListAll emits one row per item: the number Count prints always
/// equals the length of ListAll's row list.
pub proof fn lemma_count_matches_list_all(s: Seq<ItemView>, human: bool)
    ensures
        list_rows(s, 0, None, false, human).len() == s.len(),
{
}

/// IsEmpty ends the process with exit code 1 exactly when the count
/// Count reports is positive.
pub proof fn lemma_isempty_signals_positive_count(s: Seq<ItemView>)
    ensures
        isempty_code(s) == 1 <==> list_rows(s, 0, None, false, true).len() > 0,
{
}

} // verus!

