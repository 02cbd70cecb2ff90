use sigi::items::{HistoryEntry, Item};
use sigi::output::{NoiseLevel, OutputFormat};
use sigi::views::list_range;

const EPOCH_RFC2822: &str = "Thu, 1 Jan 1970 00:00:00 +0000";

fn item(text: &str) -> Item {
    Item {
        contents: text.to_string(),
        history: vec![HistoryEntry {
            status: "created".to_string(),
            at: 0,
        }],
    }
}

fn labels(names: &[&str]) -> Vec<String> {
    names.iter().map(|n| n.to_string()).collect()
}

fn row(cells: &[&str]) -> Vec<String> {
    cells.iter().map(|c| c.to_string()).collect()
}

#[test]
fn list_range_windows_the_reversed_items() {
    let items: Vec<Item> = ["A", "B", "C", "D", "E"].iter().map(|n| item(n)).collect();
    let lines = list_range(&items, 1, Some(2), false, OutputFormat::Csv);
    assert_eq!(
        lines,
        vec![
            "position,item,created".to_string(),
            format!("1,D,{}", EPOCH_RFC2822),
            format!("2,C,{}", EPOCH_RFC2822),
        ]
    );
}

#[test]
fn list_range_from_the_end_keeps_list_all_positions() {
    let items: Vec<Item> = ["A", "B", "C"].iter().map(|n| item(n)).collect();
    let lines = list_range(&items, 0, Some(1), true, OutputFormat::Csv);
    assert_eq!(
        lines,
        vec![
            "position,item,created".to_string(),
            format!("2,A,{}", EPOCH_RFC2822),
        ]
    );
}

#[test]
fn list_range_start_beyond_the_stack_lists_nothing() {
    let items: Vec<Item> = ["A"].iter().map(|n| item(n)).collect();
    let lines = list_range(&items, 5, Some(2), false, OutputFormat::Csv);
    assert!(lines.is_empty());
}

#[test]
fn log_is_silent_under_silent() {
    let lines = OutputFormat::Silent.log(&labels(&["a"]), &vec![row(&["x"])]);
    assert!(lines.is_empty());
}

#[test]
fn verbose_rows_of_each_length_print_their_own_shape() {
    let values = vec![
        row(&[]),
        row(&["only"]),
        row(&["k", "v"]),
        row(&["k", "v", "x", "y"]),
    ];
    let lines = OutputFormat::Human(NoiseLevel::Verbose).log(&labels(&["a", "b", "c", "d"]), &values);
    assert_eq!(lines, vec!["only", "k: v", "k: v (x, y)"]);
}

#[test]
fn normal_rows_print_at_most_the_first_two_cells() {
    let values = vec![row(&[]), row(&["solo"]), row(&["k", "v", "extra"])];
    let lines = OutputFormat::Human(NoiseLevel::Normal).log(&labels(&["a", "b", "c"]), &values);
    assert_eq!(lines, vec!["solo", "k: v"]);
}

#[test]
fn quiet_rows_print_only_the_second_cell() {
    let values = vec![row(&["solo"]), row(&["k", "v"])];
    let lines = OutputFormat::Human(NoiseLevel::Quiet).log(&labels(&["a", "b"]), &values);
    assert_eq!(lines, vec!["v"]);
}

#[test]
fn json_rows_shorter_than_the_labels_omit_trailing_keys() {
    let values = vec![row(&["x"]), row(&["y", "z"])];
    let lines = OutputFormat::JsonCompact.log(&labels(&["a", "b"]), &values);
    assert_eq!(lines, vec!["[{\"a\":\"x\"},{\"a\":\"y\",\"b\":\"z\"}]"]);
}

#[test]
fn csv_performs_no_escaping() {
    let values = vec![row(&["ha,s", "comma"])];
    let lines = OutputFormat::Csv.log(&labels(&["a", "b"]), &values);
    assert_eq!(lines, vec!["a,b", "ha,s,comma"]);
}
