use sigi::items::{HistoryEntry, Item};
use sigi::output::{NoiseLevel, OutputFormat};
use sigi::views::{Count, Head, IsEmpty, ListAll, Peek, Tail};

const EPOCH_RFC2822: &str = "Thu, 1 Jan 1970 00:00:00 +0000";

fn item(text: &str) -> Item {
    Item {
        contents: text.to_string(),
        history: vec![HistoryEntry {
            status: "created".to_string(),
            at: 0,
        }],
    }
}

fn stack(names: &[&str]) -> Vec<Item> {
    names.iter().map(|n| item(n)).collect()
}

#[test]
fn peek_shows_the_most_recent_item() {
    let items = stack(&["A", "B", "C"]);
    let lines = Peek {
        stack: "test".to_string(),
    }
    .run(&items, OutputFormat::Human(NoiseLevel::Normal));
    assert_eq!(lines, vec!["Now: C"]);
}

#[test]
fn peek_on_empty_stack_shows_the_placeholder_in_human_format() {
    let items = stack(&[]);
    let lines = Peek {
        stack: "test".to_string(),
    }
    .run(&items, OutputFormat::Human(NoiseLevel::Normal));
    assert_eq!(lines, vec!["Now: NOTHING"]);
}

#[test]
fn peek_on_empty_stack_emits_zero_rows_in_csv() {
    let items = stack(&[]);
    let lines = Peek {
        stack: "test".to_string(),
    }
    .run(&items, OutputFormat::Csv);
    assert_eq!(lines, vec!["position,item"]);
}

#[test]
fn peek_produces_nothing_under_silent() {
    let items = stack(&["A"]);
    let lines = Peek {
        stack: "test".to_string(),
    }
    .run(&items, OutputFormat::Silent);
    assert!(lines.is_empty());
}

#[test]
fn list_all_lists_every_item_most_recent_first() {
    let items = stack(&["A", "B", "C"]);
    let lines = ListAll {
        stack: "test".to_string(),
    }
    .run(&items, OutputFormat::Csv);
    assert_eq!(
        lines,
        vec![
            "position,item,created".to_string(),
            format!("0,C,{}", EPOCH_RFC2822),
            format!("1,B,{}", EPOCH_RFC2822),
            format!("2,A,{}", EPOCH_RFC2822),
        ]
    );
}

#[test]
fn list_all_on_empty_stack_prints_nothing_in_csv() {
    let items = stack(&[]);
    let lines = ListAll {
        stack: "test".to_string(),
    }
    .run(&items, OutputFormat::Csv);
    assert!(lines.is_empty());
}

#[test]
fn list_all_on_empty_stack_shows_the_placeholder_in_human_format() {
    let items = stack(&[]);
    let lines = ListAll {
        stack: "test".to_string(),
    }
    .run(&items, OutputFormat::Human(NoiseLevel::Normal));
    assert_eq!(lines, vec!["Now: NOTHING"]);
}

#[test]
fn head_lists_a_prefix_of_list_all() {
    let items = stack(&["A", "B", "C", "D"]);
    let all = ListAll {
        stack: "test".to_string(),
    }
    .run(&items, OutputFormat::Csv);
    let first_two = Head {
        stack: "test".to_string(),
        n: Some(2),
    }
    .run(&items, OutputFormat::Csv);
    assert_eq!(first_two.len(), 3);
    assert_eq!(first_two[0], all[0]);
    assert_eq!(&first_two[1..], &all[1..3]);
}

#[test]
fn tail_lists_a_suffix_of_list_all() {
    let items = stack(&["A", "B", "C", "D"]);
    let all = ListAll {
        stack: "test".to_string(),
    }
    .run(&items, OutputFormat::Csv);
    let last_two = Tail {
        stack: "test".to_string(),
        n: Some(2),
    }
    .run(&items, OutputFormat::Csv);
    assert_eq!(last_two.len(), 3);
    assert_eq!(last_two[0], all[0]);
    assert_eq!(&last_two[1..], &all[3..5]);
}

#[test]
fn head_defaults_to_ten_items() {
    let names: Vec<String> = (0..12).map(|k| format!("i{}", k)).collect();
    let name_refs: Vec<&str> = names.iter().map(|s| s.as_str()).collect();
    let items = stack(&name_refs);
    let lines = Head {
        stack: "test".to_string(),
        n: None,
    }
    .run(&items, OutputFormat::Csv);
    assert_eq!(lines.len(), 11);
    assert_eq!(lines[1], format!("0,i11,{}", EPOCH_RFC2822));
    assert_eq!(lines[10], format!("9,i2,{}", EPOCH_RFC2822));
}

#[test]
fn tail_larger_than_the_stack_lists_everything() {
    let items = stack(&["A", "B"]);
    let lines = Tail {
        stack: "test".to_string(),
        n: Some(5),
    }
    .run(&items, OutputFormat::Csv);
    assert_eq!(lines.len(), 3);
    assert_eq!(lines[1], format!("0,B,{}", EPOCH_RFC2822));
    assert_eq!(lines[2], format!("1,A,{}", EPOCH_RFC2822));
}

#[test]
fn human_positions_pad_to_line_up_with_now() {
    let names: Vec<String> = (0..12).map(|k| format!("i{}", k)).collect();
    let name_refs: Vec<&str> = names.iter().map(|s| s.as_str()).collect();
    let items = stack(&name_refs);
    let lines = ListAll {
        stack: "test".to_string(),
    }
    .run(&items, OutputFormat::Human(NoiseLevel::Normal));
    assert_eq!(lines[0], "Now: i11");
    assert_eq!(lines[1], "  1: i10");
    assert_eq!(lines[9], "  9: i2");
    assert_eq!(lines[10], " 10: i1");
    assert_eq!(lines[11], " 11: i0");
}

#[test]
fn verbose_human_rows_spell_out_the_remaining_cells() {
    let items = stack(&["hi"]);
    let lines = ListAll {
        stack: "test".to_string(),
    }
    .run(&items, OutputFormat::Human(NoiseLevel::Verbose));
    assert_eq!(lines, vec![format!("Now: hi ({})", EPOCH_RFC2822)]);
}

#[test]
fn quiet_human_rows_print_only_the_item() {
    let items = stack(&["A", "B"]);
    let lines = ListAll {
        stack: "test".to_string(),
    }
    .run(&items, OutputFormat::Human(NoiseLevel::Quiet));
    assert_eq!(lines, vec!["B", "A"]);
}

#[test]
fn items_without_a_created_event_render_unknown() {
    let items = vec![Item {
        contents: "odd".to_string(),
        history: vec![HistoryEntry {
            status: "touched".to_string(),
            at: 5,
        }],
    }];
    let lines = ListAll {
        stack: "test".to_string(),
    }
    .run(&items, OutputFormat::Csv);
    assert_eq!(lines[1], "0,odd,unknown");
}

#[test]
fn created_at_finds_the_first_created_event() {
    let it = Item {
        contents: "x".to_string(),
        history: vec![
            HistoryEntry {
                status: "touched".to_string(),
                at: 3,
            },
            HistoryEntry {
                status: "created".to_string(),
                at: 7,
            },
        ],
    };
    assert_eq!(it.created_at(), Some(7));
}

#[test]
fn tab_separated_output_joins_with_tabs() {
    let items = stack(&["A"]);
    let lines = ListAll {
        stack: "test".to_string(),
    }
    .run(&items, OutputFormat::Tsv);
    assert_eq!(
        lines,
        vec![
            "position\titem\tcreated".to_string(),
            format!("0\tA\t{}", EPOCH_RFC2822),
        ]
    );
}

#[test]
fn compact_json_maps_labels_to_cells_in_order() {
    let items = stack(&["hi"]);
    let lines = ListAll {
        stack: "test".to_string(),
    }
    .run(&items, OutputFormat::JsonCompact);
    assert_eq!(
        lines,
        vec![format!(
            "[{{\"position\":\"0\",\"item\":\"hi\",\"created\":\"{}\"}}]",
            EPOCH_RFC2822
        )]
    );
}

#[test]
fn pretty_json_indents_with_two_spaces() {
    let items = stack(&["hi"]);
    let lines = ListAll {
        stack: "test".to_string(),
    }
    .run(&items, OutputFormat::Json);
    let expected = format!(
        "[\n  {{\n    \"position\": \"0\",\n    \"item\": \"hi\",\n    \"created\": \"{}\"\n  }}\n]",
        EPOCH_RFC2822
    );
    assert_eq!(lines, vec![expected]);
}

#[test]
fn peek_on_empty_stack_emits_an_empty_json_array() {
    let items = stack(&[]);
    let lines = Peek {
        stack: "test".to_string(),
    }
    .run(&items, OutputFormat::JsonCompact);
    assert_eq!(lines, vec!["[]"]);
}

#[test]
fn count_reports_the_number_of_items() {
    let items = stack(&["A", "B", "C", "D"]);
    let lines = Count {
        stack: "test".to_string(),
    }
    .run(&items, OutputFormat::Csv);
    assert_eq!(lines, vec!["items", "4"]);
}

#[test]
fn count_equals_the_number_of_rows_list_all_emits() {
    let items = stack(&["A", "B", "C"]);
    let all = ListAll {
        stack: "test".to_string(),
    }
    .run(&items, OutputFormat::Csv);
    let count = Count {
        stack: "test".to_string(),
    }
    .run(&items, OutputFormat::Csv);
    assert_eq!(count[1], (all.len() - 1).to_string());
}

#[test]
fn count_of_twelve_renders_two_digits() {
    let names: Vec<String> = (0..12).map(|k| format!("i{}", k)).collect();
    let name_refs: Vec<&str> = names.iter().map(|s| s.as_str()).collect();
    let items = stack(&name_refs);
    let lines = Count {
        stack: "test".to_string(),
    }
    .run(&items, OutputFormat::Human(NoiseLevel::Normal));
    assert_eq!(lines, vec!["12"]);
}

#[test]
fn count_is_skipped_entirely_under_silent() {
    let items = stack(&["A"]);
    let lines = Count {
        stack: "test".to_string(),
    }
    .run(&items, OutputFormat::Silent);
    assert!(lines.is_empty());
}

#[test]
fn is_empty_signals_exit_one_exactly_when_items_exist() {
    let full = stack(&["A"]);
    let (lines, code) = IsEmpty {
        stack: "test".to_string(),
    }
    .run(&full, OutputFormat::Csv);
    assert_eq!(code, 1);
    assert_eq!(lines, vec!["empty", "false"]);

    let empty = stack(&[]);
    let (lines, code) = IsEmpty {
        stack: "test".to_string(),
    }
    .run(&empty, OutputFormat::Csv);
    assert_eq!(code, 0);
    assert_eq!(lines, vec!["empty", "true"]);
}

#[test]
fn is_empty_exit_code_matches_a_positive_count() {
    for names in [vec![], vec!["A"], vec!["A", "B"]] {
        let items = stack(&names);
        let count_lines = Count {
            stack: "test".to_string(),
        }
        .run(&items, OutputFormat::Csv);
        let count: usize = count_lines[1].parse().unwrap();
        let (_, code) = IsEmpty {
            stack: "test".to_string(),
        }
        .run(&items, OutputFormat::Silent);
        assert_eq!(code == 1, count > 0);
    }
}

#[test]
fn is_empty_still_signals_under_silent_without_output() {
    let items = stack(&["A"]);
    let (lines, code) = IsEmpty {
        stack: "test".to_string(),
    }
    .run(&items, OutputFormat::Silent);
    assert!(lines.is_empty());
    assert_eq!(code, 1);
}

#[test]
fn format_time_renders_rfc2822() {
    assert_eq!(OutputFormat::Csv.format_time(0), EPOCH_RFC2822);
    assert_eq!(
        OutputFormat::Csv.format_time(1431648000),
        "Fri, 15 May 2015 00:00:00 +0000"
    );
}

#[test]
fn stack_files_live_under_the_home_directory() {
    assert_eq!(
        sigi::paths::sigi_file("/home/u", "groceries"),
        "/home/u/.local/share/sigi/groceries.json"
    );
    assert_eq!(sigi::paths::sigi_path("/home/u"), "/home/u/.local/share/sigi");
}
