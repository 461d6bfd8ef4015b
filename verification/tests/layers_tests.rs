use minecraft_diorama::layers::{
    is_layer_file, layer_number, layer_order, parse_u32, split_lines, LayerFile,
};

fn file(name: &str) -> LayerFile {
    LayerFile { name: name.to_string(), content: String::new() }
}

fn lines(s: &str) -> Vec<String> {
    split_lines(s).iter().map(|l| l.iter().collect()).collect()
}

fn parse(s: &str) -> Option<u32> {
    parse_u32(s)
}

#[test]
fn layer_files_end_in_txt() {
    assert!(is_layer_file("layer1.txt"));
    assert!(is_layer_file("a.txt"));
    assert!(is_layer_file("notes.old.txt"));
    assert!(is_layer_file("..txt"));
    assert!(!is_layer_file(".txt"));
    assert!(!is_layer_file("txt"));
    assert!(!is_layer_file(""));
    assert!(!is_layer_file("layer1.TXT"));
    assert!(!is_layer_file("layer1.txt.bak"));
    assert!(!is_layer_file("layer1.png"));
    assert!(!is_layer_file("layer1txt"));
}

#[test]
fn layer_files_agree_with_path_extension() {
    for name in ["layer1.txt", "a.txt", ".txt", "..txt", "txt", "x.txt.bak", "a.b.txt", "é.txt", "layer"] {
        let by_path = std::path::Path::new(name).extension().map(|e| e == "txt").unwrap_or(false);
        assert_eq!(is_layer_file(name), by_path, "{}", name);
    }
}

#[test]
fn parse_reads_decimal_numbers() {
    assert_eq!(parse("0"), Some(0));
    assert_eq!(parse("7"), Some(7));
    assert_eq!(parse("007"), Some(7));
    assert_eq!(parse("+12"), Some(12));
    assert_eq!(parse("4294967295"), Some(u32::MAX));
    assert_eq!(parse("0000000000004294967295"), Some(u32::MAX));
}

#[test]
fn parse_refuses_what_is_no_number() {
    assert_eq!(parse(""), None);
    assert_eq!(parse("+"), None);
    assert_eq!(parse("-"), None);
    assert_eq!(parse("-1"), None);
    assert_eq!(parse("++1"), None);
    assert_eq!(parse("1+"), None);
    assert_eq!(parse("12a"), None);
    assert_eq!(parse(" 12"), None);
    assert_eq!(parse("1.5"), None);
    assert_eq!(parse("٣"), None);
    assert_eq!(parse("4294967296"), None);
    assert_eq!(parse("99999999999999999999999999"), None);
}

#[test]
fn parse_agrees_with_std() {
    for text in ["0", "42", "+42", "-42", "", "+", "4294967295", "4294967296", "12 ", "１２", "0x10", "00"] {
        assert_eq!(parse(text), text.parse::<u32>().ok(), "{:?}", text);
    }
}

#[test]
fn layer_numbers_come_from_the_name() {
    assert_eq!(layer_number("layer0.txt"), 0);
    assert_eq!(layer_number("layer3.txt"), 3);
    assert_eq!(layer_number("layer12.txt"), 12);
    assert_eq!(layer_number("layer+5.txt"), 5);
    assert_eq!(layer_number("layer007.txt"), 7);
    assert_eq!(layer_number("layer4294967295.txt"), u32::MAX);
}

#[test]
fn layer_number_is_zero_where_the_name_writes_none() {
    assert_eq!(layer_number("layer.txt"), 0);
    assert_eq!(layer_number("layer-1.txt"), 0);
    assert_eq!(layer_number("layer4294967296.txt"), 0);
    assert_eq!(layer_number("layer3b.txt"), 0);
    assert_eq!(layer_number("layer3.old.txt"), 0);
    assert_eq!(layer_number("Layer3.txt"), 0);
    assert_eq!(layer_number("3.txt"), 0);
    assert_eq!(layer_number("base.txt"), 0);
    assert_eq!(layer_number("lay.txt"), 0);
    assert_eq!(layer_number("layer3.png"), 0);
    assert_eq!(layer_number(""), 0);
}

#[test]
fn layers_are_ordered_by_number() {
    let files = vec![file("layer10.txt"), file("layer2.txt"), file("layer1.txt"), file("layer3.txt")];
    assert_eq!(layer_order(&files), vec![2, 1, 3, 0]);
}

#[test]
fn layers_of_one_number_keep_their_order() {
    let files = vec![
        file("layer1.txt"),
        file("b.txt"),
        file("layer0.txt"),
        file("a.txt"),
        file("layer+1.txt"),
        file("layer01.txt"),
    ];
    assert_eq!(layer_order(&files), vec![1, 2, 3, 0, 4, 5]);
}

#[test]
fn other_files_are_no_layers() {
    let files = vec![file("readme.md"), file("layer2.txt"), file("layer1.png"), file("layer1.txt"), file(".txt")];
    assert_eq!(layer_order(&files), vec![3, 1]);
    assert_eq!(layer_order(&vec![file("a.png"), file("b")]), Vec::<usize>::new());
    assert_eq!(layer_order(&Vec::new()), Vec::<usize>::new());
}

#[test]
fn order_agrees_with_a_stable_sort() {
    let names = ["layer5.txt", "x.txt", "layer5.txt", "layer1.txt", "y.txt", "layer3.txt", "layer1.txt"];
    let files: Vec<LayerFile> = names.iter().map(|n| file(n)).collect();
    let mut expected: Vec<usize> = (0..names.len()).collect();
    expected.sort_by_key(|&i| {
        names[i].strip_suffix(".txt").and_then(|s| s.strip_prefix("layer")).and_then(|s| s.parse::<u32>().ok()).unwrap_or(0)
    });
    assert_eq!(layer_order(&files), expected);
}

#[test]
fn text_breaks_at_line_feeds() {
    assert_eq!(lines("ab\ncd"), vec!["ab", "cd"]);
    assert_eq!(lines("ab\ncd\n"), vec!["ab", "cd"]);
    assert_eq!(lines("ab"), vec!["ab"]);
    assert_eq!(lines(""), Vec::<String>::new());
    assert_eq!(lines("\n"), vec![""]);
    assert_eq!(lines("\n\n"), vec!["", ""]);
    assert_eq!(lines("a\n\nb"), vec!["a", "", "b"]);
    assert_eq!(lines("\na"), vec!["", "a"]);
}

#[test]
fn carriage_return_before_a_line_feed_is_dropped() {
    assert_eq!(lines("ab\r\ncd\r\n"), vec!["ab", "cd"]);
    assert_eq!(lines("\r\n"), vec![""]);
    assert_eq!(lines("ab\r"), vec!["ab\r"]);
    assert_eq!(lines("a\rb\n"), vec!["a\rb"]);
    assert_eq!(lines("ab\r\r\n"), vec!["ab\r"]);
    assert_eq!(lines("ab\n\r"), vec!["ab", "\r"]);
}

#[test]
fn lines_agree_with_std() {
    for text in ["", "a", "a\n", "a\nb", "a\r\nb\r\n", "\n\n\n", "a\r", "\r\n\r\n", "P_P\nXAX\n\nT T", "é\nü\r\n"] {
        let expected: Vec<String> = text.lines().map(|l| l.to_string()).collect();
        assert_eq!(lines(text), expected, "{:?}", text);
    }
}
