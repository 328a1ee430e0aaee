use snake::level::{collect_marked, find_invalid, read_rows, scan_rows};
use snake::Point;

fn chars(s: &str) -> Vec<char> {
    s.chars().collect()
}

#[test]
fn rows_are_the_lines_of_the_text() {
    let texts = [
        "",
        "\n",
        "\n\n",
        "abc",
        "abc\n",
        "abc\ndef",
        "abc\n\ndef\n",
        "abc\r\ndef\r\n",
        "abc\r",
        "abc\r\n\r\n",
        "\r\n",
        "\r",
        "a\rb\nc",
        "a\r\r\nb",
        "# h\nb f\n   ",
        "h\u{e9}\u{1f40d}\nbf",
    ];
    for text in texts {
        let expected: Vec<Vec<char>> = text.lines().map(chars).collect();
        assert_eq!(read_rows(text), expected, "text {:?}", text);
    }
}

#[test]
fn rows_are_laid_out_bottom_row_first() {
    let lines = vec![chars("abc"), chars("def"), chars("ghi")];
    assert_eq!(scan_rows(&lines), (chars("ghidefabc"), true));
    let lines = vec![chars("abc"), chars("de"), chars("fgh")];
    assert_eq!(scan_rows(&lines), (chars("fghdeabc"), false));
    let lines = vec![chars(""), chars("")];
    assert_eq!(scan_rows(&lines), (chars(""), true));
    let lines = vec![chars(""), chars("a")];
    assert_eq!(scan_rows(&lines), (chars("a"), false));
    assert_eq!(scan_rows(&vec![]), (chars(""), true));
}

#[test]
fn the_first_invalid_character_is_found() {
    assert_eq!(find_invalid(&chars("")), None);
    assert_eq!(find_invalid(&chars("# hbf")), None);
    assert_eq!(find_invalid(&chars("# Hbf")), Some(2));
    assert_eq!(find_invalid(&chars("x#y")), Some(0));
    assert_eq!(find_invalid(&chars("##\t")), Some(2));
}

#[test]
fn marked_cells_come_in_reading_order() {
    let cells = chars("b#b  b#");
    assert_eq!(
        collect_marked(&cells, 'b', 3),
        vec![Point { x: 0, y: 0 }, Point { x: 2, y: 0 }, Point { x: 2, y: 1 }]
    );
    assert_eq!(
        collect_marked(&cells, '#', 3),
        vec![Point { x: 1, y: 0 }, Point { x: 0, y: 2 }]
    );
    assert_eq!(collect_marked(&cells, 'h', 3), vec![]);
    assert_eq!(collect_marked(&cells, ' ', 7), vec![Point { x: 3, y: 0 }, Point { x: 4, y: 0 }]);
}
