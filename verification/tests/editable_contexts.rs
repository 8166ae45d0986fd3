use agent_runtime::buffer::{line_len, max_row, text_for_range, Point, PointRange};
use agent_runtime::editable_context::{
    collect_editable_context, related_file_for_ranges, BufferSnapshot, EditHistoryContextEntry,
    FileLocation, RelatedExcerpt,
};

fn point(row: u32, column: u32) -> Point {
    Point { row, column }
}

fn range(start: (u32, u32), end: (u32, u32)) -> PointRange {
    PointRange { start: point(start.0, start.1), end: point(end.0, end.1) }
}

fn buffer(path: &str, text: &str) -> BufferSnapshot {
    BufferSnapshot {
        file: Some(FileLocation {
            worktree_root: Some("root".to_string()),
            path: path.to_string(),
        }),
        text: text.to_string(),
    }
}

fn numbered(rows: usize) -> String {
    let lines: Vec<String> = (0..rows).map(|row| format!("line {row}")).collect();
    lines.join("\n")
}

#[test]
fn texts_are_measured_in_rows_and_bytes() {
    let text = "äb\n\nxyz\n";
    assert_eq!(max_row(text), 3);
    let lens: Vec<u32> = (0..4).map(|row| line_len(text, row)).collect();
    assert_eq!(lens, vec![3, 0, 3, 0]);
    assert_eq!(max_row(""), 0);
    assert_eq!(line_len("", 0), 0);
    assert_eq!(text_for_range(text, range((0, 2), (2, 1))), "b\n\nx");
    assert_eq!(text_for_range(text, range((0, 0), (3, 0))), text);
    assert_eq!(text_for_range(text, range((2, 1), (2, 3))), "yz");
}

#[test]
fn excerpts_stand_by_rank_and_empty_ones_are_left_out() {
    let file = buffer("src/a.rs", "one\ntwo\nthree");
    let related = related_file_for_ranges(
        &file,
        &vec![
            (range((2, 0), (2, 5)), 4),
            (range((1, 1), (1, 1)), 0),
            (range((1, 2), (1, 0)), 1),
            (range((0, 0), (1, 3)), 2),
        ],
    )
    .unwrap();
    assert_eq!(related.path, "root/src/a.rs");
    assert_eq!(related.max_row, 2);
    assert!(!related.in_open_source_repo);
    assert_eq!(
        related.excerpts,
        vec![
            RelatedExcerpt { row_range: (0, 1), text: "one\ntwo".to_string(), order: 2 },
            RelatedExcerpt { row_range: (2, 2), text: "three".to_string(), order: 4 },
        ]
    );
}

#[test]
fn buffers_without_a_file_in_the_project_are_left_out() {
    let unsaved = BufferSnapshot { file: None, text: "x".to_string() };
    assert!(related_file_for_ranges(&unsaved, &vec![]).is_none());
    let foreign = BufferSnapshot {
        file: Some(FileLocation { worktree_root: None, path: "a".to_string() }),
        text: "x".to_string(),
    };
    assert!(related_file_for_ranges(&foreign, &vec![]).is_none());
}

#[test]
fn the_cursor_and_the_edits_are_collected() {
    let buffers = vec![
        buffer("edited.rs", "alpha\nbeta\ngamma"),
        buffer("active.rs", &numbered(100)),
        buffer("untouched.rs", "nothing"),
        BufferSnapshot { file: None, text: "scratch".to_string() },
    ];
    let history = vec![
        EditHistoryContextEntry { buffer: 0, edited_range: range((1, 0), (1, 4)) },
        EditHistoryContextEntry { buffer: 1, edited_range: range((90, 0), (90, 7)) },
        EditHistoryContextEntry { buffer: 3, edited_range: range((0, 0), (0, 7)) },
        EditHistoryContextEntry { buffer: 0, edited_range: range((0, 0), (0, 5)) },
    ];
    let files = collect_editable_context(&buffers, 1, point(50, 3), &history);
    assert_eq!(files.len(), 2);
    assert_eq!(files[0].path, "root/active.rs");
    assert_eq!(files[0].max_row, 99);
    assert_eq!(files[0].excerpts.len(), 2);
    assert_eq!(files[0].excerpts[0].row_range, (30, 70));
    assert!(files[0].excerpts[0].text.starts_with("line 30\n"));
    assert!(files[0].excerpts[0].text.ends_with("\nline 70"));
    assert_eq!(files[0].excerpts[1].order, 2);
    assert_eq!(files[0].excerpts[1].text, "line 90");
    assert_eq!(files[1].path, "root/edited.rs");
    let orders: Vec<usize> = files[1].excerpts.iter().map(|excerpt| excerpt.order).collect();
    assert_eq!(orders, vec![1, 4]);
    assert_eq!(files[1].excerpts[0].text, "beta");
}

#[test]
fn the_surroundings_of_the_cursor_stay_within_the_text() {
    let buffers = vec![buffer("a.rs", &numbered(10))];
    let files = collect_editable_context(&buffers, 0, point(9, 6), &vec![]);
    assert_eq!(files[0].excerpts[0].row_range, (0, 9));
    assert_eq!(files[0].excerpts[0].text, numbered(10));
}

#[test]
fn files_without_excerpts_come_last() {
    let buffers = vec![buffer("empty.rs", ""), buffer("b.rs", "b")];
    let history = vec![EditHistoryContextEntry { buffer: 1, edited_range: range((0, 0), (0, 1)) }];
    let files = collect_editable_context(&buffers, 0, point(0, 0), &history);
    let paths: Vec<&str> = files.iter().map(|file| file.path.as_str()).collect();
    assert_eq!(paths, vec!["root/b.rs", "root/empty.rs"]);
    assert!(files[1].excerpts.is_empty());
}
