use momentum_app::overlay::{
    escape_path, fmt_split_time, fmt_timer, overlay_filter, push_recent, row_file,
    sanitize_name, split_row, OverlayMetrics,
};

#[test]
fn timer_text() {
    assert_eq!(fmt_timer(83_450), "00:01:23.4");
    assert_eq!(fmt_timer(0), "00:00:00.0");
    assert_eq!(fmt_timer(-1_500), "-00:00:01.5");
    assert_eq!(fmt_timer(360_000_000), "100:00:00.0");
}

#[test]
fn split_times_drop_the_hour_when_zero() {
    assert_eq!(fmt_split_time(83_450), "1:23.4");
    assert_eq!(fmt_split_time(3_723_450), "1:02:03.4");
    assert_eq!(fmt_split_time(5_099), "0:05.0");
}

#[test]
fn split_names_keep_safe_characters() {
    assert_eq!(sanitize_name("Any% <Glitch>!", 20), "Any Glitch");
    assert_eq!(sanitize_name("abcdef", 3), "abc");
    assert_eq!(sanitize_name("Boss (2)-a_b.c", 20), "Boss (2)-a_b.c");
}

#[test]
fn split_rows_are_aligned_columns() {
    assert_eq!(split_row("Boss", 83_450), format!("{:<20} {:>10}", "Boss", "1:23.4"));
    let long = "ABCDEFGHIJKLMNOPQRSTUVWXYZ";
    assert_eq!(
        split_row(long, 3_723_450),
        format!("{:<20} {:>10}", &long[..20], "1:02:03.4")
    );
}

#[test]
fn recent_rows_are_newest_first_and_bounded() {
    let mut rows = vec!["b".to_string(), "c".to_string(), "d".to_string()];
    push_recent(&mut rows, "a".to_string());
    assert_eq!(rows, vec!["a", "b", "c"]);
    let mut one: Vec<String> = Vec::new();
    push_recent(&mut one, "x".to_string());
    assert_eq!(one, vec!["x"]);
}

#[test]
fn overlay_files_and_paths() {
    assert_eq!(row_file(2), "overlay_row2.txt");
    assert_eq!(escape_path("C:\\x\\f.txt"), Some("C\\:/x/f.txt".to_string()));
    assert_eq!(escape_path("C:\\it's"), None);
}

#[test]
fn overlay_filter_chain() {
    let m = OverlayMetrics { timer_fs: 27, split_fs: 22, margin: 16, pad: 9, row_gap: 6 };
    let rows = vec!["D:/r0.txt".to_string()];
    let f = overlay_filter("F:\\fonts\\a.otf", "D:/t.txt", &rows, m).unwrap();
    let timer = "drawtext=fontfile='F\\:/fonts/a.otf':textfile='D\\:/t.txt':reload=1:fontcolor=white@1:fontsize=27:box=1:boxcolor=black@0.45:boxborderw=9:x=w-tw-16:y=16";
    let row = "drawtext=fontfile='F\\:/fonts/a.otf':textfile='D\\:/r0.txt':reload=1:fontcolor=white@0.9:fontsize=22:box=1:boxcolor=black@0.45:boxborderw=9:x=w-tw-16:y=72";
    assert_eq!(f, format!("{timer},{row}"));
    assert_eq!(overlay_filter("F:/a'b.otf", "t", &rows, m), None);
    let bad = vec!["it's".to_string()];
    assert_eq!(overlay_filter("F:/a.otf", "t", &bad, m), None);
}
