use post_box::constant::{MAX_POST_LEN, MAX_TITLE_LEN};
use post_box::layout::render_box;
use post_box::{Post, StreamError};

fn row(left: &str, field: &str, right: &str) -> String {
    format!("{left}{field}{right}")
}

fn dashes() -> String {
    "-".repeat(54)
}

#[test]
fn new_keeps_valid_fields() {
    let p = Post::new("A title".to_string(), "Some body text".to_string()).unwrap();
    assert_eq!(p.title, "A title");
    assert_eq!(p.msg, "Some body text");
    assert_eq!(p.title(), "A title");
    assert_eq!(p.msg(), "Some body text");
    assert_eq!(p.date(), p.date);
}

#[test]
fn new_accepts_fields_at_their_limits() {
    let title = "t".repeat(MAX_TITLE_LEN);
    let msg = "m".repeat(MAX_POST_LEN);
    let p = Post::new(title.clone(), msg.clone()).unwrap();
    assert_eq!(p.title, title);
    assert_eq!(p.msg, msg);
}

#[test]
fn lengths_count_characters_not_bytes() {
    let title = "é".repeat(MAX_TITLE_LEN);
    assert_eq!(title.len(), 2 * MAX_TITLE_LEN);
    let p = Post::new(title.clone(), "x".to_string()).unwrap();
    assert_eq!(p.title, title);
}

#[test]
fn new_rejects_empty_title() {
    let r = Post::new(String::new(), "x".to_string());
    assert_eq!(r.unwrap_err(), StreamError::EmptyTitle);
}

#[test]
fn new_rejects_empty_message() {
    let r = Post::new("x".to_string(), String::new());
    assert_eq!(r.unwrap_err(), StreamError::EmptyPost);
}

#[test]
fn new_checks_title_before_message() {
    let r = Post::new(String::new(), String::new());
    assert_eq!(r.unwrap_err(), StreamError::EmptyTitle);
    let r = Post::new("t".repeat(MAX_TITLE_LEN + 1), "m".repeat(MAX_POST_LEN + 1));
    assert_eq!(
        r.unwrap_err(),
        StreamError::InvalidTitleLength { max_size: MAX_TITLE_LEN, curr_size: MAX_TITLE_LEN + 1 }
    );
}

#[test]
fn new_rejects_long_title() {
    let r = Post::new("t".repeat(MAX_TITLE_LEN + 1), "x".to_string());
    assert_eq!(
        r.unwrap_err(),
        StreamError::InvalidTitleLength { max_size: MAX_TITLE_LEN, curr_size: MAX_TITLE_LEN + 1 }
    );
}

#[test]
fn new_rejects_long_message() {
    let r = Post::new("x".to_string(), "m".repeat(MAX_POST_LEN + 1));
    assert_eq!(
        r.unwrap_err(),
        StreamError::InvalidPostLength { max_size: MAX_POST_LEN, curr_size: MAX_POST_LEN + 1 }
    );
}

#[test]
fn failed_updates_leave_post_unchanged() {
    let mut p = Post::new("Title".to_string(), "Body".to_string()).unwrap();
    let date = p.date;
    assert_eq!(p.update_title(String::new()), Err(StreamError::EmptyTitle));
    assert_eq!(
        p.update_title("t".repeat(MAX_TITLE_LEN + 1)),
        Err(StreamError::InvalidTitleLength { max_size: MAX_TITLE_LEN, curr_size: MAX_TITLE_LEN + 1 })
    );
    assert_eq!(p.update_msg(String::new()), Err(StreamError::EmptyPost));
    assert_eq!(
        p.update_msg("m".repeat(MAX_POST_LEN + 1)),
        Err(StreamError::InvalidPostLength { max_size: MAX_POST_LEN, curr_size: MAX_POST_LEN + 1 })
    );
    assert_eq!(p.title, "Title");
    assert_eq!(p.msg, "Body");
    assert_eq!(p.date, date);
}

#[test]
fn update_msg_touches_only_the_message() {
    let mut p = Post::new("Title".to_string(), "Body".to_string()).unwrap();
    let date = p.date;
    assert_eq!(p.update_msg("New body".to_string()), Ok(()));
    assert_eq!(p.msg, "New body");
    assert_eq!(p.title, "Title");
    assert_eq!(p.date, date);
}

#[test]
fn update_title_touches_only_the_title() {
    let mut p = Post::new("Title".to_string(), "Body".to_string()).unwrap();
    let date = p.date;
    assert_eq!(p.update_title("New title".to_string()), Ok(()));
    assert_eq!(p.title, "New title");
    assert_eq!(p.msg, "Body");
    assert_eq!(p.date, date);
}

#[test]
fn render_hello_world() {
    let p = Post::new("Hi".to_string(), "Hello world".to_string()).unwrap();
    let expected = [
        dashes(),
        row("\\ ", &format!("{}Hi{}", " ".repeat(24), " ".repeat(24)), " /"),
        row("/ ", &" ".repeat(50), " \\"),
        row("\\ ", &format!("Hello world{}", " ".repeat(39)), " /"),
        row("/ ", &" ".repeat(50), " \\"),
        dashes(),
    ]
    .join("\n");
    assert_eq!(p.render(), expected);
}

#[test]
fn render_rows_have_fixed_width_and_alternate() {
    let msg = "The quick brown fox jumps over the lazy dog. ".repeat(8);
    let p = Post::new("A somewhat longer title".to_string(), msg).unwrap();
    let text = p.render();
    assert!(!text.ends_with('\n'));
    let rows: Vec<&str> = text.split('\n').collect();
    assert!(rows.len() > 6);
    for r in &rows {
        assert_eq!(r.chars().count(), 54);
    }
    assert_eq!(rows[0], dashes());
    assert_eq!(rows[rows.len() - 1], dashes());
    assert!(rows[1].starts_with("\\ ") && rows[1].ends_with(" /"));
    assert!(rows[2].starts_with("/ ") && rows[2].ends_with(" \\"));
    for (i, r) in rows[3..rows.len() - 1].iter().enumerate() {
        if i % 2 == 0 {
            assert!(r.starts_with("\\ ") && r.ends_with(" /"));
        } else {
            assert!(r.starts_with("/ ") && r.ends_with(" \\"));
        }
    }
}

#[test]
fn render_wraps_long_messages_at_word_boundaries() {
    let msg = "word ".repeat(20);
    let p = Post::new("T".to_string(), msg.trim_end().to_string()).unwrap();
    let text = p.render();
    let rows: Vec<&str> = text.split('\n').collect();
    let first = format!("{}{}", "word ".repeat(10).trim_end(), " ".repeat(1));
    assert_eq!(rows[3], row("\\ ", &first, " /"));
    assert_eq!(rows[4], row("/ ", &first, " \\"));
    assert_eq!(rows[5], row("\\ ", &" ".repeat(50), " /"));
    assert_eq!(rows.len(), 7);
}

#[test]
fn render_is_repeatable() {
    let p = Post::new("Same".to_string(), "Rendered twice gives the same box".to_string()).unwrap();
    assert_eq!(p.render(), p.render());
    let q = p.clone();
    assert_eq!(p.render(), q.render());
}

#[test]
fn render_box_centres_odd_padding_right() {
    let text = render_box("abc", &vec!["one".to_string(), "two".to_string()]);
    let expected = [
        dashes(),
        row("\\ ", &format!("{}abc{}", " ".repeat(23), " ".repeat(24)), " /"),
        row("/ ", &" ".repeat(50), " \\"),
        row("\\ ", &format!("one{}", " ".repeat(47)), " /"),
        row("/ ", &format!("two{}", " ".repeat(47)), " \\"),
        dashes(),
    ]
    .join("\n");
    assert_eq!(text, expected);
}

#[test]
fn render_box_without_lines_has_header_and_border() {
    let text = render_box("t", &Vec::new());
    assert_eq!(text.split('\n').count(), 4);
    assert!(text.starts_with(&dashes()));
    assert!(text.ends_with(&dashes()));
}
