use latest_log::lines::split_lines;

fn owned(lines: &[&str]) -> Vec<String> {
    lines.iter().map(|line| line.to_string()).collect()
}

fn std_lines(text: &str) -> Vec<String> {
    text.lines().map(|line| line.to_string()).collect()
}

/// Every text of the given length over line feed, carriage return and two letters.
fn texts_of_length(length: usize) -> Vec<String> {
    let alphabet = ['\n', '\r', 'a', 'é'];
    let mut texts = vec![String::new()];
    for _ in 0..length {
        let mut longer = Vec::new();
        for text in &texts {
            for letter in alphabet {
                let mut next = text.clone();
                next.push(letter);
                longer.push(next);
            }
        }
        texts = longer;
    }
    texts
}

#[test]
fn lines_of_text_without_final_line_feed() {
    assert_eq!(split_lines("a\nb\nc"), owned(&["a", "b", "c"]));
}

#[test]
fn lines_of_text_with_final_line_feed() {
    assert_eq!(split_lines("a\nb\nc\n"), owned(&["a", "b", "c"]));
}

#[test]
fn empty_text_has_no_lines() {
    assert_eq!(split_lines(""), Vec::<String>::new());
}

#[test]
fn text_without_line_feed_is_one_line() {
    assert_eq!(split_lines("only"), owned(&["only"]));
}

#[test]
fn lone_line_feed_is_one_empty_line() {
    assert_eq!(split_lines("\n"), owned(&[""]));
}

#[test]
fn empty_lines_are_kept() {
    assert_eq!(split_lines("a\n\nb"), owned(&["a", "", "b"]));
    assert_eq!(split_lines("a\n\n"), owned(&["a", ""]));
    assert_eq!(split_lines("\n\n\n"), owned(&["", "", ""]));
    assert_eq!(split_lines("\na"), owned(&["", "a"]));
}

#[test]
fn carriage_return_before_line_feed_ends_the_line() {
    assert_eq!(split_lines("a\r\nb\r\n"), owned(&["a", "b"]));
    assert_eq!(split_lines("a\r\nb"), owned(&["a", "b"]));
    assert_eq!(split_lines("\r\n"), owned(&[""]));
}

#[test]
fn only_one_carriage_return_is_taken_from_a_line() {
    assert_eq!(split_lines("a\r\r\nb"), owned(&["a\r", "b"]));
    assert_eq!(split_lines("\r\r\n"), owned(&["\r"]));
}

#[test]
fn carriage_return_without_line_feed_stays_in_the_line() {
    assert_eq!(split_lines("a\rb\nc"), owned(&["a\rb", "c"]));
    assert_eq!(split_lines("a\r"), owned(&["a\r"]));
    assert_eq!(split_lines("\r"), owned(&["\r"]));
    assert_eq!(split_lines("a\n\r"), owned(&["a", "\r"]));
}

#[test]
fn characters_of_several_bytes_are_kept_whole() {
    assert_eq!(
        split_lines("déjà vu\n日本語 ログ\r\n🦀\n"),
        owned(&["déjà vu", "日本語 ログ", "🦀"])
    );
}

#[test]
fn spaces_and_tabs_are_part_of_the_line() {
    assert_eq!(split_lines("  a \n\tb\t\n "), owned(&["  a ", "\tb\t", " "]));
}

#[test]
fn lines_agree_with_the_standard_library() {
    for length in 0..=6 {
        for text in texts_of_length(length) {
            assert_eq!(split_lines(&text), std_lines(&text), "text {:?}", text);
        }
    }
}

#[test]
fn no_line_holds_a_line_feed() {
    for length in 0..=5 {
        for text in texts_of_length(length) {
            for line in split_lines(&text) {
                assert!(!line.contains('\n'), "text {:?}", text);
            }
        }
    }
}

#[test]
fn written_lines_read_back() {
    let lines = owned(&["first", "", "second line", "\rthird", "a\rb", "", "last"]);
    let mut text = String::new();
    for line in &lines {
        text.push_str(line);
        text.push('\n');
    }
    assert_eq!(split_lines(&text), lines);
}

#[test]
fn joined_lines_read_back() {
    let lines = owned(&["2024-01-01 start", "2024-01-01 working", "", "2024-01-02 stop"]);
    let text = lines.join("\n");
    assert_eq!(split_lines(&text), lines);
}

#[test]
fn no_written_lines_read_back_as_none() {
    let lines: Vec<String> = Vec::new();
    let text = lines.join("\n");
    assert_eq!(split_lines(&text), lines);
}

#[test]
fn final_line_feed_adds_no_line() {
    for length in 1..=5 {
        for text in texts_of_length(length) {
            if text.ends_with('\n') || text.ends_with('\r') {
                continue;
            }
            let mut longer = text.clone();
            longer.push('\n');
            assert_eq!(split_lines(&longer), split_lines(&text), "text {:?}", text);
        }
    }
}

#[test]
fn final_carriage_return_and_line_feed_add_no_line() {
    for length in 1..=5 {
        for text in texts_of_length(length) {
            if text.ends_with('\n') {
                continue;
            }
            let mut longer = text.clone();
            longer.push_str("\r\n");
            assert_eq!(split_lines(&longer), split_lines(&text), "text {:?}", text);
        }
    }
}

#[test]
fn final_line_feed_after_a_carriage_return_ends_the_line() {
    assert_eq!(split_lines("a\r"), owned(&["a\r"]));
    assert_eq!(split_lines("a\r\n"), owned(&["a"]));
}

#[test]
fn second_final_line_feed_is_an_empty_line() {
    assert_eq!(split_lines("a\n"), owned(&["a"]));
    assert_eq!(split_lines("a\n\n"), owned(&["a", ""]));
}

#[test]
fn lines_rebuild_the_text() {
    for length in 0..=6 {
        for text in texts_of_length(length) {
            if text.contains("\r\n") {
                continue;
            }
            let mut rebuilt = String::new();
            for line in split_lines(&text) {
                rebuilt.push_str(&line);
                rebuilt.push('\n');
            }
            let mut expected = text.clone();
            if !text.is_empty() && !text.ends_with('\n') {
                expected.push('\n');
            }
            assert_eq!(rebuilt, expected, "text {:?}", text);
        }
    }
}

#[test]
fn line_count_is_the_count_of_line_feeds_and_an_open_line() {
    assert_eq!(split_lines("a\nb\nc").len(), 3);
    assert_eq!(split_lines("a\nb\nc\n").len(), 3);
    assert_eq!(split_lines("a\nb\nc\n\n").len(), 4);
    assert_eq!(split_lines("").len(), 0);
}

#[test]
fn splitting_twice_gives_the_same_lines() {
    let text = "one\ntwo\r\nthree";
    assert_eq!(split_lines(text), split_lines(text));
}

#[test]
fn long_text_is_split_line_by_line() {
    let mut text = String::new();
    let mut expected = Vec::new();
    for number in 0..5000 {
        let line = format!("entry {} of the log", number);
        text.push_str(&line);
        text.push('\n');
        expected.push(line);
    }
    assert_eq!(split_lines(&text), expected);
}
