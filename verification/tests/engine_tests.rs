use hidemaru::decode::decode_file_bytes;
use hidemaru::edit::{compute_delta, TextChange};
use hidemaru::engine::{SearchResult, TextEngine};
use hidemaru::replace_action::ReplaceAction;

fn change(start_char: usize, old_text: &str, new_text: &str) -> TextChange {
    TextChange { start_char, old_text: old_text.to_string(), new_text: new_text.to_string() }
}

fn engine_with(text: &str) -> TextEngine {
    let mut engine = TextEngine::new();
    engine.set_text(text);
    engine
}

fn assert_change(c: &TextChange, start_char: usize, old_text: &str, new_text: &str) {
    assert_eq!(c.start_char, start_char);
    assert_eq!(c.old_text, old_text);
    assert_eq!(c.new_text, new_text);
}

#[test]
fn compute_delta_insertion() {
    let c = compute_delta("abc", "abxc");
    assert_change(&c, 2, "", "x");
}

#[test]
fn compute_delta_deletion() {
    let c = compute_delta("hello world", "hello");
    assert_change(&c, 5, " world", "");
}

#[test]
fn compute_delta_replacement_in_the_middle() {
    let c = compute_delta("the cat sat", "the dog sat");
    assert_change(&c, 4, "cat", "dog");
}

#[test]
fn compute_delta_identical_texts() {
    let c = compute_delta("same", "same");
    assert_change(&c, 4, "", "");
}

#[test]
fn compute_delta_prefix_takes_precedence_over_suffix() {
    let c = compute_delta("aaa", "aaaa");
    assert_change(&c, 3, "", "a");
}

#[test]
fn compute_delta_from_and_to_empty() {
    assert_change(&compute_delta("", "abc"), 0, "", "abc");
    assert_change(&compute_delta("abc", ""), 0, "abc", "");
}

#[test]
fn compute_delta_counts_chars_not_bytes() {
    let c = compute_delta("日本語", "日本人語");
    assert_change(&c, 2, "", "人");
}

#[test]
fn applying_the_delta_gives_the_new_text() {
    let pairs = [("hello", "help"), ("日本語です", "英語です"), ("", "x"), ("abcabc", "abc"), ("xyz", "xyz")];
    for (old, new) in pairs.iter() {
        let mut engine = engine_with(old);
        engine.apply_change(compute_delta(old, new), true);
        assert_eq!(engine.get_text(), *new);
        if old != new {
            assert!(engine.undo().is_some());
            assert_eq!(engine.get_text(), *old);
        }
    }
}

#[test]
fn new_engine_is_empty_without_history() {
    let mut engine = TextEngine::new();
    assert_eq!(engine.get_text(), "");
    assert!(engine.file_path.is_none());
    assert!(engine.undo().is_none());
    assert!(engine.redo().is_none());
    assert_eq!(engine.get_text(), "");
}

#[test]
fn default_engine_is_empty() {
    let engine = TextEngine::default();
    assert_eq!(engine.get_text(), "");
    assert!(engine.undo_stack.is_empty());
    assert!(engine.redo_stack.is_empty());
}

#[test]
fn set_text_then_get_text() {
    let engine = engine_with("line one\r\nline two 日本");
    assert_eq!(engine.get_text(), "line one\r\nline two 日本");
}

#[test]
fn apply_change_undo_redo() {
    let mut engine = engine_with("hello world");
    engine.apply_change(change(6, "world", "there"), true);
    assert_eq!(engine.get_text(), "hello there");
    assert_eq!(engine.undo_stack.len(), 1);
    assert!(engine.redo_stack.is_empty());

    let undone = engine.undo().unwrap();
    assert_change(&undone, 6, "world", "there");
    assert_eq!(engine.get_text(), "hello world");
    assert!(engine.undo_stack.is_empty());
    assert_eq!(engine.redo_stack.len(), 1);

    let redone = engine.redo().unwrap();
    assert_change(&redone, 6, "world", "there");
    assert_eq!(engine.get_text(), "hello there");
    assert_eq!(engine.undo_stack.len(), 1);
    assert!(engine.redo_stack.is_empty());
}

#[test]
fn apply_change_with_equal_texts_does_nothing() {
    let mut engine = engine_with("abc");
    engine.apply_change(change(1, "b", "b"), true);
    assert_eq!(engine.get_text(), "abc");
    assert!(engine.undo_stack.is_empty());
}

#[test]
fn apply_change_without_history() {
    let mut engine = engine_with("abc");
    engine.apply_change(change(0, "a", "xy"), true);
    engine.undo();
    assert_eq!(engine.redo_stack.len(), 1);
    engine.apply_change(change(3, "", "!"), false);
    assert_eq!(engine.get_text(), "abc!");
    assert!(engine.undo_stack.is_empty());
    assert_eq!(engine.redo_stack.len(), 1);
}

#[test]
fn apply_change_with_history_clears_redo() {
    let mut engine = engine_with("abc");
    engine.apply_change(change(0, "a", "x"), true);
    engine.undo();
    engine.apply_change(change(3, "", "d"), true);
    assert_eq!(engine.get_text(), "abcd");
    assert!(engine.redo_stack.is_empty());
    assert!(engine.redo().is_none());
}

#[test]
fn apply_change_removes_by_char_count() {
    let mut engine = engine_with("日本語テキスト");
    engine.apply_change(change(3, "テキスト", "text"), true);
    assert_eq!(engine.get_text(), "日本語text");
}

#[test]
fn undo_and_redo_several_steps() {
    let mut engine = TextEngine::new();
    engine.record_text_change("a");
    engine.record_text_change("ab");
    engine.record_text_change("abc");
    assert_eq!(engine.undo_stack.len(), 3);
    engine.undo();
    engine.undo();
    assert_eq!(engine.get_text(), "a");
    engine.redo();
    assert_eq!(engine.get_text(), "ab");
    engine.undo();
    engine.undo();
    assert_eq!(engine.get_text(), "");
    assert!(engine.undo().is_none());
    assert_eq!(engine.redo_stack.len(), 3);
}

#[test]
fn record_text_change_records_the_minimal_change() {
    let mut engine = engine_with("hello world");
    engine.record_text_change("hello brave world");
    assert_eq!(engine.get_text(), "hello brave world");
    assert_eq!(engine.undo_stack.len(), 1);
    assert_change(&engine.undo_stack[0], 6, "", "brave ");
    engine.undo();
    assert_eq!(engine.get_text(), "hello world");
}

#[test]
fn record_text_change_without_difference_does_nothing() {
    let mut engine = engine_with("same");
    engine.record_text_change("same");
    assert!(engine.undo_stack.is_empty());
}

#[test]
fn find_first_match_from_start() {
    let engine = engine_with("hello world");
    let r = engine.find("o", 0).unwrap();
    assert_eq!((r.start_byte, r.end_byte), (4, 5));
    let r = engine.find("o", 5).unwrap();
    assert_eq!((r.start_byte, r.end_byte), (7, 8));
    assert!(engine.find("o", 8).is_none());
}

#[test]
fn find_with_regex() {
    let engine = engine_with("id: 42, id: 7");
    let r = engine.find(r"\d+", 0).unwrap();
    assert_eq!((r.start_byte, r.end_byte), (4, 6));
    let r = engine.find(r"\d+", 6).unwrap();
    assert_eq!((r.start_byte, r.end_byte), (12, 13));
}

#[test]
fn find_offsets_are_bytes_of_the_whole_text() {
    let engine = engine_with("日本語abc日本");
    let r = engine.find("abc", 0).unwrap();
    assert_eq!((r.start_byte, r.end_byte), (9, 12));
    let r = engine.find("日本", 1).unwrap();
    assert_eq!((r.start_byte, r.end_byte), (12, 18));
}

#[test]
fn find_invalid_pattern_finds_nothing() {
    let engine = engine_with("a(b");
    assert!(engine.find("(", 0).is_none());
}

#[test]
fn find_at_end_of_text_finds_nothing() {
    let engine = engine_with("abc");
    assert!(engine.find("", 3).is_none());
    assert!(engine.find("c", 3).is_none());
    let empty = TextEngine::new();
    assert!(empty.find("", 0).is_none());
}

#[test]
fn find_without_match() {
    let engine = engine_with("abc");
    assert!(engine.find("z", 0).is_none());
}

#[test]
fn find_searches_the_rest_as_its_own_text() {
    let engine = engine_with("aXbX");
    let r = engine.find("^.", 2).unwrap();
    assert_eq!((r.start_byte, r.end_byte), (2, 3));
}

#[test]
fn find_chars_gives_char_range() {
    let engine = engine_with("日本語abc");
    assert_eq!(engine.find_chars("abc", 0), Some((3, 6)));
    assert_eq!(engine.find_chars("本語", 0), Some((1, 3)));
    assert_eq!(engine.find_chars("本", 2), None);
}

#[test]
fn replace_once_replaces_the_first_match_from_start() {
    let mut engine = engine_with("foo bar foo");
    assert_eq!(engine.replace_once("foo", "bazz", 1), Some(12));
    assert_eq!(engine.get_text(), "foo bar bazz");
    assert_eq!(engine.undo_stack.len(), 1);
    assert_change(&engine.undo_stack[0], 8, "foo", "bazz");
    engine.undo();
    assert_eq!(engine.get_text(), "foo bar foo");
}

#[test]
fn replace_once_without_match() {
    let mut engine = engine_with("foo");
    assert_eq!(engine.replace_once("x", "y", 0), None);
    assert_eq!(engine.get_text(), "foo");
    assert!(engine.undo_stack.is_empty());
}

#[test]
fn replace_once_with_the_same_text_records_nothing() {
    let mut engine = engine_with("foo");
    assert_eq!(engine.replace_once("o+", "oo", 0), Some(3));
    assert_eq!(engine.get_text(), "foo");
    assert!(engine.undo_stack.is_empty());
}

#[test]
fn replace_all_counts_and_undoes_in_one_step() {
    let mut engine = engine_with("a-b-c");
    assert_eq!(engine.replace_all("-", "+"), 2);
    assert_eq!(engine.get_text(), "a+b+c");
    assert_eq!(engine.undo_stack.len(), 1);
    engine.undo();
    assert_eq!(engine.get_text(), "a-b-c");
}

#[test]
fn replace_all_with_longer_replacement_does_not_rescan_it() {
    let mut engine = engine_with("aa");
    assert_eq!(engine.replace_all("a", "aa"), 2);
    assert_eq!(engine.get_text(), "aaaa");
}

#[test]
fn replace_all_with_empty_matches() {
    let mut engine = engine_with("abc");
    assert_eq!(engine.replace_all("x*", "-"), 3);
    assert_eq!(engine.get_text(), "-a-b-c");
    let mut engine = engine_with("abc");
    assert_eq!(engine.replace_all("$", "!"), 1);
    assert_eq!(engine.get_text(), "abc!");
}

#[test]
fn replace_all_without_match_changes_nothing() {
    let mut engine = engine_with("abc");
    assert_eq!(engine.replace_all("z", "y"), 0);
    assert_eq!(engine.get_text(), "abc");
    assert!(engine.undo_stack.is_empty());
}

#[test]
fn load_utf8_bytes() {
    let mut engine = TextEngine::new();
    engine.load_from_bytes("héllo 日本".as_bytes(), "a.txt");
    assert_eq!(engine.get_text(), "héllo 日本");
    assert_eq!(engine.file_path.as_deref(), Some("a.txt"));
}

#[test]
fn load_utf8_bytes_drops_the_byte_order_mark() {
    let mut bytes = vec![0xEFu8, 0xBB, 0xBF];
    bytes.extend_from_slice("abc".as_bytes());
    assert_eq!(decode_file_bytes(&bytes), "abc");
}

#[test]
fn load_shift_jis_bytes() {
    let mut engine = TextEngine::new();
    engine.load_from_bytes(&[0x93, 0xFA, 0x96, 0x7B], "sjis.txt");
    assert_eq!(engine.get_text(), "日本");
    assert_eq!(engine.file_path.as_deref(), Some("sjis.txt"));
}

#[test]
fn load_keeps_the_history() {
    let mut engine = TextEngine::new();
    engine.record_text_change("x");
    engine.load_from_bytes(b"new", "b.txt");
    assert_eq!(engine.undo_stack.len(), 1);
    assert_eq!(engine.get_text(), "new");
}

#[test]
fn decode_empty_file() {
    assert_eq!(decode_file_bytes(&[]), "");
}

#[test]
fn replace_action_defaults_to_no_action() {
    assert_eq!(ReplaceAction::default(), ReplaceAction::NoAction);
    assert_ne!(ReplaceAction::default(), ReplaceAction::ReplaceAll);
}

#[test]
fn search_result_shifted() {
    assert!(SearchResult::shifted(5, None).is_none());
    let r = SearchResult::shifted(5, Some((1, 3))).unwrap();
    assert_eq!((r.start_byte, r.end_byte), (6, 8));
}

#[test]
fn text_change_duplicate() {
    let c = change(2, "ab", "cd");
    let d = c.duplicate();
    assert_change(&d, 2, "ab", "cd");
}

#[test]
fn text_written_as_utf8_loads_back() {
    for text in ["", "plain", "日本語\r\nline two", "tab\tand 🎉"].iter() {
        let mut engine = TextEngine::new();
        engine.load_from_bytes(text.as_bytes(), "saved.txt");
        assert_eq!(engine.get_text(), *text);
    }
}

#[test]
fn leading_feff_reads_as_a_byte_order_mark() {
    let mut engine = TextEngine::new();
    engine.load_from_bytes("\u{FEFF}abc".as_bytes(), "bom.txt");
    assert_eq!(engine.get_text(), "abc");
}
