use whisper_app::document::{Document, TranscriptLine, MAX_TRANSCRIPT_LINES};
use whisper_app::app_state::{restored_settings, SavedSettings};
use whisper_app::workspace::load_entry;

fn line(timestamp: &str, text: &str) -> TranscriptLine {
    TranscriptLine { timestamp: timestamp.to_string(), text: text.to_string() }
}

#[test]
fn parse_content_reads_timestamped_lines() {
    let lines = TranscriptLine::parse_content("[12:03:41] hello there\n[12:03:45] second line\n");
    assert_eq!(lines.len(), 2);
    assert_eq!(lines[0].timestamp, "[12:03:41]");
    assert_eq!(lines[0].text, "hello there");
    assert_eq!(lines[1].timestamp, "[12:03:45]");
    assert_eq!(lines[1].text, "second line");
}

#[test]
fn parse_content_skips_lines_without_timestamp() {
    let lines = TranscriptLine::parse_content("# Title\nplain text\n[00:00:01] kept\n\n");
    assert_eq!(lines.len(), 1);
    assert_eq!(lines[0].timestamp, "[00:00:01]");
    assert_eq!(lines[0].text, "kept");
}

#[test]
fn parse_content_needs_one_or_two_colons() {
    let lines = TranscriptLine::parse_content("[12] a\n[1:2] b\n[1:2:3] c\n[1:2:3:4] d\n");
    assert_eq!(lines.len(), 2);
    assert_eq!(lines[0].timestamp, "[1:2]");
    assert_eq!(lines[0].text, "b");
    assert_eq!(lines[1].timestamp, "[1:2:3]");
    assert_eq!(lines[1].text, "c");
}

#[test]
fn parse_content_needs_closing_bracket() {
    let lines = TranscriptLine::parse_content("[12:00:00 no end\n");
    assert!(lines.is_empty());
}

#[test]
fn parse_content_trims_text_and_handles_crlf() {
    let lines = TranscriptLine::parse_content("[10:00]    spaced out   \r\n[10:01]\r\n");
    assert_eq!(lines.len(), 2);
    assert_eq!(lines[0].text, "spaced out");
    assert_eq!(lines[1].timestamp, "[10:01]");
    assert_eq!(lines[1].text, "");
}

#[test]
fn parse_content_last_line_without_newline() {
    let lines = TranscriptLine::parse_content("[01:02:03] tail");
    assert_eq!(lines.len(), 1);
    assert_eq!(lines[0].text, "tail");
}

#[test]
fn parse_content_of_empty_text() {
    assert!(TranscriptLine::parse_content("").is_empty());
}

#[test]
fn appended_line_reads_back_on_concrete_values() {
    let content = String::from("[09:00:00] first\n") + "[09:00:05] " + "second words" + "\n";
    let lines = TranscriptLine::parse_content(&content);
    assert_eq!(lines.len(), 2);
    assert_eq!(lines[1].timestamp, "[09:00:05]");
    assert_eq!(lines[1].text, "second words");
}

#[test]
fn sanitize_title_replaces_and_collapses() {
    assert_eq!(Document::sanitize_title("My Notes: Day 1"), "My-Notes-Day-1");
    assert_eq!(Document::sanitize_title("  hello  "), "hello");
    assert_eq!(Document::sanitize_title("a---b"), "a--b");
    assert_eq!(Document::sanitize_title("--x--"), "x");
    assert_eq!(Document::sanitize_title("!!!"), "");
    assert_eq!(Document::sanitize_title(""), "");
}

#[test]
fn sanitize_title_keeps_unicode_letters() {
    assert_eq!(Document::sanitize_title("Café über"), "Café-über");
}

#[test]
fn sanitize_title_keeps_fifty_characters() {
    let long = "x".repeat(80);
    let r = Document::sanitize_title(&long);
    assert_eq!(r.chars().count(), 50);
    let cut = format!("{}{}", "y".repeat(49), " tail");
    assert_eq!(Document::sanitize_title(&cut), "y".repeat(49));
}

#[test]
fn sanitize_title_is_not_idempotent_on_dash_runs() {
    let once = Document::sanitize_title("a---b");
    let twice = Document::sanitize_title(&once);
    assert_eq!(once, "a--b");
    assert_eq!(twice, "a-b");
}

#[test]
fn new_document_is_empty_and_titled() {
    let d = Document::new("Notes".to_string());
    assert_eq!(d.title, "Notes");
    assert!(d.content.is_empty());
    assert!(d.transcript_lines.is_empty());
    assert_eq!((d.id >> 76) & 0xf, 4);
    assert_eq!((d.id >> 62) & 0x3, 2);
}

#[test]
fn to_filename_uses_identifier_and_title() {
    let mut d = Document::new("Meeting Notes".to_string());
    d.id = 0x0123_4567_89ab_cdef_0123_4567_89ab_cdef;
    assert_eq!(d.to_filename(), "01234567-89ab-cdef-0123-456789abcdef-Meeting-Notes.md");
    d.title = "???".to_string();
    assert_eq!(d.to_filename(), "01234567-89ab-cdef-0123-456789abcdef.md");
}

#[test]
fn uuid_text_reads_back() {
    let id: u128 = 0xfedc_ba98_7654_3210_0011_2233_4455_6677;
    let mut d = Document::new(String::new());
    d.id = id;
    let name = d.to_filename();
    assert_eq!(name, "fedcba98-7654-3210-0011-223344556677.md");
    let text = name.trim_end_matches(".md").to_string();
    let stored = SavedSettings { selected_model_idx: 0, language: "en".to_string(), last_active_doc: Some(text) };
    assert_eq!(restored_settings(Some(stored)).2, Some(id));
    assert_eq!(load_entry("fedcba98.md"), None);
    assert_eq!(load_entry("fedcba98765432100011223344556677.md"), Some((id, "Untitled".to_string())));
}

#[test]
fn trim_transcript_lines_keeps_the_last_ones() {
    let mut d = Document::new("t".to_string());
    for i in 0..(MAX_TRANSCRIPT_LINES + 5) {
        d.transcript_lines.push(line("[00:00]", &format!("{}", i)));
    }
    d.trim_transcript_lines();
    assert_eq!(d.transcript_lines.len(), MAX_TRANSCRIPT_LINES);
    assert_eq!(d.transcript_lines[0].text, "5");
    assert_eq!(d.transcript_lines[MAX_TRANSCRIPT_LINES - 1].text, format!("{}", MAX_TRANSCRIPT_LINES + 4));
}

#[test]
fn trim_transcript_lines_leaves_short_transcripts() {
    let mut d = Document::new("t".to_string());
    d.transcript_lines.push(line("[00:01]", "a"));
    d.trim_transcript_lines();
    assert_eq!(d.transcript_lines.len(), 1);
}

#[test]
fn parse_lines_from_content_rebuilds_the_transcript() {
    let mut d = Document::new("t".to_string());
    d.content = "[00:00:01] one\nnoise\n[00:00:02] two\n".to_string();
    d.parse_lines_from_content();
    assert_eq!(d.transcript_lines.len(), 2);
    assert_eq!(d.transcript_lines[0].text, "one");
    assert_eq!(d.transcript_lines[1].text, "two");
}

#[test]
fn transcript_of_concatenation_on_concrete_values() {
    let a = "[00:00:01] one\nnoise\n";
    let b = "[00:00:02] two\n[00:00:03] three";
    let whole = TranscriptLine::parse_content(&format!("{}{}", a, b));
    let first = TranscriptLine::parse_content(a);
    let second = TranscriptLine::parse_content(b);
    assert_eq!(whole.len(), first.len() + second.len());
    let joined: Vec<(String, String)> =
        first.iter().chain(second.iter()).map(|l| (l.timestamp.clone(), l.text.clone())).collect();
    let got: Vec<(String, String)> = whole.iter().map(|l| (l.timestamp.clone(), l.text.clone())).collect();
    assert_eq!(got, joined);
}
