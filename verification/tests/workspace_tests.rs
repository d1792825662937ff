use std::path::PathBuf;
use whisper_app::document::Document;
use whisper_app::workspace::{interval_elapsed, load_entry, Workspace};

fn entry(name: &str, content: &str) -> (String, String) {
    (name.to_string(), content.to_string())
}

#[test]
fn default_workspace_is_empty() {
    let w = Workspace::default();
    assert!(w.documents.is_empty());
    assert_eq!(w.active_id, None);
    assert!(w.active().is_none());
}

#[test]
fn new_document_titles_count_up_and_activate() {
    let mut w = Workspace::default();
    let a = w.new_document();
    assert_eq!(w.active_id, Some(a));
    assert_eq!(w.documents[&a].title, "Document 1");
    let b = w.new_document();
    assert_eq!(w.active_id, Some(b));
    assert_eq!(w.documents[&b].title, "Document 2");
    assert_eq!(w.documents.len(), 2);
    assert_eq!(w.active().map(|d| d.id), Some(b));
}

#[test]
fn delete_active_document_activates_least_identifier() {
    let mut w = Workspace::default();
    let a = w.new_document();
    let b = w.new_document();
    let c = w.new_document();
    w.activate(b);
    assert_eq!(w.active_id, Some(b));
    assert!(w.delete_document(b));
    let least = if a < c { a } else { c };
    assert_eq!(w.active_id, Some(least));
    assert!(!w.delete_document(b));
    assert_eq!(w.documents.len(), 2);
}

#[test]
fn delete_other_document_keeps_active() {
    let mut w = Workspace::default();
    let a = w.new_document();
    let b = w.new_document();
    assert!(w.delete_document(a));
    assert_eq!(w.active_id, Some(b));
    assert!(w.delete_document(b));
    assert_eq!(w.active_id, None);
}

#[test]
fn activate_unknown_document_changes_nothing() {
    let mut w = Workspace::default();
    let a = w.new_document();
    w.activate(a.wrapping_add(1));
    assert_eq!(w.active_id, Some(a));
}

#[test]
fn rename_document_sets_title() {
    let mut w = Workspace::default();
    let a = w.new_document();
    assert!(w.rename_document(a, "Renamed".to_string()));
    assert_eq!(w.documents[&a].title, "Renamed");
    assert!(!w.rename_document(a.wrapping_add(1), "x".to_string()));
}

#[test]
fn append_to_active_writes_line_and_transcript() {
    let mut w = Workspace::default();
    assert_eq!(w.append_to_active("[00:00:01] ".to_string(), "none".to_string()), None);
    let a = w.new_document();
    let r = w.append_to_active("[10:00:00] ".to_string(), "hello".to_string());
    assert_eq!(r, Some(a));
    let d = &w.documents[&a];
    assert_eq!(d.content, "[10:00:00] hello\n");
    assert_eq!(d.transcript_lines.len(), 1);
    assert_eq!(d.transcript_lines[0].timestamp, "[10:00:00] ");
    assert_eq!(d.transcript_lines[0].text, "hello");
}

#[test]
fn save_target_gives_file_name_and_content() {
    let mut w = Workspace::default();
    let a = w.new_document();
    w.append_to_active("[10:00:00] ".to_string(), "x".to_string());
    let (name, content) = w.save_target(a).unwrap();
    assert_eq!(name, w.documents[&a].to_filename());
    assert!(name.ends_with("-Document-1.md"));
    assert_eq!(content, "[10:00:00] x\n");
    assert!(w.save_target(a.wrapping_add(1)).is_none());
}

#[test]
fn save_targets_in_identifier_order() {
    let mut w = Workspace::default();
    let a = w.new_document();
    let b = w.new_document();
    let targets = w.save_targets();
    assert_eq!(targets.len(), 2);
    let (first, second) = if a < b { (a, b) } else { (b, a) };
    assert_eq!(targets[0].0, w.documents[&first].to_filename());
    assert_eq!(targets[1].0, w.documents[&second].to_filename());
}

#[test]
fn save_due_after_thirty_seconds() {
    let mut w = Workspace::default();
    let a = w.new_document();
    assert!(!w.save_due(a, 29_999));
    assert!(w.save_due(a, 30_000));
    assert!(!w.save_due(a.wrapping_add(1), 60_000));
}

#[test]
fn mark_saved_records_the_instant() {
    let mut w = Workspace::default();
    let a = w.new_document();
    let b = w.new_document();
    let before_b = w.documents[&b].last_save_at;
    let now = std::time::Instant::now();
    w.mark_saved(a, now);
    assert_eq!(w.documents[&a].last_save_at, now);
    assert_eq!(w.documents[&b].last_save_at, before_b);
    assert_eq!(w.documents[&a].title, "Document 1");
}

#[test]
fn interval_elapsed_at_thirty_seconds() {
    assert!(!interval_elapsed(29_999));
    assert!(interval_elapsed(30_000));
    assert!(interval_elapsed(45_000));
}

#[test]
fn load_entry_reads_simple_identifier_names() {
    let r = load_entry("0123456789abcdef0123456789abcdef-My-Notes.md");
    assert_eq!(r, Some((0x0123_4567_89ab_cdef_0123_4567_89ab_cdef, "My Notes".to_string())));
    let r = load_entry("0123456789abcdef0123456789abcdef.md");
    assert_eq!(r, Some((0x0123_4567_89ab_cdef_0123_4567_89ab_cdef, "Untitled".to_string())));
}

#[test]
fn load_entry_passes_over_other_files() {
    assert_eq!(load_entry("notes.txt"), None);
    assert_eq!(load_entry(".md"), None);
    assert_eq!(load_entry("zz.md"), None);
}

#[test]
fn load_entry_does_not_read_hyphenated_names_back() {
    let mut d = Document::new("Meeting".to_string());
    d.id = 0x0123_4567_89ab_cdef_0123_4567_89ab_cdef;
    assert_eq!(load_entry(&d.to_filename()), None);
}

#[test]
fn load_builds_documents_from_files() {
    let entries = vec![
        entry("ffffffffffffffffffffffffffffffff-Second.md", "[00:00:02] b\n"),
        entry("00000000000000000000000000000001-First-Doc.md", "[00:00:01] a\nnoise\n"),
        entry("readme.txt", "ignored"),
    ];
    let w = Workspace::load(PathBuf::from("/nonexistent"), &entries);
    assert_eq!(w.documents.len(), 2);
    assert_eq!(w.active_id, Some(1));
    let d = &w.documents[&1];
    assert_eq!(d.title, "First Doc");
    assert_eq!(d.content, "[00:00:01] a\nnoise\n");
    assert_eq!(d.transcript_lines.len(), 1);
    assert_eq!(d.transcript_lines[0].text, "a");
    assert_eq!(w.documents[&u128::MAX].title, "Second");
}

#[test]
fn load_later_file_replaces_earlier_one() {
    let entries = vec![
        entry("00000000000000000000000000000007-Old.md", "old"),
        entry("00000000000000000000000000000007-New.md", "new"),
    ];
    let w = Workspace::load(PathBuf::from("/nonexistent"), &entries);
    assert_eq!(w.documents.len(), 1);
    assert_eq!(w.documents[&7].title, "New");
    assert_eq!(w.documents[&7].content, "new");
}

#[test]
fn load_of_nothing_is_empty() {
    let w = Workspace::load(PathBuf::from("/nonexistent"), &Vec::new());
    assert!(w.documents.is_empty());
    assert_eq!(w.active_id, None);
}

#[test]
fn parse_all_lines_rebuilds_transcripts() {
    let mut w = Workspace::default();
    let a = w.new_document();
    w.documents.get_mut(&a).unwrap().content = "[01:00] z\n".to_string();
    w.parse_all_lines();
    assert_eq!(w.documents[&a].transcript_lines.len(), 1);
    assert_eq!(w.documents[&a].transcript_lines[0].text, "z");
}
