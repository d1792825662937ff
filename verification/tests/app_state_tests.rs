use std::path::PathBuf;
use whisper_app::app_state::{AppState, Effect, Message, Outcome, Pending};
use whisper_app::backend::{BackendError, ModelStatus, TranscriptionResult};
use whisper_app::workspace::Workspace;

fn state() -> AppState {
    AppState::new(PathBuf::from("/nonexistent/models"))
}

fn is_clock_stamp(s: &str) -> bool {
    let b = s.as_bytes();
    b.len() == 11
        && b[0] == b'['
        && b[3] == b':'
        && b[6] == b':'
        && b[9] == b']'
        && b[10] == b' '
        && [1, 2, 4, 5, 7, 8].iter().all(|&i| b[i].is_ascii_digit())
}

#[test]
fn new_state_defaults() {
    let s = state();
    assert!(s.workspace.documents.is_empty());
    assert_eq!(s.selected_model_idx, 1);
    assert_eq!(s.language, "en");
    assert!(matches!(s.model_status, ModelStatus::NotDownloaded));
    assert!(matches!(s.pending, Pending::Idle));
    assert!(!s.is_backend_ready());
    assert!(!s.is_recording);
}

#[test]
fn new_document_message_adds_and_saves_settings() {
    let mut s = state();
    let eff = s.update(Message::NewDocument);
    assert_eq!(s.workspace.documents.len(), 1);
    let id = *s.workspace.documents.keys().next().unwrap();
    assert_eq!(s.active_id, Some(id));
    assert_eq!(s.workspace.active_id, Some(id));
    assert_eq!(eff.len(), 1);
    assert!(matches!(eff[0], Effect::SaveAppState));
}

#[test]
fn select_document_saves_previous() {
    let mut s = state();
    s.update(Message::NewDocument);
    let first = s.active_id.unwrap();
    s.update(Message::NewDocument);
    let second = s.active_id.unwrap();
    let eff = s.update(Message::SelectDocument(first));
    assert_eq!(s.active_id, Some(first));
    assert_eq!(s.last_active_doc, Some(second));
    assert_eq!(s.workspace.active_id, Some(first));
    assert_eq!(eff.len(), 2);
    assert!(matches!(eff[0], Effect::SaveDocument(id) if id == second));
    assert!(matches!(eff[1], Effect::SaveAppState));
}

#[test]
fn delete_document_message() {
    let mut s = state();
    s.update(Message::NewDocument);
    let id = s.active_id.unwrap();
    let eff = s.update(Message::DeleteDocument(id));
    assert!(eff.is_empty());
    assert!(s.workspace.documents.is_empty());
    assert_eq!(s.workspace.active_id, None);
}

#[test]
fn transcription_update_appends_stamped_line() {
    let mut s = state();
    s.update(Message::NewDocument);
    let id = s.active_id.unwrap();
    let eff = s.update(Message::TranscriptionUpdate("  hello world  ".to_string()));
    let doc = &s.workspace.documents[&id];
    assert!(doc.content.ends_with("hello world\n"));
    assert!(is_clock_stamp(&doc.content[..11]));
    assert_eq!(doc.transcript_lines.len(), 1);
    assert!(is_clock_stamp(&doc.transcript_lines[0].timestamp));
    assert_eq!(doc.transcript_lines[0].text, "hello world");
    assert_eq!(eff.len(), 1);
    match &eff[0] {
        Effect::SaveIfDue { id: d, file_name, content } => {
            assert_eq!(*d, id);
            assert_eq!(*file_name, doc.to_filename());
            assert_eq!(*content, doc.content);
        },
        _ => panic!("expected a save"),
    }
}

#[test]
fn transcription_reads_back_from_content() {
    let mut s = state();
    s.update(Message::NewDocument);
    let id = s.active_id.unwrap();
    s.update(Message::TranscriptionUpdate("first".to_string()));
    s.update(Message::TranscriptionUpdate("second".to_string()));
    let doc = &s.workspace.documents[&id];
    let reread = whisper_app::document::TranscriptLine::parse_content(&doc.content);
    assert_eq!(reread.len(), 2);
    assert_eq!(reread[1].text, "second");
    assert_eq!(reread[1].timestamp, doc.transcript_lines[1].timestamp.trim_end());
}

#[test]
fn empty_transcription_changes_nothing() {
    let mut s = state();
    s.update(Message::NewDocument);
    let id = s.active_id.unwrap();
    let eff = s.update(Message::TranscriptionUpdate(String::new()));
    assert!(eff.is_empty());
    assert!(s.workspace.documents[&id].content.is_empty());
}

#[test]
fn transcription_without_document_saves_nothing() {
    let mut s = state();
    let eff = s.update(Message::TranscriptionUpdate("lost".to_string()));
    assert!(eff.is_empty());
    assert!(s.workspace.documents.is_empty());
}

#[test]
fn error_update_is_shown_without_tags() {
    let mut s = state();
    s.update(Message::NewDocument);
    let id = s.active_id.unwrap();
    let eff = s.update(Message::TranscriptionUpdate("[Error][Error]  it broke ".to_string()));
    assert!(eff.is_empty());
    assert_eq!(s.error_message.as_deref(), Some("it broke"));
    assert!(s.workspace.documents[&id].content.is_empty());
}

#[test]
fn start_record_without_downloaded_model_reports_it() {
    let mut s = state();
    let eff = s.update(Message::StartRecord);
    assert!(eff.is_empty());
    assert_eq!(s.workspace.documents.len(), 1);
    assert!(!s.is_recording);
    assert_eq!(s.error_message.as_deref(), Some("Model 'Base' not downloaded. Download it in Settings."));
}

#[test]
fn start_record_while_downloading_is_refused() {
    let mut s = state();
    s.update(Message::DownloadModel(2));
    let eff = s.update(Message::StartRecord);
    assert!(eff.is_empty());
    assert!(!s.is_recording);
    assert_eq!(s.error_message.as_deref(), Some("Cannot start recording while a model is downloading"));
}

#[test]
fn start_record_with_unknown_model_index() {
    let mut s = state();
    s.update(Message::ModelSelected(9));
    let eff = s.update(Message::StartRecord);
    assert!(eff.is_empty());
    assert_eq!(s.error_message.as_deref(), Some("No model selected"));
}

#[test]
fn stop_record_saves_and_winds_down() {
    let mut s = state();
    s.update(Message::NewDocument);
    let id = s.active_id.unwrap();
    let eff = s.update(Message::StopRecord);
    assert!(!s.is_recording && !s.is_stopping);
    assert_eq!(eff.len(), 3);
    assert!(matches!(eff[0], Effect::SaveDocument(d) if d == id));
    assert!(matches!(eff[1], Effect::SaveAllDocuments));
    assert!(matches!(eff[2], Effect::CloseResultSender));
}

#[test]
fn download_messages() {
    let mut s = state();
    let eff = s.update(Message::DownloadModel(2));
    assert_eq!(s.downloading_model, Some(2));
    assert!(matches!(s.model_status, ModelStatus::Downloading(0)));
    assert!(matches!(eff[..], [Effect::StartDownload(2)]));
    let again = s.update(Message::DownloadModel(3));
    assert!(again.is_empty());
    assert_eq!(s.downloading_model, Some(2));
    let pct = 42.5f32.to_bits();
    s.update(Message::ModelDownloadProgress(pct));
    assert!(matches!(s.model_status, ModelStatus::Downloading(p) if p == pct));
    let eff = s.update(Message::ModelDownloadError("net down".to_string()));
    assert_eq!(s.downloading_model, None);
    assert!(matches!(s.model_status, ModelStatus::Error(ref e) if e == "net down"));
    assert!(matches!(eff[..], [Effect::ClearDownload { done: true }]));
}

#[test]
fn download_complete_reloads_catalogue() {
    let mut s = state();
    s.update(Message::DownloadModel(0));
    let eff = s.update(Message::ModelDownloadComplete);
    assert!(matches!(s.model_status, ModelStatus::Ready));
    assert_eq!(s.downloading_model, None);
    assert_eq!(s.models.len(), 5);
    assert!(matches!(eff[..], [Effect::ClearDownload { done: true }]));
}

#[test]
fn settings_messages() {
    let mut s = state();
    s.update(Message::ShowSettings);
    assert!(s.show_settings);
    s.update(Message::LanguageSearch("fr".to_string()));
    assert_eq!(s.language_search, "fr");
    let eff = s.update(Message::HideSettings);
    assert!(!s.show_settings);
    assert!(s.language_search.is_empty());
    assert!(matches!(eff[..], [Effect::ClearDownload { done: false }]));
    let eff = s.update(Message::LanguageChanged("de".to_string()));
    assert_eq!(s.language, "de");
    assert!(matches!(eff[..], [Effect::SaveAppState]));
}

#[test]
fn rename_flow_sanitizes_title() {
    let mut s = state();
    s.update(Message::NewDocument);
    let id = s.active_id.unwrap();
    s.update(Message::RenameDocument(id));
    assert_eq!(s.rename_doc, Some(id));
    assert_eq!(s.rename_input, "Document 1");
    s.update(Message::RenameDocumentConfirm("Team sync!".to_string()));
    assert_eq!(s.rename_doc, None);
    assert_eq!(s.workspace.documents[&id].title, "Team-sync");
    assert_eq!(s.rename_input, "Team-sync");
}

#[test]
fn rename_to_nothing_keeps_title() {
    let mut s = state();
    s.update(Message::NewDocument);
    let id = s.active_id.unwrap();
    s.update(Message::RenameDocument(id));
    s.update(Message::RenameDocumentConfirm("???".to_string()));
    assert_eq!(s.rename_doc, None);
    assert_eq!(s.workspace.documents[&id].title, "Document 1");
}

#[test]
fn simple_flag_messages() {
    let mut s = state();
    s.update(Message::AudioLevelUpdate(0.5f32.to_bits()));
    assert_eq!(s.audio_level, 0.5f32.to_bits());
    s.update(Message::BackendInitError("bad".to_string()));
    assert_eq!(s.error_message.as_deref(), Some("bad"));
    s.update(Message::ClearError);
    assert_eq!(s.error_message, None);
    s.show_landing = true;
    s.update(Message::HideLanding);
    assert!(!s.show_landing);
    s.update(Message::HoverDoc(Some(3)));
    assert_eq!(s.hovered_doc, Some(3));
    s.is_paused = true;
    s.update(Message::ResumeRecord);
    assert!(!s.is_paused);
    assert!(s.update(Message::SaveComplete).is_empty());
}

#[test]
fn poll_takes_in_drained_results() {
    let mut s = state();
    s.update(Message::NewDocument);
    let id = s.active_id.unwrap();
    let eff = s.update(Message::PollTrigger);
    assert!(matches!(s.pending, Pending::Poll));
    assert!(matches!(eff[..], [Effect::Drain]));
    s.downloading_model = Some(1);
    let pct = 10.0f32.to_bits();
    let eff = s.resume(Outcome::Drained {
        results: vec![
            TranscriptionResult::Segment("one".to_string()),
            TranscriptionResult::Error("boom".to_string()),
            TranscriptionResult::Segment("two".to_string()),
        ],
        levels: vec![1, 9],
        download_done: false,
        progress: vec![(pct, true)],
    });
    assert!(matches!(s.pending, Pending::Idle));
    let doc = &s.workspace.documents[&id];
    assert_eq!(doc.transcript_lines.len(), 2);
    assert_eq!(doc.transcript_lines[0].text, "one");
    assert_eq!(doc.transcript_lines[1].text, "two");
    assert_eq!(s.error_message.as_deref(), Some("boom"));
    assert_eq!(s.audio_level, 9);
    assert!(matches!(s.model_status, ModelStatus::Downloading(p) if p == pct));
    assert_eq!(eff.len(), 2);
    assert!(eff.iter().all(|e| matches!(e, Effect::SaveIfDue { id: d, .. } if *d == id)));
}

#[test]
fn resume_with_unexpected_outcome_changes_nothing() {
    let mut s = state();
    let eff = s.resume(Outcome::AudioInit(Ok(())));
    assert!(eff.is_empty());
    assert!(matches!(s.pending, Pending::Idle));
}

#[test]
fn boot_without_models_shows_landing() {
    let entries = vec![("00000000000000000000000000000005-Kept.md".to_string(), "[00:01] x\n".to_string())];
    let w = Workspace::load(PathBuf::from("/nonexistent"), &entries);
    let (s, eff) = AppState::boot(
        PathBuf::from("/nonexistent/models"),
        w,
        1,
        "en".to_string(),
        Some(5),
        vec![("en".to_string(), "english".to_string())],
    );
    assert!(eff.is_empty());
    assert!(s.show_landing);
    assert!(matches!(s.model_status, ModelStatus::NotDownloaded));
    assert_eq!(s.models.len(), 5);
    assert_eq!(s.workspace.documents[&5].transcript_lines.len(), 1);
    assert_eq!(s.last_active_doc, Some(5));
    assert_eq!(s.language_options.len(), 1);
}

#[test]
fn backend_error_during_record_start_is_shown() {
    let mut s = state();
    s.pending = Pending::Backend {
        purpose: whisper_app::app_state::Purpose::StartRecord,
        cpu: true,
        dir: PathBuf::from("/models"),
        file_name: "m.bin".to_string(),
    };
    s.is_recording = true;
    let eff = s.resume(Outcome::BackendLoaded(Err(BackendError::ModelNotLoaded)));
    assert!(eff.is_empty());
    assert!(!s.is_recording);
    assert_eq!(s.error_message.as_deref(), Some("Failed to load model (CPU fallback): model not loaded"));
}

#[test]
fn first_backend_failure_retries_on_cpu() {
    let mut s = state();
    s.pending = Pending::Backend {
        purpose: whisper_app::app_state::Purpose::LoadModel,
        cpu: false,
        dir: PathBuf::from("/models"),
        file_name: "m.bin".to_string(),
    };
    let eff = s.resume(Outcome::BackendLoaded(Err(BackendError::ModelNotLoaded)));
    assert!(matches!(s.pending, Pending::Backend { cpu: true, .. }));
    assert_eq!(eff.len(), 1);
    assert!(matches!(eff[0], Effect::LoadBackend { ref dir, ref file_name, cpu_only: true, .. }
        if *dir == PathBuf::from("/models") && file_name == "m.bin"));
}

#[test]
fn successful_load_marks_model_ready() {
    let mut s = state();
    s.pending = Pending::Backend {
        purpose: whisper_app::app_state::Purpose::LoadModel,
        cpu: true,
        dir: PathBuf::from("/models"),
        file_name: "m.bin".to_string(),
    };
    let eff = s.resume(Outcome::BackendLoaded(Ok("CUDA".to_string())));
    assert!(eff.is_empty());
    assert!(s.is_backend_ready());
    assert!(s.model_loaded);
    assert_eq!(s.accelerator.as_deref(), Some("CPU"));
    assert!(matches!(s.model_status, ModelStatus::Ready));
}

#[test]
fn backend_for_model_decides_from_the_entry_read() {
    let mut s = state();
    let eff = s.backend_for_model(whisper_app::app_state::Purpose::LoadModel, None);
    assert!(eff.is_empty());
    assert!(matches!(s.model_status, ModelStatus::Error(ref e) if e == "No model selected"));
    let absent = whisper_app::models::ModelInfo {
        name: "Base".to_string(),
        filename: "ggml-base.bin".to_string(),
        path: PathBuf::from("/nonexistent/models/ggml-base.bin"),
        size_bytes: 142_000_000,
        downloaded: false,
    };
    let mut s = state();
    s.backend_for_model(whisper_app::app_state::Purpose::LoadModel, Some(&absent));
    assert!(matches!(s.model_status, ModelStatus::Error(ref e)
        if e == "Model 'Base' not downloaded. Download it in Settings."));
    let present = whisper_app::models::ModelInfo { downloaded: true, ..absent };
    let mut s = state();
    s.language = "de".to_string();
    let eff = s.backend_for_model(whisper_app::app_state::Purpose::LoadModel, Some(&present));
    assert_eq!(eff.len(), 1);
    match &eff[0] {
        Effect::LoadBackend { dir, file_name, params, cpu_only } => {
            assert_eq!(*dir, PathBuf::from("/nonexistent/models"));
            assert_eq!(file_name, "ggml-base.bin");
            assert!(!cpu_only);
            assert_eq!(params.language.as_deref(), Some("de"));
            assert_eq!(params.beam_size, 1);
            assert!(!params.vad_enabled);
        },
        _ => panic!("expected a model load"),
    }
    assert!(matches!(s.pending, Pending::Backend { cpu: false, ref file_name, .. } if file_name == "ggml-base.bin"));
}
