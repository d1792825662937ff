use std::path::PathBuf;
use whisper_app::app_state::{restored_settings, AppState, Effect, Message, Pending, SavedSettings};
use whisper_app::config::{cache_dir_choice, config_dir_choice, Platform};
use whisper_app::models::{unknown_model_message, ModelManager};

fn state() -> AppState {
    AppState::new(PathBuf::from("/nonexistent/models"))
}

fn awaits(e: &Effect) -> bool {
    matches!(
        e,
        Effect::LoadBackend { .. } | Effect::InitAudio | Effect::StartCapture | Effect::JoinWorker | Effect::Drain
    )
}

#[test]
fn config_dirs_per_platform() {
    let home = Some("/home/u".to_string());
    let mac = config_dir_choice(Platform::MacOs, home.clone(), None);
    assert_eq!(mac.base.as_deref(), Some("/home/u"));
    assert_eq!(mac.relative, "Library/Application Support/whisper-app");
    let linux = config_dir_choice(Platform::Other, home.clone(), None);
    assert_eq!(linux.relative, ".local/share/whisper-app");
    let win = config_dir_choice(Platform::Windows, home.clone(), Some("C:\\AppData".to_string()));
    assert_eq!(win.base.as_deref(), Some("C:\\AppData"));
    assert_eq!(win.relative, "whisper-app");
    let win_home = config_dir_choice(Platform::Windows, home.clone(), None);
    assert_eq!(win_home.base.as_deref(), Some("/home/u"));
    let nowhere = config_dir_choice(Platform::Other, None, None);
    assert_eq!(nowhere.base, None);
    assert_eq!(nowhere.relative, "whisper-app-data");
}

#[test]
fn cache_dirs_per_platform() {
    let home = Some("/home/u".to_string());
    assert_eq!(cache_dir_choice(Platform::MacOs, home.clone(), None).relative, "Library/Caches/whisper-app");
    assert_eq!(cache_dir_choice(Platform::Other, home.clone(), None).relative, ".cache/whisper-app");
    let win = cache_dir_choice(Platform::Windows, None, Some("L".to_string()));
    assert_eq!(win.base.as_deref(), Some("L"));
    assert_eq!(win.relative, "whisper-app/Cache");
    let nowhere = cache_dir_choice(Platform::Windows, None, None);
    assert_eq!(nowhere.base, None);
    assert_eq!(nowhere.relative, ".cache/whisper-app");
}

#[test]
fn restored_settings_defaults_and_values() {
    let (idx, lang, last) = restored_settings(None);
    assert_eq!((idx, lang.as_str(), last), (0, "en", None));
    let stored = SavedSettings {
        selected_model_idx: 3,
        language: "de".to_string(),
        last_active_doc: Some("00000000-0000-0000-0000-00000000002a".to_string()),
    };
    let (idx, lang, last) = restored_settings(Some(stored));
    assert_eq!((idx, lang.as_str(), last), (3, "de", Some(42)));
    let broken = SavedSettings { selected_model_idx: 1, language: "fr".to_string(), last_active_doc: Some("nope".to_string()) };
    assert_eq!(restored_settings(Some(broken)).2, None);
}

#[test]
fn saved_settings_round_trip() {
    let mut s = state();
    s.update(Message::NewDocument);
    let first = s.active_id.unwrap();
    s.update(Message::NewDocument);
    s.update(Message::SelectDocument(first));
    s.update(Message::LanguageChanged("it".to_string()));
    let saved = s.saved_settings();
    assert_eq!(saved.selected_model_idx, 1);
    assert_eq!(saved.language, "it");
    let (_, _, last) = restored_settings(Some(saved));
    assert_eq!(last, s.last_active_doc);
}

#[test]
fn download_targets() {
    let m = ModelManager::new(PathBuf::from("/nonexistent/models"));
    let (url, tmp, size) = m.download_target(0).unwrap();
    assert_eq!(url, "https://huggingface.co/ggerganov/whisper.cpp/resolve/main/ggml-tiny.bin?download=true");
    assert_eq!(tmp, ".ggml-tiny.bin.tmp");
    assert_eq!(size, 75_000_000);
    assert_eq!(m.download_target(7).unwrap_err(), "Unknown model index: 7");
    assert_eq!(unknown_model_message(12), "Unknown model index: 12");
}

#[test]
fn every_step_keeps_the_workspace_valid() {
    let mut s = state();
    let messages = vec![
        Message::NewDocument,
        Message::NewDocument,
        Message::DeleteDocument(0),
        Message::StartRecord,
        Message::StopRecord,
        Message::TranscriptionUpdate("x".to_string()),
    ];
    for m in messages {
        s.update(m);
        for (k, d) in &s.workspace.documents {
            assert_eq!(*k, d.id);
        }
        if let Some(a) = s.workspace.active_id {
            assert!(s.workspace.documents.contains_key(&a));
        }
    }
    let active = s.workspace.active_id.unwrap();
    s.update(Message::DeleteDocument(active));
    if let Some(a) = s.workspace.active_id {
        assert!(s.workspace.documents.contains_key(&a));
        assert_eq!(Some(&a), s.workspace.documents.keys().next());
    }
}

#[test]
fn effects_hand_over_one_awaited_outcome_last() {
    let mut s = state();
    for m in vec![Message::NewDocument, Message::PollTrigger] {
        let eff = s.update(m);
        for e in eff.iter().take(eff.len().saturating_sub(1)) {
            assert!(!awaits(e));
        }
        match eff.last() {
            Some(Effect::Drain) => assert!(matches!(s.pending, Pending::Poll)),
            Some(e) if awaits(e) => panic!("unexpected awaited effect"),
            _ => assert!(matches!(s.pending, Pending::Idle)),
        }
    }
}
