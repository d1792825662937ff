use whisper_app::app_state::Message;
use whisper_app::backend::ModelStatus;
use whisper_app::models::ModelInfo;
use whisper_app::presentation::{
    controls_view, editor_title, language_list, model_rows, sidebar_rows, status_text, Indicator,
    ModelRowAction, RowShade,
};
use whisper_app::workspace::Workspace;

fn model(downloaded: bool) -> ModelInfo {
    ModelInfo {
        name: "M".to_string(),
        filename: "m.bin".to_string(),
        path: std::path::PathBuf::from("/m.bin"),
        size_bytes: 1,
        downloaded,
    }
}

fn options() -> Vec<(String, String)> {
    vec![
        ("en".to_string(), "english".to_string()),
        ("de".to_string(), "german".to_string()),
        ("fr".to_string(), "French".to_string()),
    ]
}

#[test]
fn controls_without_model() {
    let v = controls_view(false, false, false, &None);
    assert_eq!(v.button_label, "Record");
    assert!(matches!(v.button_message, Message::StopRecord));
    assert_eq!(v.indicator, Indicator::NoModel);
    assert_eq!(v.status_label, "No model loaded");
    assert_eq!(v.accelerator_label, "");
}

#[test]
fn controls_while_recording() {
    let v = controls_view(true, false, true, &Some("CUDA".to_string()));
    assert_eq!(v.button_label, "Stop");
    assert!(matches!(v.button_message, Message::StopRecord));
    assert!(v.recording_active);
    assert_eq!(v.indicator, Indicator::Recording);
    assert_eq!(v.status_label, "REC");
    assert_eq!(v.accelerator_label, "[CUDA]");
}

#[test]
fn controls_paused_and_idle() {
    let paused = controls_view(true, true, true, &None);
    assert_eq!(paused.button_label, "Resume");
    assert!(matches!(paused.button_message, Message::ResumeRecord));
    assert_eq!(paused.indicator, Indicator::Idle);
    assert_eq!(paused.status_label, "Ready");
    let idle = controls_view(false, false, true, &None);
    assert_eq!(idle.button_label, "Record");
    assert!(matches!(idle.button_message, Message::StartRecord));
}

#[test]
fn sidebar_rows_in_identifier_order() {
    let mut w = Workspace::default();
    let a = w.new_document();
    let b = w.new_document();
    let rows = sidebar_rows(&w, Some(b), Some(a), Some(a));
    assert_eq!(rows.len(), 2);
    assert!(rows[0].id < rows[1].id);
    for r in &rows {
        assert_eq!(r.title, w.documents[&r.id].title);
        assert_eq!(r.active, r.id == b);
        assert_eq!(r.renaming, r.id == a);
        assert_eq!(r.hovered, r.id == a);
        assert_eq!(r.outlined, r.id == a);
        assert_eq!(r.shade, if r.id == b { RowShade::Active } else { RowShade::Hovered });
    }
}

#[test]
fn editor_title_of_active_document() {
    let mut w = Workspace::default();
    assert_eq!(editor_title(w.active()), "Untitled");
    w.new_document();
    assert_eq!(editor_title(w.active()), "Document 1");
}

#[test]
fn model_row_actions() {
    let models = vec![model(true), model(true), model(false), model(false)];
    let pct = 12.5f32.to_bits();
    let rows = model_rows(&models, 0, Some(3), &ModelStatus::Downloading(pct), false);
    assert_eq!(rows.len(), 4);
    assert!(rows[0].selected);
    assert_eq!(rows[0].action, ModelRowAction::Load);
    assert_eq!(rows[1].action, ModelRowAction::Check);
    assert_eq!(rows[2].action, ModelRowAction::Download);
    assert_eq!(rows[3].action, ModelRowAction::Progress);
    assert_eq!(rows[3].progress, Some(pct));
    assert_eq!(rows[2].progress, None);
    let ready = model_rows(&models, 0, None, &ModelStatus::Ready, true);
    assert_eq!(ready[0].action, ModelRowAction::Check);
}

#[test]
fn status_texts() {
    assert_eq!(status_text(&ModelStatus::Downloading(0), false), None);
    assert_eq!(status_text(&ModelStatus::Ready, true).as_deref(), Some("Model loaded and ready"));
    assert_eq!(
        status_text(&ModelStatus::Ready, false).as_deref(),
        Some("Model downloaded — click Load Model to use")
    );
    assert_eq!(
        status_text(&ModelStatus::NotDownloaded, false).as_deref(),
        Some("Not downloaded — download a model to get started")
    );
    assert_eq!(status_text(&ModelStatus::Error("x".to_string()), false).as_deref(), Some("Error: x"));
}

#[test]
fn language_list_filters_case_insensitively() {
    let opts = options();
    let all = language_list(&opts, "");
    assert_eq!(all.matches, vec![0, 1, 2]);
    assert!(!all.none_found);
    let fr = language_list(&opts, "FRE");
    assert_eq!(fr.matches, vec![2]);
    let by_code = language_list(&opts, "De");
    assert_eq!(by_code.matches, vec![1]);
    let ish = language_list(&opts, "n");
    assert_eq!(ish.matches, vec![0, 1, 2]);
    let none = language_list(&opts, "zz");
    assert!(none.matches.is_empty());
    assert!(none.none_found);
}
