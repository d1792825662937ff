use std::path::PathBuf;
use whisper_app::backend::{
    accelerator_from_system_info, check_model_file, thread_count, worker_report, worker_step, WorkerStep,
    BackendError,
    BackendParams, ModelStatus, TranscriptSegment, TranscriptionContext, TranscriptionResult,
};
use whisper_app::models::{download_url, temp_filename, ModelManager, MODEL_COUNT};

fn context(text: &str) -> TranscriptionContext {
    let mut c = TranscriptionContext::new(BackendParams::default(), "CPU".to_string(), false);
    c.accumulated_text = text.to_string();
    c
}

#[test]
fn backend_params_default() {
    let p = BackendParams::default();
    assert_eq!(p.language.as_deref(), Some("en"));
    assert_eq!(p.beam_size, 1);
    assert!(p.vad_enabled);
}

#[test]
fn model_status_default_is_not_downloaded() {
    assert!(matches!(ModelStatus::default(), ModelStatus::NotDownloaded));
}

#[test]
fn backend_error_messages() {
    assert_eq!(BackendError::ModelNotLoaded.message(), "model not loaded");
    assert_eq!(BackendError::InvalidAudio("x".to_string()).message(), "invalid audio data: x");
    assert_eq!(BackendError::TranscriptionFailed("y".to_string()).message(), "transcription failed: y");
    assert_eq!(BackendError::Internal("z".to_string()).message(), "backend error: z");
}

#[test]
fn worker_report_of_segments_and_errors() {
    let r = worker_report(Ok(TranscriptSegment::untimed("words".to_string())));
    assert!(matches!(r, Some(TranscriptionResult::Segment(ref t)) if t == "words"));
    assert!(worker_report(Ok(TranscriptSegment::untimed(String::new()))).is_none());
    let e = worker_report(Err(BackendError::ModelNotLoaded));
    assert!(matches!(e, Some(TranscriptionResult::Error(ref m)) if m == "model not loaded"));
}

#[test]
fn untimed_segment_has_zero_times() {
    let s = TranscriptSegment::untimed("a".to_string());
    assert_eq!(s.start, std::time::Duration::ZERO);
    assert_eq!(s.end, std::time::Duration::ZERO);
}

#[test]
fn accelerator_names_from_system_info() {
    assert_eq!(accelerator_from_system_info("AVX = 1 | CUDA = 1"), "CUDA");
    assert_eq!(accelerator_from_system_info("Metal and CUDA"), "Metal");
    assert_eq!(accelerator_from_system_info("Vulkan"), "Vulkan");
    assert_eq!(accelerator_from_system_info("AVX2 = 1"), "CPU");
}

#[test]
fn thread_count_is_held_between_two_and_eight() {
    assert_eq!(thread_count(Some(1)), 2);
    assert_eq!(thread_count(Some(6)), 6);
    assert_eq!(thread_count(Some(64)), 8);
    assert_eq!(thread_count(None), 4);
}

#[test]
fn check_model_file_problems() {
    let missing = check_model_file("/m.bin", false, Ok((true, 5)));
    assert!(matches!(missing, Err(BackendError::Internal(ref m)) if m == "Model file not found: /m.bin"));
    let unreadable = check_model_file("/m.bin", true, Err("denied".to_string()));
    assert!(matches!(unreadable, Err(BackendError::Internal(ref m)) if m == "Cannot read model file: denied"));
    let dir = check_model_file("/m.bin", true, Ok((false, 5_000_000)));
    assert!(matches!(dir, Err(BackendError::Internal(ref m)) if m == "Model path is not a file: /m.bin"));
    let small = check_model_file("/m.bin", true, Ok((true, 1234)));
    assert!(matches!(small, Err(BackendError::Internal(ref m))
        if m == "Model file too small (1234 bytes), may be corrupted: /m.bin"));
    assert!(check_model_file("/m.bin", true, Ok((true, 1_000_000))).is_ok());
}

#[test]
fn join_segments_trims_and_spaces() {
    let texts = vec![" Hello ".to_string(), String::new(), "world ".to_string()];
    assert_eq!(TranscriptionContext::join_segments(&texts), "Hello world");
    assert_eq!(TranscriptionContext::join_segments(&Vec::new()), "");
}

#[test]
fn merge_text_into_empty_context() {
    let mut c = context("");
    c.merge_text("  first words ");
    assert_eq!(c.accumulated_text, "first words");
}

#[test]
fn merge_text_continuing_context_adds_remainder() {
    let mut c = context("hello");
    c.merge_text("hello world");
    assert_eq!(c.accumulated_text, "helloworld");
}

#[test]
fn merge_text_already_held_adds_nothing() {
    let mut c = context("hello world");
    c.merge_text("hello");
    assert_eq!(c.accumulated_text, "hello world");
    c.merge_text("");
    assert_eq!(c.accumulated_text, "hello world");
}

#[test]
fn merge_text_other_text_is_appended_after_space() {
    let mut c = context("alpha");
    c.merge_text(" beta ");
    assert_eq!(c.accumulated_text, "alpha beta");
}

#[test]
fn prompt_is_the_last_hundred_fifty_characters() {
    let c = context("");
    assert_eq!(c.prompt(), None);
    let short = context("abc");
    assert_eq!(short.prompt().as_deref(), Some("abc"));
    let long_text = format!("{}{}", "a".repeat(100), "b".repeat(150));
    let long = context(&long_text);
    assert_eq!(long.prompt(), Some("b".repeat(150)));
    let just_over = context(&"x".repeat(151));
    assert_eq!(just_over.prompt(), Some("x".repeat(150)));
}

#[test]
fn prompt_cuts_by_characters() {
    let text = format!("{}{}", "a", "é".repeat(150));
    let c = context(&text);
    assert_eq!(c.prompt(), Some("é".repeat(150)));
}

#[test]
fn bound_context_keeps_last_bytes() {
    let mut c = context(&format!("{}{}", "x".repeat(10), "y".repeat(2048)));
    assert!(c.context_cut_ok());
    c.bound_context();
    assert_eq!(c.accumulated_text, "y".repeat(2048));
    let mut small = context("short");
    small.bound_context();
    assert_eq!(small.accumulated_text, "short");
}

#[test]
fn finish_chunk_renews_every_180_chunks() {
    let mut c = context("");
    for _ in 0..179 {
        assert!(!c.finish_chunk());
    }
    assert!(c.finish_chunk());
    assert_eq!(c.chunks_processed, 180);
    c.state_renewed();
    assert_eq!(c.chunks_processed, 0);
}

#[test]
fn begin_cpu_retry_only_once() {
    let mut c = context("");
    assert!(!c.begin_cpu_retry(false));
    assert!(c.begin_cpu_retry(true));
    assert!(c.fallback_to_cpu);
    assert!(!c.begin_cpu_retry(true));
}

#[test]
fn model_manager_catalogue() {
    let m = ModelManager::new(PathBuf::from("/nonexistent/models"));
    let models = m.available_models();
    assert_eq!(models.len(), MODEL_COUNT);
    let names: Vec<&str> = models.iter().map(|x| x.name.as_str()).collect();
    assert_eq!(names, vec!["Tiny", "Base", "Small", "Medium", "Large v3"]);
    assert_eq!(models[0].filename, "ggml-tiny.bin");
    assert_eq!(models[4].filename, "ggml-large-v3.bin");
    assert_eq!(models[1].size_bytes, 142_000_000);
    assert_eq!(models[0].path, PathBuf::from("/nonexistent/models/ggml-tiny.bin"));
    assert!(models.iter().all(|x| !x.downloaded));
    assert!(m.downloaded_models().is_empty());
    assert_eq!(m.get_model_by_index(2).map(|x| x.name.as_str()), Some("Small"));
    assert!(m.get_model_by_index(5).is_none());
}

#[test]
fn language_options_keep_complete_entries() {
    let entries = vec![
        (Some("en".to_string()), Some("english".to_string())),
        (Some("xx".to_string()), None),
        (None, Some("nothing".to_string())),
        (Some("de".to_string()), Some("german".to_string())),
    ];
    let r = ModelManager::language_options(entries);
    assert_eq!(r, vec![
        ("en".to_string(), "english".to_string()),
        ("de".to_string(), "german".to_string()),
    ]);
}

#[test]
fn download_addresses() {
    assert_eq!(
        download_url("ggml-tiny.bin"),
        "https://huggingface.co/ggerganov/whisper.cpp/resolve/main/ggml-tiny.bin?download=true"
    );
    assert_eq!(temp_filename("ggml-tiny.bin"), ".ggml-tiny.bin.tmp");
}

#[test]
fn worker_steps() {
    assert_eq!(worker_step(false, 10, false), WorkerStep::Stop);
    assert_eq!(worker_step(true, 10, true), WorkerStep::Stop);
    assert_eq!(worker_step(true, 0, false), WorkerStep::Wait);
    assert_eq!(worker_step(true, 16000, false), WorkerStep::Transcribe);
}

#[test]
fn model_manager_with_presence() {
    let m = ModelManager::with_presence(PathBuf::from("/m"), &vec![false, true, false, true, false]);
    let v = m.available_models();
    assert_eq!(v.len(), MODEL_COUNT);
    assert_eq!(v.iter().map(|x| x.downloaded).collect::<Vec<bool>>(), vec![false, true, false, true, false]);
    assert_eq!(v[3].path, PathBuf::from("/m/ggml-medium.bin"));
    let names: Vec<&str> = m.downloaded_models().iter().map(|x| x.name.as_str()).collect();
    assert_eq!(names, vec!["Base", "Medium"]);
}
