//! The application's state and how it answers each message: the decisions
//! of the user interface loop. Outside work (files, audio, the speech model,
//! threads) is asked for through effects; where the next decision depends on
//! how that work went, the application hands the outcome back.
use vstd::prelude::*;
use vstd::string::StringExecFns;
use crate::backend::{backend_error_text, BackendError, BackendParams, ModelStatus, TranscriptionResult};
use crate::clock::{clock_text, local_time_of_day};
use crate::ids::{parse_uuid, parsed_uuid, uuid_text, uuid_text_spec};
use crate::document::{
    appended_line_reads_back, last_lines, lines_view, sanitize_spec, transcript_spec, Document, LineView,
    MAX_TRANSCRIPT_LINES,
};
use crate::models::{ModelInfo, ModelManager};
use crate::text::{chars_of, lemma_trim_idempotent, string_of, trim_bounds, trim_spec};
use crate::backend::is_prefix;
use crate::workspace::{
    appended_to_active, document_deleted, document_renamed, new_document_added, save_file_spec,
    Workspace,
};

verus! {

/// What the user interface and the background work tell the application.
/// Identifiers are the 128-bit values of document UUIDs; levels and
/// percentages are the bit patterns of their `f32` values.
#[derive(Debug, Clone)]
pub enum Message {
    NewDocument,
    SelectDocument(u128),
    DeleteDocument(u128),
    StartRecord,
    StopRecord,
    ResumeRecord,
    ShowSettings,
    HideSettings,
    SaveSettings,
    TranscriptionUpdate(String),
    AudioLevelUpdate(u32),
    ModelDownloadProgress(u32),
    ModelDownloadComplete,
    ModelDownloadError(String),
    ModelSelected(usize),
    LanguageChanged(String),
    DownloadModel(usize),
    LoadModel(usize),
    InitBackend,
    BackendInitError(String),
    PollTrigger,
    DownloadPoll,
    RenameDocument(u128),
    RenameDocumentConfirm(String),
    ClearError,
    HideLanding,
    LanguageSearch(String),
    SaveComplete,
    HoverDoc(Option<u128>),
}

/// Outside work the application is asked to do, in the order given.
#[derive(Debug)]
pub enum Effect {
    /// Write the settings file: selected model, language, last active document.
    SaveAppState,
    /// Write one document's file; a failure is ignored.
    SaveDocument(u128),
    /// Write every document's file, stopping at the first failure, which is ignored.
    SaveAllDocuments,
    /// If the document is due for saving, write this file and, when that
    /// succeeds, mark the document saved.
    SaveIfDue { id: u128, file_name: String, content: String },
    /// Load the speech model file `file_name` in the directory `dir`;
    /// outcome `BackendLoaded`.
    LoadBackend { dir: std::path::PathBuf, file_name: String, params: BackendParams, cpu_only: bool },
    /// Open the audio input; outcome `AudioInit`.
    InitAudio,
    /// Open the result channel, start capturing and hand the loaded backend
    /// to a new worker; outcome `CaptureStarted`.
    StartCapture,
    /// Stop capturing audio.
    StopCapture,
    /// Wait for the worker to end, then drain the channels; outcome `Drained`.
    JoinWorker,
    /// Drain the channels; outcome `Drained`.
    Drain,
    /// Drop the sending end of the result channel.
    CloseResultSender,
    /// Drop the download progress receiver and set the download-done flag.
    ClearDownload { done: bool },
    /// Start downloading a model in the background.
    StartDownload(usize),
    /// Deliver a message later.
    Dispatch(Message),
}

/// How a piece of outside work went, when the next decision depends on it.
pub enum Outcome {
    /// The accelerator of the loaded model, or why loading failed.
    BackendLoaded(Result<String, BackendError>),
    AudioInit(Result<(), String>),
    CaptureStarted(Result<(), String>),
    /// What the channels held: transcription results, audio levels (`f32`
    /// bits), whether the download is done, and download percentages
    /// (`f32` bits, with whether each is at least zero).
    Drained {
        results: Vec<TranscriptionResult>,
        levels: Vec<u32>,
        download_done: bool,
        progress: Vec<(u32, bool)>,
    },
}

/// On whose behalf a model is being loaded.
#[derive(Debug, Clone, Copy, PartialEq, Eq, Structural)]
pub enum Purpose {
    StartRecord,
    StopRecord,
    SaveSettings,
    LoadModel,
    InitBackend,
    Boot,
}

/// What the application waits for.
#[derive(Debug)]
pub enum Pending {
    Idle,
    /// A model load: the first attempt, or the retry on the CPU.
    Backend { purpose: Purpose, cpu: bool, dir: std::path::PathBuf, file_name: String },
    /// The audio input, for a recording being started.
    AudioForRecording,
    /// Capture and worker, for a recording being started.
    CaptureForRecording,
    /// The worker's end, for a recording being stopped.
    StopJoin,
    /// Drained channels, for a poll.
    Poll,
}

/// The state of the application.
pub struct AppState {
    pub workspace: Workspace,
    pub active_id: Option<u128>,
    pub last_active_doc: Option<u128>,
    pub is_recording: bool,
    pub is_paused: bool,
    pub is_stopping: bool,
    pub audio_level: u32,
    pub show_settings: bool,
    pub selected_model_idx: usize,
    pub models: Vec<ModelInfo>,
    pub model_status: ModelStatus,
    pub model_loaded: bool,
    pub language: String,
    pub language_options: Vec<(String, String)>,
    pub downloading_model: Option<usize>,
    pub error_message: Option<String>,
    pub rename_doc: Option<u128>,
    pub rename_input: String,
    pub show_landing: bool,
    pub language_search: String,
    pub accelerator: Option<String>,
    pub hovered_doc: Option<u128>,
    /// A speech model is loaded and not yet handed to a worker.
    pub backend_loaded: bool,
    /// The audio input is open.
    pub audio_ready: bool,
    /// A transcription worker runs.
    pub worker_running: bool,
    /// Where the model files are kept.
    pub models_dir: std::path::PathBuf,
    pub pending: Pending,
}


/// The fields of the application state, for saying which of them a step may change.
pub enum Field {
    Workspace,
    ActiveId,
    LastActiveDoc,
    IsRecording,
    IsPaused,
    IsStopping,
    AudioLevel,
    ShowSettings,
    SelectedModel,
    Models,
    Status,
    ModelLoaded,
    Language,
    LanguageOptions,
    DownloadingModel,
    ErrorMessage,
    RenameDoc,
    RenameInput,
    ShowLanding,
    LanguageSearch,
    Accelerator,
    HoveredDoc,
    BackendLoaded,
    AudioReady,
    WorkerRunning,
    PendingStep,
}

/// `b` equals `a` in every field outside `changed`.
pub open spec fn keeps(a: AppState, b: AppState, changed: Set<Field>) -> bool {
    &&& !changed.contains(Field::Workspace) ==> b.workspace == a.workspace
    &&& !changed.contains(Field::ActiveId) ==> b.active_id == a.active_id
    &&& !changed.contains(Field::LastActiveDoc) ==> b.last_active_doc == a.last_active_doc
    &&& !changed.contains(Field::IsRecording) ==> b.is_recording == a.is_recording
    &&& !changed.contains(Field::IsPaused) ==> b.is_paused == a.is_paused
    &&& !changed.contains(Field::IsStopping) ==> b.is_stopping == a.is_stopping
    &&& !changed.contains(Field::AudioLevel) ==> b.audio_level == a.audio_level
    &&& !changed.contains(Field::ShowSettings) ==> b.show_settings == a.show_settings
    &&& !changed.contains(Field::SelectedModel) ==> b.selected_model_idx == a.selected_model_idx
    &&& !changed.contains(Field::Models) ==> b.models == a.models
    &&& !changed.contains(Field::Status) ==> b.model_status == a.model_status
    &&& !changed.contains(Field::ModelLoaded) ==> b.model_loaded == a.model_loaded
    &&& !changed.contains(Field::Language) ==> b.language == a.language
    &&& !changed.contains(Field::LanguageOptions) ==> b.language_options == a.language_options
    &&& !changed.contains(Field::DownloadingModel) ==> b.downloading_model == a.downloading_model
    &&& !changed.contains(Field::ErrorMessage) ==> b.error_message == a.error_message
    &&& !changed.contains(Field::RenameDoc) ==> b.rename_doc == a.rename_doc
    &&& !changed.contains(Field::RenameInput) ==> b.rename_input == a.rename_input
    &&& !changed.contains(Field::ShowLanding) ==> b.show_landing == a.show_landing
    &&& !changed.contains(Field::LanguageSearch) ==> b.language_search == a.language_search
    &&& !changed.contains(Field::Accelerator) ==> b.accelerator == a.accelerator
    &&& !changed.contains(Field::HoveredDoc) ==> b.hovered_doc == a.hovered_doc
    &&& !changed.contains(Field::BackendLoaded) ==> b.backend_loaded == a.backend_loaded
    &&& !changed.contains(Field::AudioReady) ==> b.audio_ready == a.audio_ready
    &&& !changed.contains(Field::WorkerRunning) ==> b.worker_running == a.worker_running
    &&& b.models_dir == a.models_dir
    &&& !changed.contains(Field::PendingStep) ==> b.pending == a.pending
}

/// The optional text holds `t`.
pub open spec fn holds_text(o: Option<String>, t: Seq<char>) -> bool {
    o matches Some(s) && s@ == t
}

/// The error shown when the selected model's file is missing.
pub open spec fn not_downloaded_text(name: Seq<char>) -> Seq<char> {
    "Model '"@ + name + "' not downloaded. Download it in Settings."@
}

/// The error shown when a model could not be loaded even on the CPU.
pub open spec fn cpu_fallback_text(e: BackendError) -> Seq<char> {
    "Failed to load model (CPU fallback): "@ + backend_error_text(e)
}

/// The parameters a model is loaded with: the chosen language, a beam of
/// one, no voice activity detection.
pub open spec fn params_for(p: BackendParams, language: Seq<char>) -> bool {
    &&& p.language matches Some(l) && l@ == language
    &&& p.beam_size == 1
    &&& !p.vad_enabled
}

/// The model status after a load: ready, or the error.
pub open spec fn status_after_load(s: ModelStatus, res: Result<(), Seq<char>>) -> bool {
    match res {
        Ok(_) => s is Ready,
        Err(e) => s matches ModelStatus::Error(m) && m@ == e,
    }
}

/// A recording whose backend is loaded goes on to start capturing: an open
/// audio input is needed, and the loaded model moves to the worker.
pub open spec fn capture_begun(a: AppState, b: AppState, eff: Seq<Effect>) -> bool {
    if !a.audio_ready {
        &&& holds_text(b.error_message, "Audio capture not initialized"@)
        &&& !b.is_recording
        &&& b.pending is Idle
        &&& keeps(a, b, set![Field::ErrorMessage, Field::IsRecording, Field::PendingStep])
        &&& eff.len() == 0
    } else if !a.backend_loaded {
        &&& holds_text(b.error_message, "Backend not initialized"@)
        &&& !b.is_recording
        &&& b.pending is Idle
        &&& keeps(a, b, set![Field::ErrorMessage, Field::IsRecording, Field::PendingStep])
        &&& eff.len() == 0
    } else {
        &&& !b.backend_loaded
        &&& b.pending is CaptureForRecording
        &&& keeps(a, b, set![Field::BackendLoaded, Field::PendingStep])
        &&& eff =~= seq![Effect::StartCapture]
    }
}

/// A recording whose backend is loaded opens the audio input if needed, then
/// starts capturing.
pub open spec fn recording_continues(a: AppState, b: AppState, eff: Seq<Effect>) -> bool {
    if !a.audio_ready {
        &&& b.pending is AudioForRecording
        &&& keeps(a, b, set![Field::PendingStep])
        &&& eff =~= seq![Effect::InitAudio]
    } else {
        capture_begun(a, b, eff)
    }
}

/// What follows once a model load asked for on behalf of `purpose` has
/// ended with `res`.
pub open spec fn backend_finished(
    a: AppState,
    b: AppState,
    purpose: Purpose,
    res: Result<(), Seq<char>>,
    eff: Seq<Effect>,
) -> bool {
    match purpose {
        Purpose::StartRecord => match res {
            Err(e) => {
                &&& holds_text(b.error_message, e)
                &&& !b.is_recording
                &&& b.pending is Idle
                &&& keeps(a, b, set![Field::ErrorMessage, Field::IsRecording, Field::PendingStep])
                &&& eff.len() == 0
            },
            Ok(_) => exists|m: AppState|
                {
                    &&& m.pending is Idle
                    &&& keeps(a, m, set![Field::PendingStep])
                    &&& recording_continues(m, b, eff)
                },
        },
        Purpose::SaveSettings => {
            &&& status_after_load(b.model_status, res)
            &&& !b.show_settings
            &&& b.pending is Idle
            &&& keeps(a, b, set![Field::Status, Field::ShowSettings, Field::PendingStep])
            &&& eff =~= seq![Effect::SaveAppState]
        },
        Purpose::LoadModel => {
            &&& status_after_load(b.model_status, res)
            &&& b.pending is Idle
            &&& keeps(a, b, set![Field::Status, Field::PendingStep])
            &&& eff.len() == 0
        },
        Purpose::InitBackend => {
            &&& b.pending is Idle
            &&& keeps(a, b, set![Field::PendingStep])
            &&& match res {
                Ok(_) => eff.len() == 0,
                Err(e) => eff.len() == 1 && (eff[0] matches Effect::Dispatch(
                    Message::BackendInitError(m),
                ) && m@ == e),
            }
        },
        Purpose::StopRecord | Purpose::Boot => {
            &&& b.pending is Idle
            &&& keeps(a, b, set![Field::PendingStep])
            &&& eff.len() == 0
        },
    }
}

/// What follows once the selected model's catalogue entry has been read
/// (`None` when the catalogue has no such entry): without an entry the load
/// ends with `No model selected`; for a model whose file is not there it
/// ends with the not-downloaded error; a downloaded model's file, in the
/// model directory, is to be loaded with the chosen language, and the
/// application waits for it.
pub open spec fn backend_for_model_spec(
    a: AppState,
    b: AppState,
    purpose: Purpose,
    model: Option<ModelInfo>,
    eff: Seq<Effect>,
) -> bool {
    match model {
        None => backend_finished(a, b, purpose, Err("No model selected"@), eff),
        Some(m) => if !m.downloaded {
            backend_finished(a, b, purpose, Err(not_downloaded_text(m.name@)), eff)
        } else {
            &&& (b.pending matches Pending::Backend { purpose: p, cpu, dir, file_name } && p == purpose
                && !cpu && dir == a.models_dir && file_name@ == m.filename@)
            &&& keeps(a, b, set![Field::PendingStep])
            &&& eff.len() == 1
            &&& (eff[0] matches Effect::LoadBackend { dir, file_name, params, cpu_only } && !cpu_only
                && dir == a.models_dir && file_name@ == m.filename@ && params_for(params, a.language@))
        },
    }
}

/// A model load on behalf of `purpose` has begun: the catalogue is read from
/// the model directory, and what follows is as `backend_for_model_spec` says
/// for the selected entry. Whether that model's file is there is read from
/// the disk; the entry's name, file name and size are the catalogue's.
pub open spec fn backend_begun(a: AppState, b: AppState, purpose: Purpose, eff: Seq<Effect>) -> bool {
    let sel = a.selected_model_idx;
    if sel >= crate::models::MODEL_COUNT {
        backend_for_model_spec(a, b, purpose, None, eff)
    } else {
        exists|m: ModelInfo|
            crate::models::is_catalog_entry(m, sel as int) && #[trigger] backend_for_model_spec(
                a,
                b,
                purpose,
                Some(m),
                eff,
            )
    }
}

/// The effects that ask for document `id` to be saved if due, with the file
/// its state in `w` gives (none when `r` is `None`).
pub open spec fn save_if_due_effects(w: Workspace, r: Option<u128>, eff: Seq<Effect>) -> bool {
    match r {
        None => eff.len() == 0,
        Some(id) => eff.len() == 1 && (eff[0] matches Effect::SaveIfDue { id: i, file_name, content }
            && i == id && (file_name@, content@) == save_file_spec(w.documents@[id])),
    }
}

/// A transcribed text has been taken in: an empty text changes nothing;
/// otherwise the active document gains the line `[HH:MM:SS] <trimmed text>`
/// (the time read from the clock) and is to be saved if due.
pub open spec fn transcription_handled(a: AppState, b: AppState, text: Seq<char>, eff: Seq<Effect>) -> bool {
    if text.len() == 0 {
        keeps(a, b, Set::empty()) && eff.len() == 0
    } else {
        exists|hms: Seq<char>, r: Option<u128>|
            {
                &&& clock_text(hms)
                &&& appended_to_active(
                    a.workspace,
                    b.workspace,
                    seq!['['] + hms + seq![']', ' '],
                    trim_spec(text),
                    r,
                )
                &&& keeps(a, b, set![Field::Workspace])
                &&& save_if_due_effects(b.workspace, r, eff)
            }
    }
}

/// A transcription taken in reads back from the active document's content:
/// the transcript that the content holds gains one line, stamped with a time
/// of day and holding the trimmed text, after the lines it held before. This
/// holds when the text is not empty and holds no newline, and the content
/// was empty or ended with a newline.
pub proof fn transcription_reads_back(
    a: AppState,
    b: AppState,
    text: Seq<char>,
    eff: Seq<Effect>,
    id: u128,
)
    requires
        transcription_handled(a, b, text, eff),
        text.len() > 0,
        forall|j: int| 0 <= j < text.len() ==> text[j] != '\n',
        a.workspace.active_id == Some(id),
        a.workspace.documents@.contains_key(id),
        a.workspace.documents@[id].content@.len() == 0
            || a.workspace.documents@[id].content@.last() == '\n',
    ensures
        b.workspace.documents@.contains_key(id),
        exists|hms: Seq<char>|
            clock_text(hms) && #[trigger] transcript_spec(b.workspace.documents@[id].content@)
                == transcript_spec(a.workspace.documents@[id].content@).push(
                LineView { timestamp: seq!['['] + hms + seq![']'], text: trim_spec(text) },
            ),
{
    let (hms, r) = choose|hms: Seq<char>, r: Option<u128>|
        {
            &&& clock_text(hms)
            &&& appended_to_active(
                a.workspace,
                b.workspace,
                seq!['['] + hms + seq![']', ' '],
                trim_spec(text),
                r,
            )
            &&& keeps(a, b, set![Field::Workspace])
            &&& save_if_due_effects(b.workspace, r, eff)
        };
    assert(r == Some(id));
    let t = trim_spec(text);
    let (lo, hi) = lemma_trim_idempotent(text);
    assert forall|j: int| 0 <= j < t.len() implies t[j] != '\n' by {
        assert(t[j] == text[lo + j]);
    }
    let c0 = a.workspace.documents@[id].content@;
    let c1 = b.workspace.documents@[id].content@;
    assert(c1 =~= c0 + (seq!['['] + hms + seq![']', ' '] + t + seq!['\n']));
    appended_line_reads_back(c0, hms, t);
}

/// The text of the last error among the results, if any.
pub open spec fn last_error_text(rs: Seq<TranscriptionResult>) -> Option<Seq<char>>
    decreases rs.len(),
{
    if rs.len() == 0 {
        None
    } else {
        match rs.last() {
            TranscriptionResult::Error(e) => Some(e@),
            TranscriptionResult::Segment(_) => last_error_text(rs.drop_last()),
        }
    }
}

/// The model status after the download percentages are taken in: each
/// percentage that is at least zero is shown, unless an error is shown.
pub open spec fn status_after_progress(s: ModelStatus, progress: Seq<(u32, bool)>) -> ModelStatus
    decreases progress.len(),
{
    if progress.len() == 0 {
        s
    } else {
        let prev = status_after_progress(s, progress.drop_last());
        if progress.last().1 && !(prev is Error) {
            ModelStatus::Downloading(progress.last().0)
        } else {
            prev
        }
    }
}

/// The texts of the segments among the results, in order.
pub open spec fn segment_texts(rs: Seq<TranscriptionResult>) -> Seq<Seq<char>>
    decreases rs.len(),
{
    if rs.len() == 0 {
        seq![]
    } else {
        segment_texts(rs.drop_last()) + match rs.last() {
            TranscriptionResult::Segment(t) => seq![t@],
            TranscriptionResult::Error(_) => seq![],
        }
    }
}

/// The document a transcription goes to: the active one, when it is stored.
pub open spec fn active_target(w: Workspace) -> Option<u128> {
    match w.active_id {
        Some(k) => if w.documents@.contains_key(k) {
            Some(k)
        } else {
            None
        },
        None => None,
    }
}

/// One transcribed text taken into the workspace `a`, giving `b` and the
/// saves `eff`: an empty text changes nothing; otherwise the line
/// `[hms] <trimmed text>` goes to the active document, read from the clock
/// as `hms`, and that document is to be saved if due.
pub open spec fn text_taken_in(
    a: Workspace,
    b: Workspace,
    text: Seq<char>,
    hms: Seq<char>,
    eff: Seq<Effect>,
) -> bool {
    if text.len() == 0 {
        b == a && eff.len() == 0
    } else {
        &&& clock_text(hms)
        &&& appended_to_active(
            a,
            b,
            seq!['['] + hms + seq![']', ' '],
            trim_spec(text),
            active_target(a),
        )
        &&& save_if_due_effects(b, active_target(a), eff)
    }
}

/// `texts_taken_in` through the workspaces `ws` (from `a` to `b`), the times
/// of day `hs`, and the bounds `ks`: the saves of the `i`th text are
/// `eff[ks[i]..ks[i + 1]]`.
pub open spec fn texts_taken_in_via(
    a: Workspace,
    b: Workspace,
    texts: Seq<Seq<char>>,
    eff: Seq<Effect>,
    ws: Seq<Workspace>,
    hs: Seq<Seq<char>>,
    ks: Seq<int>,
) -> bool {
    &&& ws.len() == texts.len() + 1
    &&& hs.len() == texts.len()
    &&& ks.len() == texts.len() + 1
    &&& ws[0] == a
    &&& ws[texts.len() as int] == b
    &&& ks[0] == 0
    &&& ks[texts.len() as int] == eff.len()
    &&& forall|i: int, j: int| 0 <= i <= j <= texts.len() ==> 0 <= #[trigger] ks[i] <= #[trigger] ks[j] <= eff.len()
    &&& forall|i: int|
        0 <= i < texts.len() ==> #[trigger] text_taken_in(
            ws[i],
            ws[i + 1],
            texts[i],
            hs[i],
            eff.subrange(ks[i], ks[i + 1]),
        )
}

/// One more text taken in extends the chain of workspaces of `texts_taken_in`.
proof fn lemma_texts_step(
    a: Workspace,
    texts: Seq<Seq<char>>,
    eff: Seq<Effect>,
    ws: Seq<Workspace>,
    hs: Seq<Seq<char>>,
    ks: Seq<int>,
    b: Workspace,
    t: Seq<char>,
    hms: Seq<char>,
    more: Seq<Effect>,
)
    requires
        texts_taken_in_via(a, ws[texts.len() as int], texts, eff, ws, hs, ks),
        text_taken_in(ws[texts.len() as int], b, t, hms, more),
    ensures
        texts_taken_in_via(
            a,
            b,
            texts.push(t),
            eff + more,
            ws.push(b),
            hs.push(hms),
            ks.push((eff + more).len() as int),
        ),
{
    let n = texts.len() as int;
    let e2 = eff + more;
    let ws2 = ws.push(b);
    let hs2 = hs.push(hms);
    let ks2 = ks.push(e2.len() as int);
    let texts2 = texts.push(t);
    assert(e2.subrange(eff.len() as int, e2.len() as int) =~= more);
    assert forall|i: int, j: int| 0 <= i <= j <= texts2.len() implies 0 <= #[trigger] ks2[i]
        <= #[trigger] ks2[j] <= e2.len() by {
        if j <= n {
            assert(ks2[j] == ks[j]);
        }
        if i <= n {
            assert(ks2[i] == ks[i]);
            assert(0 <= ks[i] <= ks[n] <= eff.len());
        }
    }
    assert forall|i: int| 0 <= i < texts2.len() implies #[trigger] text_taken_in(
        ws2[i],
        ws2[i + 1],
        texts2[i],
        hs2[i],
        e2.subrange(ks2[i], ks2[i + 1]),
    ) by {
        if i < n {
            assert(0 <= ks[i] <= ks[i + 1] <= eff.len());
            assert(text_taken_in(ws[i], ws[i + 1], texts[i], hs[i], eff.subrange(ks[i], ks[i + 1])));
            assert(e2.subrange(ks[i], ks[i + 1]) =~= eff.subrange(ks[i], ks[i + 1]));
            assert(ws2[i + 1] == ws[i + 1]);
        } else {
            assert(ws2[i + 1] == b);
            assert(ks2[i] == eff.len());
        }
    }
    assert(ws2[0] == a);
    assert(ks2[0] == 0);
    assert(ws2[texts2.len() as int] == b);
    assert(ks2[texts2.len() as int] == e2.len());
}

/// The workspace `b` and the saves `eff` follow from `a` by taking in the
/// texts one after the other, as `text_taken_in` says.
pub open spec fn texts_taken_in(a: Workspace, b: Workspace, texts: Seq<Seq<char>>, eff: Seq<Effect>) -> bool {
    exists|ws: Seq<Workspace>, hs: Seq<Seq<char>>, ks: Seq<int>|
        #[trigger] texts_taken_in_via(a, b, texts, eff, ws, hs, ks)
}

/// What the channels held has been taken in: the segments' texts go to the
/// active document in turn (see `texts_taken_in`), errors are shown (the
/// last one stays), the last audio level is kept, and unless the download is
/// done its percentages update the status. Documents other than the active
/// one do not change.
pub open spec fn drained_absorbed(
    a: AppState,
    b: AppState,
    results: Seq<TranscriptionResult>,
    levels: Seq<u32>,
    download_done: bool,
    progress: Seq<(u32, bool)>,
    eff: Seq<Effect>,
) -> bool {
    &&& keeps(
        a,
        b,
        set![Field::Workspace, Field::ErrorMessage, Field::AudioLevel, Field::Status],
    )
    &&& b.error_message == match last_error_text(results) {
        Some(e) => b.error_message,
        None => a.error_message,
    }
    &&& last_error_text(results) matches Some(e) ==> holds_text(b.error_message, e)
    &&& b.audio_level == if levels.len() > 0 {
        levels.last()
    } else {
        a.audio_level
    }
    &&& b.model_status == if download_done {
        a.model_status
    } else {
        status_after_progress(a.model_status, progress)
    }
    &&& b.workspace.documents@.dom() == a.workspace.documents@.dom()
    &&& b.workspace.active_id == a.workspace.active_id
    &&& forall|k: u128| Some(k) != a.workspace.active_id && #[trigger] a.workspace.documents@.contains_key(k)
        ==> b.workspace.documents@[k] == a.workspace.documents@[k]
    &&& a.workspace.wf() ==> b.workspace.wf()
    &&& forall|i: int| 0 <= i < eff.len() ==> (#[trigger] eff[i] matches Effect::SaveIfDue { id, file_name: _, content: _ }
        && Some(id) == a.workspace.active_id)
    &&& texts_taken_in(a.workspace, b.workspace, segment_texts(results), eff)
}

/// A recording has wound down: the stop is over, the result channel's
/// sender is dropped, and the selected model is reloaded when its file was
/// listed as downloaded.
pub open spec fn stop_finished(a: AppState, b: AppState, eff: Seq<Effect>) -> bool {
    exists|m: AppState| #[trigger] stop_finished_via(a, m, b, eff)
}

/// `stop_finished`, through the state `m` in which the stop is over.
pub open spec fn stop_finished_via(a: AppState, m: AppState, b: AppState, eff: Seq<Effect>) -> bool {
    &&& !m.is_stopping
    &&& keeps(a, m, set![Field::IsStopping])
    &&& eff.len() >= 1
    &&& eff[0] is CloseResultSender
    &&& if a.selected_model_idx < a.models@.len() && a.models@[a.selected_model_idx as int].downloaded {
        backend_begun(m, b, Purpose::StopRecord, eff.skip(1))
    } else {
        keeps(m, b, Set::empty()) && eff.len() == 1
    }
}

/// The tag that marks a transcription update as an error report.
pub open spec fn error_tag() -> Seq<char> {
    seq!['[', 'E', 'r', 'r', 'o', 'r', ']']
}

/// `s` without every leading error tag (`str::trim_start_matches("[Error]")`).
pub open spec fn strip_error_tags(s: Seq<char>) -> Seq<char>
    decreases s.len(),
{
    if s.len() >= 7 && is_prefix(error_tag(), s) {
        strip_error_tags(s.skip(7))
    } else {
        s
    }
}

/// The saves a stop asks for first: the active document, then all of
/// them, then the capture is stopped when the audio input is open.
pub open spec fn stop_saves(a: AppState) -> Seq<Effect> {
    (match a.active_id {
        Some(id) => seq![Effect::SaveDocument(id)],
        None => seq![],
    }) + seq![Effect::SaveAllDocuments] + if a.audio_ready {
        seq![Effect::StopCapture]
    } else {
        seq![]
    }
}

/// A recording has been started, through the state `m` in which a document
/// exists and the recording flags are set.
pub open spec fn record_started_via(a: AppState, m: AppState, b: AppState, eff: Seq<Effect>) -> bool {
    &&& if a.workspace.documents@.len() == 0 {
        exists|id: u128|
            #[trigger] new_document_added(a.workspace, m.workspace, id) && m.active_id == Some(id)
    } else {
        m.workspace == a.workspace && m.active_id == a.active_id
    }
    &&& m.is_recording
    &&& !m.is_paused
    &&& keeps(a, m, set![Field::Workspace, Field::ActiveId, Field::IsRecording, Field::IsPaused])
    &&& if !a.backend_loaded {
        backend_begun(m, b, Purpose::StartRecord, eff)
    } else {
        recording_continues(m, b, eff)
    }
}

/// A recording is being stopped, through the state `m` in which its flags
/// are cleared: the saves come first, then the worker is waited for, or,
/// without a worker, the stop is wound down at once.
pub open spec fn stop_begun_via(a: AppState, m: AppState, b: AppState, eff: Seq<Effect>) -> bool {
    &&& !m.is_recording && !m.is_paused && m.is_stopping
    &&& keeps(a, m, set![Field::IsRecording, Field::IsPaused, Field::IsStopping])
    &&& eff.len() >= stop_saves(a).len()
    &&& eff.take(stop_saves(a).len() as int) =~= stop_saves(a)
    &&& if a.worker_running {
        &&& b.pending is StopJoin
        &&& keeps(m, b, set![Field::PendingStep])
        &&& eff.skip(stop_saves(a).len() as int) =~= seq![Effect::JoinWorker]
    } else {
        stop_finished(m, b, eff.skip(stop_saves(a).len() as int))
    }
}

/// The settings have been saved, through the state `m` in which the
/// download and search are cleared: a model is loaded if none is, and the
/// settings file is written.
pub open spec fn settings_saved_via(a: AppState, m: AppState, b: AppState, eff: Seq<Effect>) -> bool {
    &&& m.downloading_model is None
    &&& m.language_search@.len() == 0
    &&& keeps(a, m, set![Field::DownloadingModel, Field::LanguageSearch])
    &&& eff.len() >= 1
    &&& eff[0] == Effect::ClearDownload { done: false }
    &&& if !a.backend_loaded {
        backend_begun(m, b, Purpose::SaveSettings, eff.skip(1))
    } else {
        &&& !b.show_settings
        &&& keeps(m, b, set![Field::ShowSettings])
        &&& eff.skip(1) =~= seq![Effect::SaveAppState]
    }
}

/// A model is being loaded on request, through the state `m` in which it is selected.
pub open spec fn model_load_via(a: AppState, m: AppState, b: AppState, idx: usize, eff: Seq<Effect>) -> bool {
    &&& m.selected_model_idx == idx
    &&& keeps(a, m, set![Field::SelectedModel])
    &&& backend_begun(m, b, Purpose::LoadModel, eff)
}

/// How the application answers `Message::NewDocument`.
pub open spec fn new_document_spec(a: AppState, b: AppState, eff: Seq<Effect>) -> bool {
    exists|id: u128|
        {
            &&& #[trigger] new_document_added(a.workspace, b.workspace, id)
            &&& b.active_id == Some(id)
            &&& keeps(a, b, set![Field::Workspace, Field::ActiveId])
            &&& eff =~= seq![Effect::SaveAppState]
        }
}

/// How the application answers `Message::SelectDocument`.
pub open spec fn select_document_spec(a: AppState, b: AppState, id: u128, eff: Seq<Effect>) -> bool {
    {
        &&& b.last_active_doc == a.active_id
        &&& b.active_id == Some(id)
        &&& b.workspace.documents == a.workspace.documents
        &&& b.workspace.base_dir == a.workspace.base_dir
        &&& b.workspace.active_id == if a.workspace.documents@.contains_key(id) {
            Some(id)
        } else {
            a.workspace.active_id
        }
        &&& keeps(a, b, set![Field::Workspace, Field::ActiveId, Field::LastActiveDoc])
        &&& eff =~= (match a.active_id {
            Some(cur) => seq![Effect::SaveDocument(cur)],
            None => seq![],
        }) + seq![Effect::SaveAppState]
    }
}

/// How the application answers `Message::StartRecord`.
pub open spec fn start_record_spec(a: AppState, b: AppState, eff: Seq<Effect>) -> bool {
    if a.is_recording {
        keeps(a, b, Set::empty()) && eff.len() == 0
    } else if a.downloading_model is Some {
        &&& holds_text(b.error_message, "Cannot start recording while a model is downloading"@)
        &&& keeps(a, b, set![Field::ErrorMessage])
        &&& eff.len() == 0
    } else {
        exists|m: AppState| #[trigger] record_started_via(a, m, b, eff)
    }
}

/// How the application answers `Message::StopRecord`.
pub open spec fn stop_record_spec(a: AppState, b: AppState, eff: Seq<Effect>) -> bool {
    exists|m: AppState| #[trigger] stop_begun_via(a, m, b, eff)
}

/// How the application answers `Message::SaveSettings`.
pub open spec fn save_settings_spec(a: AppState, b: AppState, eff: Seq<Effect>) -> bool {
    exists|m: AppState| #[trigger] settings_saved_via(a, m, b, eff)
}

/// How the application answers `Message::TranscriptionUpdate`.
pub open spec fn transcription_update_spec(a: AppState, b: AppState, text: String, eff: Seq<Effect>) -> bool {
    if text@.len() >= 7 && is_prefix(error_tag(), text@) {
        &&& holds_text(b.error_message, trim_spec(strip_error_tags(text@)))
        &&& keeps(a, b, set![Field::ErrorMessage])
        &&& eff.len() == 0
    } else {
        transcription_handled(a, b, text@, eff)
    }
}

/// How the application answers `Message::ModelDownloadComplete`.
pub open spec fn download_complete_spec(a: AppState, b: AppState, eff: Seq<Effect>) -> bool {
    {
        &&& b.model_status is Ready
        &&& b.downloading_model is None
        &&& b.models@.len() == crate::models::MODEL_COUNT
        &&& forall|i: int|
            0 <= i < crate::models::MODEL_COUNT ==> crate::models::is_catalog_entry(
                #[trigger] b.models@[i],
                i,
            )
        &&& keeps(a, b, set![Field::Status, Field::DownloadingModel, Field::Models])
        &&& eff =~= seq![Effect::ClearDownload { done: true }]
    }
}

/// How the application answers `Message::ModelSelected`.
pub open spec fn model_selected_spec(a: AppState, b: AppState, idx: usize, eff: Seq<Effect>) -> bool {
    {
        &&& b.selected_model_idx == idx
        &&& if idx < a.models@.len() {
            if a.models@[idx as int].downloaded {
                &&& b.model_status is Ready
                &&& b.model_loaded == (a.model_loaded || a.backend_loaded)
                &&& keeps(a, b, set![Field::SelectedModel, Field::Status, Field::ModelLoaded])
            } else {
                &&& b.model_status is NotDownloaded
                &&& keeps(a, b, set![Field::SelectedModel, Field::Status])
            }
        } else {
            keeps(a, b, set![Field::SelectedModel])
        }
        &&& eff =~= seq![Effect::SaveAppState]
    }
}

/// How the application answers `Message::LoadModel`.
pub open spec fn load_model_spec(a: AppState, b: AppState, idx: usize, eff: Seq<Effect>) -> bool {
    exists|m: AppState| #[trigger] model_load_via(a, m, b, idx, eff)
}

/// How the application answers `Message::RenameDocument`.
pub open spec fn rename_document_spec(a: AppState, b: AppState, id: u128, eff: Seq<Effect>) -> bool {
    {
        &&& b.rename_doc == Some(id)
        &&& b.rename_input == if a.workspace.documents@.contains_key(id) {
            a.workspace.documents@[id].title
        } else {
            a.rename_input
        }
        &&& keeps(a, b, set![Field::RenameDoc, Field::RenameInput])
        &&& eff.len() == 0
    }
}

/// How the application answers `Message::RenameDocumentConfirm`.
pub open spec fn rename_confirm_spec(a: AppState, b: AppState, title: String, eff: Seq<Effect>) -> bool {
    match a.rename_doc {
        None => keeps(a, b, Set::empty()) && eff.len() == 0,
        Some(id) => {
            &&& b.rename_doc is None
            &&& if sanitize_spec(title@).len() > 0 {
                exists|r: bool|
                    #[trigger] document_renamed(a.workspace, b.workspace, id, sanitize_spec(title@), r)
            } else {
                b.workspace == a.workspace
            }
            &&& b.rename_input == if b.workspace.documents@.contains_key(id) {
                b.workspace.documents@[id].title
            } else {
                a.rename_input
            }
            &&& keeps(a, b, set![Field::RenameDoc, Field::RenameInput, Field::Workspace])
            &&& eff.len() == 0
        },
    }
}

/// How the application answers a message: `b` is the state after `a`
/// took in `msg`, and `eff` the outside work asked for.
pub open spec fn update_spec(a: AppState, b: AppState, msg: Message, eff: Seq<Effect>) -> bool {
    match msg {
        Message::NewDocument => new_document_spec(a, b, eff),
        Message::SelectDocument(id) => select_document_spec(a, b, id, eff),
        Message::DeleteDocument(id) => exists|r: bool|
            {
                &&& #[trigger] document_deleted(a.workspace, b.workspace, id, r)
                &&& keeps(a, b, set![Field::Workspace])
                &&& eff.len() == 0
            },
        Message::StartRecord => start_record_spec(a, b, eff),
        Message::StopRecord => stop_record_spec(a, b, eff),
        Message::ResumeRecord => !b.is_paused && keeps(a, b, set![Field::IsPaused]) && eff.len()
            == 0,
        Message::ShowSettings => b.show_settings && keeps(a, b, set![Field::ShowSettings]) && eff.len()
            == 0,
        Message::HideSettings => {
            &&& b.downloading_model is None
            &&& b.language_search@.len() == 0
            &&& !b.show_settings
            &&& keeps(
                a,
                b,
                set![Field::DownloadingModel, Field::LanguageSearch, Field::ShowSettings],
            )
            &&& eff =~= seq![Effect::ClearDownload { done: false }]
        },
        Message::SaveSettings => save_settings_spec(a, b, eff),
        Message::TranscriptionUpdate(text) => transcription_update_spec(a, b, text, eff),
        Message::AudioLevelUpdate(level) => b.audio_level == level && keeps(
            a,
            b,
            set![Field::AudioLevel],
        ) && eff.len() == 0,
        Message::ModelDownloadProgress(pct) => b.model_status == ModelStatus::Downloading(pct)
            && keeps(a, b, set![Field::Status]) && eff.len() == 0,
        Message::ModelDownloadComplete => download_complete_spec(a, b, eff),
        Message::ModelDownloadError(err) => {
            &&& b.downloading_model is None
            &&& b.model_status == ModelStatus::Error(err)
            &&& keeps(a, b, set![Field::Status, Field::DownloadingModel])
            &&& eff =~= seq![Effect::ClearDownload { done: true }]
        },
        Message::BackendInitError(err) => b.error_message == Some(err) && keeps(
            a,
            b,
            set![Field::ErrorMessage],
        ) && eff.len() == 0,
        Message::ModelSelected(idx) => model_selected_spec(a, b, idx, eff),
        Message::LanguageChanged(lang) => b.language == lang && keeps(a, b, set![Field::Language])
            && eff =~= seq![Effect::SaveAppState],
        Message::DownloadModel(idx) => if a.downloading_model is Some {
            keeps(a, b, Set::empty()) && eff.len() == 0
        } else {
            &&& b.model_status == ModelStatus::Downloading(0)
            &&& b.downloading_model == Some(idx)
            &&& keeps(a, b, set![Field::Status, Field::DownloadingModel])
            &&& eff =~= seq![Effect::StartDownload(idx)]
        },
        Message::LoadModel(idx) => load_model_spec(a, b, idx, eff),
        Message::InitBackend => backend_begun(a, b, Purpose::InitBackend, eff),
        Message::PollTrigger | Message::DownloadPoll => {
            &&& b.pending is Poll
            &&& keeps(a, b, set![Field::PendingStep])
            &&& eff =~= seq![Effect::Drain]
        },
        Message::RenameDocument(id) => rename_document_spec(a, b, id, eff),
        Message::RenameDocumentConfirm(title) => rename_confirm_spec(a, b, title, eff),
        Message::ClearError => b.error_message is None && keeps(a, b, set![Field::ErrorMessage])
            && eff.len() == 0,
        Message::HideLanding => !b.show_landing && keeps(a, b, set![Field::ShowLanding]) && eff.len()
            == 0,
        Message::LanguageSearch(q) => b.language_search == q && keeps(
            a,
            b,
            set![Field::LanguageSearch],
        ) && eff.len() == 0,
        Message::SaveComplete => keeps(a, b, Set::empty()) && eff.len() == 0,
        Message::HoverDoc(d) => b.hovered_doc == d && keeps(a, b, set![Field::HoveredDoc])
            && eff.len() == 0,
    }
}

/// The accelerator shown once a model is loaded: the one it reports, or
/// `CPU` after the retry on the CPU.
pub open spec fn accelerator_after(cpu: bool, reported: Seq<char>) -> Seq<char> {
    if cpu {
        "CPU"@
    } else {
        reported
    }
}

/// `m` is `a` with a model loaded whose accelerator is `acc`.
pub open spec fn loaded_with(a: AppState, m: AppState, acc: Seq<char>) -> bool {
    &&& m.backend_loaded
    &&& m.model_loaded
    &&& holds_text(m.accelerator, acc)
    &&& keeps(a, m, set![Field::BackendLoaded, Field::ModelLoaded, Field::Accelerator])
}

/// A model load has succeeded, through the state `m` in which it is loaded.
pub open spec fn load_succeeded_via(
    a: AppState,
    m: AppState,
    b: AppState,
    purpose: Purpose,
    acc: Seq<char>,
    eff: Seq<Effect>,
) -> bool {
    loaded_with(a, m, acc) && backend_finished(m, b, purpose, Ok(()), eff)
}

/// The audio input opened for a recording, through the state `m` in which it is open.
pub open spec fn audio_opened_via(a: AppState, m: AppState, b: AppState, eff: Seq<Effect>) -> bool {
    &&& m.audio_ready
    &&& m.pending is Idle
    &&& keeps(a, m, set![Field::AudioReady, Field::PendingStep])
    &&& capture_begun(m, b, eff)
}

/// The worker of a stopped recording has ended, through the state `m` in
/// which it no longer runs and the state `n` in which the channels' contents
/// are taken in; the first `k` effects are those of taking them in.
pub open spec fn worker_joined_via(
    a: AppState,
    m: AppState,
    n: AppState,
    b: AppState,
    results: Seq<TranscriptionResult>,
    levels: Seq<u32>,
    download_done: bool,
    progress: Seq<(u32, bool)>,
    k: int,
    eff: Seq<Effect>,
) -> bool {
    &&& !m.worker_running
    &&& m.pending is Idle
    &&& keeps(a, m, set![Field::WorkerRunning, Field::PendingStep])
    &&& 0 <= k <= eff.len()
    &&& drained_absorbed(m, n, results, levels, download_done, progress, eff.take(k))
    &&& stop_finished(n, b, eff.skip(k))
}

/// A poll's channel contents are taken in, through the state `m` in which
/// nothing is pending any more.
pub open spec fn polled_via(
    a: AppState,
    m: AppState,
    b: AppState,
    results: Seq<TranscriptionResult>,
    levels: Seq<u32>,
    download_done: bool,
    progress: Seq<(u32, bool)>,
    eff: Seq<Effect>,
) -> bool {
    &&& m.pending is Idle
    &&& keeps(a, m, set![Field::PendingStep])
    &&& drained_absorbed(m, b, results, levels, download_done, progress, eff)
}

/// How the application goes on once outside work it waited for is done:
/// How a model load that was waited for goes on.
pub open spec fn backend_resumed(
    a: AppState,
    b: AppState,
    purpose: Purpose,
    cpu: bool,
    dir: std::path::PathBuf,
    file_name: String,
    outcome: Outcome,
    eff: Seq<Effect>,
) -> bool {
    match outcome {
        Outcome::BackendLoaded(Ok(acc)) => exists|m: AppState| #[trigger]
            load_succeeded_via(a, m, b, purpose, accelerator_after(cpu, acc@), eff),
        Outcome::BackendLoaded(Err(e)) => if cpu {
            backend_finished(a, b, purpose, Err(cpu_fallback_text(e)), eff)
        } else {
            &&& b.pending == Pending::Backend { purpose, cpu: true, dir, file_name }
            &&& keeps(a, b, set![Field::PendingStep])
            &&& eff.len() == 1
            &&& (eff[0] matches Effect::LoadBackend { dir: d, file_name: f, params, cpu_only } && d == dir
                && f == file_name
                && cpu_only && params_for(params, a.language@))
        },
        _ => keeps(a, b, Set::empty()) && eff.len() == 0,
    }
}

/// How opening the audio input for a recording goes on.
pub open spec fn audio_resumed(a: AppState, b: AppState, outcome: Outcome, eff: Seq<Effect>) -> bool {
    match outcome {
        Outcome::AudioInit(Ok(_)) => exists|m: AppState| #[trigger] audio_opened_via(a, m, b, eff),
        Outcome::AudioInit(Err(e)) => {
            &&& holds_text(b.error_message, "Failed to init audio: "@ + e@)
            &&& !b.is_recording
            &&& b.pending is Idle
            &&& keeps(a, b, set![Field::ErrorMessage, Field::IsRecording, Field::PendingStep])
            &&& eff.len() == 0
        },
        _ => keeps(a, b, Set::empty()) && eff.len() == 0,
    }
}

/// How starting capture and worker for a recording goes on.
pub open spec fn capture_resumed(a: AppState, b: AppState, outcome: Outcome, eff: Seq<Effect>) -> bool {
    match outcome {
        Outcome::CaptureStarted(Ok(_)) => {
            &&& b.worker_running
            &&& b.pending is Idle
            &&& keeps(a, b, set![Field::WorkerRunning, Field::PendingStep])
            &&& eff.len() == 0
        },
        Outcome::CaptureStarted(Err(e)) => {
            &&& holds_text(b.error_message, "Failed to start recording: "@ + e@)
            &&& !b.is_recording
            &&& b.pending is Idle
            &&& keeps(a, b, set![Field::ErrorMessage, Field::IsRecording, Field::PendingStep])
            &&& eff.len() == 0
        },
        _ => keeps(a, b, Set::empty()) && eff.len() == 0,
    }
}

/// How a stop goes on once its worker has ended.
pub open spec fn stop_resumed(a: AppState, b: AppState, outcome: Outcome, eff: Seq<Effect>) -> bool {
    match outcome {
        Outcome::Drained { results, levels, download_done, progress } => exists|
            m: AppState,
            n: AppState,
            k: int,
        | #[trigger]
            worker_joined_via(a, m, n, b, results@, levels@, download_done, progress@, k, eff),
        _ => keeps(a, b, Set::empty()) && eff.len() == 0,
    }
}

/// How a poll goes on once the channels are drained.
pub open spec fn poll_resumed(a: AppState, b: AppState, outcome: Outcome, eff: Seq<Effect>) -> bool {
    match outcome {
        Outcome::Drained { results, levels, download_done, progress } => exists|m: AppState| #[trigger]
            polled_via(a, m, b, results@, levels@, download_done, progress@, eff),
        _ => keeps(a, b, Set::empty()) && eff.len() == 0,
    }
}

/// How the application goes on once outside work it waited for is done:
/// `b` is the state after `a` took in `outcome`, and `eff` the outside
/// work asked for next. An outcome that is not the one waited for changes nothing.
pub open spec fn resume_spec(a: AppState, b: AppState, outcome: Outcome, eff: Seq<Effect>) -> bool {
    match a.pending {
        Pending::Backend { purpose, cpu, dir, file_name } => backend_resumed(
            a,
            b,
            purpose,
            cpu,
            dir,
            file_name,
            outcome,
            eff,
        ),
        Pending::AudioForRecording => audio_resumed(a, b, outcome, eff),
        Pending::CaptureForRecording => capture_resumed(a, b, outcome, eff),
        Pending::StopJoin => stop_resumed(a, b, outcome, eff),
        Pending::Poll => poll_resumed(a, b, outcome, eff),
        Pending::Idle => keeps(a, b, Set::empty()) && eff.len() == 0,
    }
}

/// The settings kept between runs, as the settings file holds them.
pub struct SavedSettings {
    pub selected_model_idx: usize,
    pub language: String,
    /// The hyphenated text of the last active document's identifier.
    pub last_active_doc: Option<String>,
}

/// The settings a run starts from: those read from the settings file, or,
/// when there is none or it cannot be read, the first model, English and no
/// document. A document identifier that does not parse is dropped.
pub open spec fn restored_spec(stored: Option<SavedSettings>) -> (usize, Seq<char>, Option<u128>) {
    match stored {
        None => (0, "en"@, None),
        Some(s) => (
            s.selected_model_idx,
            s.language@,
            match s.last_active_doc {
                Some(t) => parsed_uuid(t@),
                None => None,
            },
        ),
    }
}

/// `s` holds the settings of state `a` as they are stored: the selected
/// model, the language, and the text of the last active document's
/// identifier, which reads back to that identifier.
pub open spec fn settings_saved_from(a: AppState, s: SavedSettings) -> bool {
    &&& s.selected_model_idx == a.selected_model_idx
    &&& s.language@ == a.language@
    &&& match a.last_active_doc {
        Some(id) => s.last_active_doc matches Some(t) && t@ == uuid_text_spec(id) && parsed_uuid(t@) == Some(
            id,
        ),
        None => s.last_active_doc is None,
    }
}

/// The settings a run starts from (see `restored_spec`).
pub fn restored_settings(stored: Option<SavedSettings>) -> (r: (usize, String, Option<u128>))
    ensures
        (r.0, r.1@, r.2) == restored_spec(stored),
{
    match stored {
        None => (0, String::from_str("en"), None),
        Some(s) => {
            let last = match &s.last_active_doc {
                Some(t) => parse_uuid(t.as_str()),
                None => None,
            };
            (s.selected_model_idx, s.language, last)
        },
    }
}

/// Settings saved from a state and restored give back its selected model,
/// its language and its last active document.
pub proof fn settings_round_trip(a: AppState, s: SavedSettings)
    requires
        settings_saved_from(a, s),
    ensures
        restored_spec(Some(s)) == (a.selected_model_idx, a.language@, a.last_active_doc),
{
}

/// An effect whose outcome the application waits for before going on.
pub open spec fn awaits_outcome(e: Effect) -> bool {
    ||| e is LoadBackend
    ||| e is InitAudio
    ||| e is StartCapture
    ||| e is JoinWorker
    ||| e is Drain
}

/// What the application waits for while an effect is carried out.
pub open spec fn awaited_by(e: Effect, p: Pending) -> bool {
    match e {
        Effect::LoadBackend { .. } => p is Backend,
        Effect::InitAudio => p is AudioForRecording,
        Effect::StartCapture => p is CaptureForRecording,
        Effect::JoinWorker => p is StopJoin,
        Effect::Drain => p is Poll,
        _ => false,
    }
}

/// The outcome answers what the application waits for.
pub open spec fn answers(p: Pending, o: Outcome) -> bool {
    match p {
        Pending::Backend { .. } => o is BackendLoaded,
        Pending::AudioForRecording => o is AudioInit,
        Pending::CaptureForRecording => o is CaptureStarted,
        Pending::StopJoin | Pending::Poll => o is Drained,
        Pending::Idle => false,
    }
}

/// The effects hand over correctly: only the last of them may await an
/// outcome, and the application waits exactly when it does, for that one.
pub open spec fn hands_over(b: AppState, eff: Seq<Effect>) -> bool {
    &&& forall|i: int| 0 <= i < eff.len() - 1 ==> !awaits_outcome(#[trigger] eff[i])
    &&& if eff.len() > 0 && awaits_outcome(eff.last()) {
        awaited_by(eff.last(), b.pending)
    } else {
        b.pending is Idle
    }
}

/// A message taken in while nothing is awaited hands over correctly: at
/// most its last effect awaits an outcome, and the application waits for it
/// exactly then.
pub proof fn update_hands_over(a: AppState, b: AppState, msg: Message, eff: Seq<Effect>)
    requires
        update_spec(a, b, msg, eff),
        a.pending is Idle,
    ensures
        hands_over(b, eff),
{
    match msg {
        Message::StartRecord => {
            if !a.is_recording && a.downloading_model is None {
                let m = choose|m: AppState| #[trigger] record_started_via(a, m, b, eff);
                if !a.backend_loaded {
                    lemma_begun_hands_over(m, b, Purpose::StartRecord, eff);
                } else {
                    lemma_continues_hands_over(m, b, eff);
                }
            }
        },
        Message::StopRecord => {
            let m = choose|m: AppState| #[trigger] stop_begun_via(a, m, b, eff);
            let n = stop_saves(a).len() as int;
            lemma_saves_wait_for_nothing(a);
            if a.worker_running {
                assert(eff.skip(n).len() == 1);
                assert(eff.last() == eff.skip(n)[0]);
                lemma_prepend_hands_over(b, eff.take(n), eff.skip(n));
                assert(eff.take(n) + eff.skip(n) =~= eff);
            } else {
                lemma_finished_stop_hands_over(m, b, eff.skip(n));
                lemma_prepend_hands_over(b, eff.take(n), eff.skip(n));
                assert(eff.take(n) + eff.skip(n) =~= eff);
            }
        },
        Message::SaveSettings => {
            let m = choose|m: AppState| #[trigger] settings_saved_via(a, m, b, eff);
            if !a.backend_loaded {
                lemma_begun_hands_over(m, b, Purpose::SaveSettings, eff.skip(1));
            }
            lemma_prepend_hands_over(b, eff.take(1), eff.skip(1));
            assert(eff.take(1) + eff.skip(1) =~= eff);
        },
        Message::LoadModel(idx) => {
            let m = choose|m: AppState| #[trigger] model_load_via(a, m, b, idx, eff);
            lemma_begun_hands_over(m, b, Purpose::LoadModel, eff);
        },
        Message::InitBackend => {
            lemma_begun_hands_over(a, b, Purpose::InitBackend, eff);
        },
        _ => {},
    }
}

/// An outcome that answers what the application waits for hands over
/// correctly in turn.
pub proof fn resume_hands_over(a: AppState, b: AppState, outcome: Outcome, eff: Seq<Effect>)
    requires
        resume_spec(a, b, outcome, eff),
        answers(a.pending, outcome),
    ensures
        hands_over(b, eff),
{
    match a.pending {
        Pending::Backend { purpose, cpu, dir, file_name } => match outcome {
            Outcome::BackendLoaded(Ok(acc)) => {
                let m = choose|m: AppState| #[trigger]
                    load_succeeded_via(a, m, b, purpose, accelerator_after(cpu, acc@), eff);
                lemma_finished_hands_over(m, b, purpose, Ok(()), eff);
            },
            Outcome::BackendLoaded(Err(e)) => {
                if cpu {
                    lemma_finished_hands_over(a, b, purpose, Err(cpu_fallback_text(e)), eff);
                }
            },
            _ => {},
        },
        Pending::AudioForRecording => match outcome {
            Outcome::AudioInit(Ok(_)) => {
                let m = choose|m: AppState| #[trigger] audio_opened_via(a, m, b, eff);
                lemma_capture_hands_over(m, b, eff);
            },
            _ => {},
        },
        Pending::StopJoin => match outcome {
            Outcome::Drained { results, levels, download_done, progress } => {
                let (m, n, k) = choose|m: AppState, n: AppState, k: int| #[trigger]
                    worker_joined_via(a, m, n, b, results@, levels@, download_done, progress@, k, eff);
                lemma_finished_stop_hands_over(n, b, eff.skip(k));
                assert forall|i: int| 0 <= i < eff.take(k).len() implies !awaits_outcome(#[trigger] eff.take(k)[i]) by {
                    assert(eff.take(k)[i] is SaveIfDue);
                }
                lemma_prepend_hands_over(b, eff.take(k), eff.skip(k));
                assert(eff.take(k) + eff.skip(k) =~= eff);
            },
            _ => {},
        },
        Pending::Poll => match outcome {
            Outcome::Drained { results, levels, download_done, progress } => {
                let m = choose|m: AppState| #[trigger]
                    polled_via(a, m, b, results@, levels@, download_done, progress@, eff);
                assert forall|i: int| 0 <= i < eff.len() implies !awaits_outcome(#[trigger] eff[i]) by {
                    assert(eff[i] is SaveIfDue);
                }
            },
            _ => {},
        },
        _ => {},
    }
}

/// Effects none of which awaits an outcome, put before effects that hand
/// over correctly, hand over correctly.
proof fn lemma_prepend_hands_over(b: AppState, pre: Seq<Effect>, rest: Seq<Effect>)
    requires
        forall|i: int| 0 <= i < pre.len() ==> !awaits_outcome(#[trigger] pre[i]),
        hands_over(b, rest),
        rest.len() == 0 ==> b.pending is Idle,
    ensures
        hands_over(b, pre + rest),
{
    let all = pre + rest;
    assert forall|i: int| 0 <= i < all.len() - 1 implies !awaits_outcome(#[trigger] all[i]) by {
        if i < pre.len() {
            assert(all[i] == pre[i]);
        } else {
            assert(all[i] == rest[i - pre.len()]);
        }
    }
    if rest.len() > 0 {
        assert(all.last() == rest.last());
    } else if pre.len() > 0 {
        assert(all.last() == pre[pre.len() - 1]);
    }
}

/// The saves a stop asks for first await nothing.
proof fn lemma_saves_wait_for_nothing(a: AppState)
    ensures
        forall|i: int| 0 <= i < stop_saves(a).len() ==> !awaits_outcome(#[trigger] stop_saves(a)[i]),
{
    let s = stop_saves(a);
    assert forall|i: int| 0 <= i < s.len() implies !awaits_outcome(#[trigger] s[i]) by {
        let first = match a.active_id {
            Some(id) => seq![Effect::SaveDocument(id)],
            None => seq![],
        };
        let last = if a.audio_ready {
            seq![Effect::StopCapture]
        } else {
            seq![]
        };
        assert(s == first + seq![Effect::SaveAllDocuments] + last);
        if i < first.len() {
            assert(s[i] == first[i]);
        } else if i == first.len() {
            assert(s[i] == Effect::SaveAllDocuments);
        } else {
            assert(s[i] == last[i - first.len() - 1]);
        }
    }
}

/// Capture begun hands over correctly.
proof fn lemma_capture_hands_over(a: AppState, b: AppState, eff: Seq<Effect>)
    requires
        capture_begun(a, b, eff),
    ensures
        hands_over(b, eff),
{
}

/// A recording going on hands over correctly.
proof fn lemma_continues_hands_over(a: AppState, b: AppState, eff: Seq<Effect>)
    requires
        recording_continues(a, b, eff),
    ensures
        hands_over(b, eff),
{
    if a.audio_ready {
        lemma_capture_hands_over(a, b, eff);
    }
}

/// The end of a model load hands over correctly.
proof fn lemma_finished_hands_over(
    a: AppState,
    b: AppState,
    purpose: Purpose,
    res: Result<(), Seq<char>>,
    eff: Seq<Effect>,
)
    requires
        backend_finished(a, b, purpose, res, eff),
    ensures
        hands_over(b, eff),
        eff.len() == 0 ==> b.pending is Idle,
{
    if purpose == Purpose::StartRecord && res is Ok {
        let m = choose|m: AppState|
            {
                &&& m.pending is Idle
                &&& keeps(a, m, set![Field::PendingStep])
                &&& recording_continues(m, b, eff)
            };
        lemma_continues_hands_over(m, b, eff);
    }
}

/// The start of a model load hands over correctly.
proof fn lemma_begun_hands_over(a: AppState, b: AppState, purpose: Purpose, eff: Seq<Effect>)
    requires
        backend_begun(a, b, purpose, eff),
    ensures
        hands_over(b, eff),
        eff.len() == 0 ==> b.pending is Idle,
{
    let sel = a.selected_model_idx;
    if sel >= crate::models::MODEL_COUNT {
        lemma_finished_hands_over(a, b, purpose, Err("No model selected"@), eff);
    } else {
        let m = choose|m: ModelInfo|
            crate::models::is_catalog_entry(m, sel as int) && #[trigger] backend_for_model_spec(
                a,
                b,
                purpose,
                Some(m),
                eff,
            );
        if !m.downloaded {
            lemma_finished_hands_over(a, b, purpose, Err(not_downloaded_text(m.name@)), eff);
        }
    }
}

/// The wind-down of a stop hands over correctly.
proof fn lemma_finished_stop_hands_over(a: AppState, b: AppState, eff: Seq<Effect>)
    requires
        stop_finished(a, b, eff),
        a.pending is Idle,
    ensures
        hands_over(b, eff),
        eff.len() > 0,
{
    let m = choose|m: AppState| #[trigger] stop_finished_via(a, m, b, eff);
    if a.selected_model_idx < a.models@.len() && a.models@[a.selected_model_idx as int].downloaded {
        lemma_begun_hands_over(m, b, Purpose::StopRecord, eff.skip(1));
    }
    assert(eff.take(1)[0] is CloseResultSender);
    lemma_prepend_hands_over(b, eff.take(1), eff.skip(1));
    assert(eff.take(1) + eff.skip(1) =~= eff);
}

/// Every message keeps the workspace valid: each document stays stored
/// under its own identifier, and the active identifier, when there is one,
/// names a stored document.
pub proof fn update_keeps_workspace_valid(a: AppState, b: AppState, msg: Message, eff: Seq<Effect>)
    requires
        update_spec(a, b, msg, eff),
        a.workspace.wf(),
    ensures
        b.workspace.wf(),
{
}

/// Every outcome of outside work keeps the workspace valid, as messages do.
pub proof fn resume_keeps_workspace_valid(a: AppState, b: AppState, outcome: Outcome, eff: Seq<Effect>)
    requires
        resume_spec(a, b, outcome, eff),
        a.workspace.wf(),
    ensures
        b.workspace.wf(),
{
}

impl AppState {
    /// The state the application starts from: no documents open, the second
    /// model of the catalogue selected, English as the language, nothing
    /// loaded, downloaded or shown.
    pub fn new(models_dir: std::path::PathBuf) -> (s: AppState)
        ensures
            s.workspace.documents@ == Map::<u128, Document>::empty(),
            s.workspace.active_id is None,
            s.active_id is None,
            s.last_active_doc is None,
            !s.is_recording && !s.is_paused && !s.is_stopping,
            s.audio_level == 0,
            !s.show_settings,
            s.selected_model_idx == 1,
            s.models@.len() == 0,
            s.model_status is NotDownloaded,
            !s.model_loaded,
            s.language@ == "en"@,
            s.language_options@.len() == 0,
            s.downloading_model is None,
            s.error_message is None,
            s.rename_doc is None,
            s.rename_input@.len() == 0,
            !s.show_landing,
            s.language_search@.len() == 0,
            s.accelerator is None,
            s.hovered_doc is None,
            !s.backend_loaded && !s.audio_ready && !s.worker_running,
            s.models_dir == models_dir,
            s.pending is Idle,
    {
        AppState {
            workspace: Workspace::default(),
            active_id: None,
            last_active_doc: None,
            is_recording: false,
            is_paused: false,
            is_stopping: false,
            audio_level: 0,
            show_settings: false,
            selected_model_idx: 1,
            models: Vec::new(),
            model_status: ModelStatus::NotDownloaded,
            model_loaded: false,
            language: String::from_str("en"),
            language_options: Vec::new(),
            downloading_model: None,
            error_message: None,
            rename_doc: None,
            rename_input: String::new(),
            show_landing: false,
            language_search: String::new(),
            accelerator: None,
            hovered_doc: None,
            backend_loaded: false,
            audio_ready: false,
            worker_running: false,
            models_dir,
            pending: Pending::Idle,
        }
    }

    /// The settings to store: the selected model, the language, and the
    /// text of the last active document's identifier.
    pub fn saved_settings(&self) -> (s: SavedSettings)
        ensures
            settings_saved_from(*self, s),
    {
        SavedSettings {
            selected_model_idx: self.selected_model_idx,
            language: self.language.clone(),
            last_active_doc: match self.last_active_doc {
                Some(id) => Some(uuid_text(id)),
                None => None,
            },
        }
    }

    /// Whether a speech model is loaded.
    pub fn is_backend_ready(&self) -> (r: bool)
        ensures
            r == self.backend_loaded,
    {
        self.backend_loaded
    }

    /// Reads the catalogue of models afresh from the model directory.
    pub fn load_models(&mut self)
        ensures
            final(self).models@.len() == crate::models::MODEL_COUNT,
            forall|i: int|
                0 <= i < crate::models::MODEL_COUNT ==> crate::models::is_catalog_entry(
                    #[trigger] final(self).models@[i],
                    i,
                ),
            keeps(*old(self), *final(self), set![Field::Models]),
    {
        let manager = ModelManager::new(self.models_dir.clone());
        self.models = manager.into_models();
    }

    /// The parameters the selected model is loaded with.
    fn backend_params(&self) -> (p: BackendParams)
        ensures
            params_for(p, self.language@),
    {
        BackendParams { language: Some(self.language.clone()), beam_size: 1, vad_enabled: false }
    }

    /// Starts capturing for a recording whose backend is loaded (see `capture_begun`).
    fn begin_capture(&mut self) -> (eff: Vec<Effect>)
        ensures
            capture_begun(*old(self), *final(self), eff@),
    {
        if !self.audio_ready {
            self.error_message = Some(String::from_str("Audio capture not initialized"));
            self.is_recording = false;
            self.pending = Pending::Idle;
            return Vec::new();
        }
        if !self.backend_loaded {
            self.error_message = Some(String::from_str("Backend not initialized"));
            self.is_recording = false;
            self.pending = Pending::Idle;
            return Vec::new();
        }
        self.backend_loaded = false;
        self.pending = Pending::CaptureForRecording;
        let mut eff = Vec::new();
        eff.push(Effect::StartCapture);
        eff
    }

    /// Goes on with a recording whose backend is loaded (see `recording_continues`).
    fn continue_recording(&mut self) -> (eff: Vec<Effect>)
        ensures
            recording_continues(*old(self), *final(self), eff@),
    {
        if !self.audio_ready {
            self.pending = Pending::AudioForRecording;
            let mut eff = Vec::new();
            eff.push(Effect::InitAudio);
            return eff;
        }
        self.begin_capture()
    }

    /// Ends a model load on behalf of `purpose` (see `backend_finished`).
    fn finish_backend(&mut self, purpose: Purpose, res: Result<(), String>) -> (eff: Vec<Effect>)
        ensures
            backend_finished(
                *old(self),
                *final(self),
                purpose,
                match res {
                    Ok(u) => Ok(u),
                    Err(e) => Err(e@),
                },
                eff@,
            ),
    {
        self.pending = Pending::Idle;
        match purpose {
            Purpose::StartRecord => match res {
                Err(e) => {
                    self.error_message = Some(e);
                    self.is_recording = false;
                    Vec::new()
                },
                Ok(_) => {
                    let ghost m = *self;
                    let eff = self.continue_recording();
                    assert(recording_continues(m, *self, eff@));
                    eff
                },
            },
            Purpose::SaveSettings => {
                match res {
                    Err(e) => {
                        self.model_status = ModelStatus::Error(e);
                    },
                    Ok(_) => {
                        self.model_status = ModelStatus::Ready;
                    },
                }
                self.show_settings = false;
                let mut eff = Vec::new();
                eff.push(Effect::SaveAppState);
                eff
            },
            Purpose::LoadModel => {
                match res {
                    Err(e) => {
                        self.model_status = ModelStatus::Error(e);
                    },
                    Ok(_) => {
                        self.model_status = ModelStatus::Ready;
                    },
                }
                Vec::new()
            },
            Purpose::InitBackend => {
                let mut eff = Vec::new();
                match res {
                    Err(e) => {
                        eff.push(Effect::Dispatch(Message::BackendInitError(e)));
                    },
                    Ok(_) => {},
                }
                eff
            },
            Purpose::StopRecord | Purpose::Boot => Vec::new(),
        }
    }

    /// Takes in a transcribed text (see `transcription_handled`).
    pub fn handle_transcription_result(&mut self, text: String) -> (eff: Vec<Effect>)
        ensures
            transcription_handled(*old(self), *final(self), text@, eff@),
    {
        if text.as_str().is_empty() {
            return Vec::new();
        }
        let hms = local_time_of_day();
        let mut stamp = String::new();
        stamp.push('[');
        stamp.append(hms.as_str());
        stamp.push(']');
        stamp.push(' ');
        let v = chars_of(text.as_str());
        let (a, b) = trim_bounds(&v, 0, v.len());
        assert(v@.subrange(0, v.len() as int) =~= v@);
        let trimmed = string_of(&v, a, b);
        let ghost ts = stamp@;
        let ghost tx = trimmed@;
        assert(ts =~= seq!['['] + hms@ + seq![']', ' ']);
        let r = self.workspace.append_to_active(stamp, trimmed);
        let mut eff = Vec::new();
        match r {
            Some(id) => match self.workspace.save_target(id) {
                Some((file_name, content)) => {
                    eff.push(Effect::SaveIfDue { id, file_name, content });
                },
                None => {},
            },
            None => {},
        }
        assert(clock_text(hms@));
        eff
    }

    /// Takes in what the channels held (see `drained_absorbed`).
    fn absorb_drained(
        &mut self,
        results: Vec<TranscriptionResult>,
        levels: Vec<u32>,
        download_done: bool,
        progress: Vec<(u32, bool)>,
    ) -> (eff: Vec<Effect>)
        ensures
            drained_absorbed(
                *old(self),
                *final(self),
                results@,
                levels@,
                download_done,
                progress@,
                eff@,
            ),
    {
        let ghost a = *self;
        let mut eff: Vec<Effect> = Vec::new();
        let ghost rs = results@;
        assert(rs.take(rs.len() as int) =~= rs);
        let ghost mut ws: Seq<Workspace> = seq![a.workspace];
        let ghost mut hs: Seq<Seq<char>> = seq![];
        let ghost mut ks: Seq<int> = seq![0];
        assert(rs.take(0) =~= Seq::<TranscriptionResult>::empty());
        assert(texts_taken_in_via(a.workspace, self.workspace, segment_texts(rs.take(0)), eff@, ws, hs, ks));
        for result in it: results
            invariant
                it.seq() == rs,
                texts_taken_in_via(
                    a.workspace,
                    self.workspace,
                    segment_texts(it.seq().take(it.index())),
                    eff@,
                    ws,
                    hs,
                    ks,
                ),
                rs.take(rs.len() as int) == rs,
                keeps(
                    a,
                    *self,
                    set![Field::Workspace, Field::ErrorMessage],
                ),
                match last_error_text(it.seq().take(it.index())) {
                    Some(e) => holds_text(self.error_message, e),
                    None => self.error_message == a.error_message,
                },
                self.workspace.documents@.dom() == a.workspace.documents@.dom(),
                self.workspace.active_id == a.workspace.active_id,
                forall|k: u128| Some(k) != a.workspace.active_id && #[trigger] a.workspace.documents@.contains_key(k)
                    ==> self.workspace.documents@[k] == a.workspace.documents@[k],
                a.workspace.wf() ==> self.workspace.wf(),
                forall|i: int| 0 <= i < eff@.len() ==> (#[trigger] eff@[i] matches Effect::SaveIfDue { id, file_name: _, content: _ }
                    && Some(id) == a.workspace.active_id),
            ensures
                match last_error_text(rs) {
                    Some(e) => holds_text(self.error_message, e),
                    None => self.error_message == a.error_message,
                },
        {
            assert(it.seq().take(it.index() + 1).drop_last() =~= it.seq().take(it.index()));
            let ghost texts = segment_texts(it.seq().take(it.index()));
            match result {
                TranscriptionResult::Segment(text) => {
                    let ghost t = text@;
                    let ghost w0 = self.workspace;
                    let ghost s0 = *self;
                    let mut more = self.handle_transcription_result(text);
                    let ghost old_eff = eff@;
                    let ghost more_v = more@;
                    eff.append(&mut more);
                    proof {
                        let hms = if t.len() == 0 {
                            Seq::<char>::empty()
                        } else {
                            let (h, r) = choose|h: Seq<char>, r: Option<u128>|
                                {
                                    &&& clock_text(h)
                                    &&& appended_to_active(
                                        s0.workspace,
                                        self.workspace,
                                        seq!['['] + h + seq![']', ' '],
                                        trim_spec(t),
                                        r,
                                    )
                                    &&& keeps(s0, *self, set![Field::Workspace])
                                    &&& save_if_due_effects(self.workspace, r, more_v)
                                };
                            h
                        };
                        assert(text_taken_in(w0, self.workspace, t, hms, more_v));
                        assert(segment_texts(it.seq().take(it.index() + 1)) == texts.push(t));
                        lemma_texts_step(a.workspace, texts, old_eff, ws, hs, ks, self.workspace, t, hms, more_v);
                        assert(old_eff + more_v =~= eff@);
                        ws = ws.push(self.workspace);
                        hs = hs.push(hms);
                        ks = ks.push(eff@.len() as int);
                    }
                    proof {
                        assert forall|i: int| 0 <= i < eff@.len() implies (#[trigger] eff@[i] matches Effect::SaveIfDue { id, file_name: _, content: _ }
                            && Some(id) == a.workspace.active_id) by {
                            if i >= old_eff.len() {
                                assert(eff@[i] == more_v[i - old_eff.len()]);
                            }
                        }
                    }
                },
                TranscriptionResult::Error(err) => {
                    self.error_message = Some(err);
                    assert(segment_texts(it.seq().take(it.index() + 1)) =~= texts);
                },
            }
        }
        proof {
            assert(texts_taken_in_via(a.workspace, self.workspace, segment_texts(rs), eff@, ws, hs, ks));
        }
        let ghost mid = *self;
        self.absorb_levels_and_progress(levels, download_done, progress);
        assert(keeps(mid, *self, set![Field::AudioLevel, Field::Status]));
        eff
    }

    /// Takes in the audio levels and download percentages the channels held.
    fn absorb_levels_and_progress(
        &mut self,
        levels: Vec<u32>,
        download_done: bool,
        progress: Vec<(u32, bool)>,
    )
        ensures
            keeps(*old(self), *final(self), set![Field::AudioLevel, Field::Status]),
            final(self).audio_level == if levels@.len() > 0 {
                levels@.last()
            } else {
                old(self).audio_level
            },
            final(self).model_status == if download_done {
                old(self).model_status
            } else {
                status_after_progress(old(self).model_status, progress@)
            },
    {
        let ghost a = *self;
        let mut i: usize = 0;
        while i < levels.len()
            invariant
                i <= levels@.len(),
                keeps(a, *self, set![Field::AudioLevel]),
                self.audio_level == if i > 0 {
                    levels@[i - 1]
                } else {
                    a.audio_level
                },
            decreases levels@.len() - i,
        {
            self.audio_level = levels[i];
            i = i + 1;
        }
        if download_done {
            return;
        }
        let mut j: usize = 0;
        while j < progress.len()
            invariant
                j <= progress@.len(),
                keeps(a, *self, set![Field::AudioLevel, Field::Status]),
                self.audio_level == if levels@.len() > 0 {
                    levels@.last()
                } else {
                    a.audio_level
                },
                self.model_status == status_after_progress(a.model_status, progress@.take(j as int)),
            decreases progress@.len() - j,
        {
            assert(progress@.take(j + 1).drop_last() =~= progress@.take(j as int));
            let (bits, at_least_zero) = progress[j];
            let shows_error = match &self.model_status {
                ModelStatus::Error(_) => true,
                _ => false,
            };
            if at_least_zero && !shows_error {
                self.model_status = ModelStatus::Downloading(bits);
            }
            j = j + 1;
        }
        assert(progress@.take(progress@.len() as int) =~= progress@);
    }

    /// Winds a recording down once its worker is over (see `stop_finished`).
    fn finish_stop(&mut self) -> (eff: Vec<Effect>)
        ensures
            stop_finished(*old(self), *final(self), eff@),
    {
        let ghost a = *self;
        self.is_stopping = false;
        let ghost m = *self;
        let mut eff = Vec::new();
        eff.push(Effect::CloseResultSender);
        let sel = self.selected_model_idx;
        if sel < self.models.len() && self.models[sel].downloaded {
            let mut more = self.begin_backend(Purpose::StopRecord);
            let ghost more_v = more@;
            eff.append(&mut more);
            assert(eff@.skip(1) =~= more_v);
            assert(backend_begun(m, *self, Purpose::StopRecord, eff@.skip(1)));
        } else {
            assert(keeps(m, *self, Set::empty()));
        }
        assert(keeps(a, m, set![Field::IsStopping]));
        assert(eff@.len() >= 1);
        assert(stop_finished_via(a, m, *self, eff@));
        eff
    }

    /// The error text of a transcription update that carries the error tag:
    /// the text without its leading tags, trimmed.
    fn error_report_text(text: &str) -> (r: String)
        ensures
            r@ == trim_spec(strip_error_tags(text@)),
    {
        let v = chars_of(text);
        let n = v.len();
        let mut pos: usize = 0;
        assert(v@.subrange(0, n as int) =~= v@);
        while n - pos >= 7 && v[pos] == '[' && v[pos + 1] == 'E' && v[pos + 2] == 'r' && v[pos + 3]
            == 'r' && v[pos + 4] == 'o' && v[pos + 5] == 'r' && v[pos + 6] == ']'
            invariant
                pos <= n == v.len(),
                strip_error_tags(v@) == strip_error_tags(v@.subrange(pos as int, n as int)),
            decreases n - pos,
        {
            let ghost u = v@.subrange(pos as int, n as int);
            assert(u.take(7) =~= error_tag());
            assert(u.skip(7) =~= v@.subrange(pos + 7, n as int));
            pos = pos + 7;
        }
        proof {
            let u = v@.subrange(pos as int, n as int);
            if u.len() >= 7 && is_prefix(error_tag(), u) {
                assert(u.take(7)[0] == u[0]);
                assert(u.take(7)[1] == u[1]);
                assert(u.take(7)[2] == u[2]);
                assert(u.take(7)[3] == u[3]);
                assert(u.take(7)[4] == u[4]);
                assert(u.take(7)[5] == u[5]);
                assert(u.take(7)[6] == u[6]);
            }
        }
        let (a, b) = trim_bounds(&v, pos, n);
        string_of(&v, a, b)
    }

    fn on_select_document(&mut self, id: u128) -> (eff: Vec<Effect>)
        ensures
            select_document_spec(*old(self), *final(self), id, eff@),
    {
        let ghost a = *self;
        self.last_active_doc = self.active_id;
        let mut eff = Vec::new();
        match self.active_id {
            Some(cur) => {
                eff.push(Effect::SaveDocument(cur));
            },
            None => {},
        }
        self.workspace.activate(id);
        self.active_id = Some(id);
        eff.push(Effect::SaveAppState);
        eff
    }

    fn on_start_record(&mut self) -> (eff: Vec<Effect>)
        requires
            old(self).workspace.documents@.len() < usize::MAX,
        ensures
            start_record_spec(*old(self), *final(self), eff@),
    {
        let ghost a = *self;
        if self.is_recording {
            return Vec::new();
        }
        if self.downloading_model.is_some() {
            self.error_message = Some(
                String::from_str("Cannot start recording while a model is downloading"),
            );
            return Vec::new();
        }
        if self.workspace.documents.is_empty() {
            let id = self.workspace.new_document();
            self.active_id = Some(id);
        }
        self.is_recording = true;
        self.is_paused = false;
        let ghost m = *self;
        let eff = if !self.backend_loaded {
            self.begin_backend(Purpose::StartRecord)
        } else {
            self.continue_recording()
        };
        assert(record_started_via(a, m, *self, eff@));
        eff
    }

    fn on_stop_record(&mut self) -> (eff: Vec<Effect>)
        ensures
            stop_record_spec(*old(self), *final(self), eff@),
    {
        let ghost a = *self;
        self.is_recording = false;
        self.is_paused = false;
        self.is_stopping = true;
        let ghost m = *self;
        let mut eff = Vec::new();
        match self.active_id {
            Some(id) => {
                eff.push(Effect::SaveDocument(id));
            },
            None => {},
        }
        eff.push(Effect::SaveAllDocuments);
        if self.audio_ready {
            eff.push(Effect::StopCapture);
        }
        let ghost saves = eff@;
        assert(saves =~= stop_saves(a));
        if self.worker_running {
            self.pending = Pending::StopJoin;
            eff.push(Effect::JoinWorker);
        } else {
            let mut more = self.finish_stop();
            let ghost more_v = more@;
            eff.append(&mut more);
            assert(eff@.skip(saves.len() as int) =~= more_v);
        }
        assert(eff@.take(saves.len() as int) =~= saves);
        assert(stop_begun_via(a, m, *self, eff@));
        eff
    }

    fn on_save_settings(&mut self) -> (eff: Vec<Effect>)
        ensures
            save_settings_spec(*old(self), *final(self), eff@),
    {
        let ghost a = *self;
        self.downloading_model = None;
        self.language_search = String::new();
        let ghost m = *self;
        let mut eff = Vec::new();
        eff.push(Effect::ClearDownload { done: false });
        if !self.backend_loaded {
            let mut more = self.begin_backend(Purpose::SaveSettings);
            let ghost more_v = more@;
            eff.append(&mut more);
            assert(eff@.skip(1) =~= more_v);
        } else {
            self.show_settings = false;
            eff.push(Effect::SaveAppState);
            assert(eff@.skip(1) =~= seq![Effect::SaveAppState]);
        }
        assert(settings_saved_via(a, m, *self, eff@));
        eff
    }

    fn on_transcription_update(&mut self, text: String) -> (eff: Vec<Effect>)
        ensures
            transcription_update_spec(*old(self), *final(self), text, eff@),
    {
        let ghost a = *self;
        let v = chars_of(text.as_str());
        if v.len() >= 7 && v[0] == '[' && v[1] == 'E' && v[2] == 'r' && v[3] == 'r' && v[4]
            == 'o' && v[5] == 'r' && v[6] == ']' {
            assert(text@.take(7) =~= error_tag());
            self.error_message = Some(Self::error_report_text(text.as_str()));
            Vec::new()
        } else {
            proof {
                if text@.len() >= 7 && is_prefix(error_tag(), text@) {
                    assert(text@.take(7)[0] == text@[0]);
                    assert(text@.take(7)[1] == text@[1]);
                    assert(text@.take(7)[2] == text@[2]);
                    assert(text@.take(7)[3] == text@[3]);
                    assert(text@.take(7)[4] == text@[4]);
                    assert(text@.take(7)[5] == text@[5]);
                    assert(text@.take(7)[6] == text@[6]);
                }
            }
            self.handle_transcription_result(text)
        }
    }

    fn on_model_selected(&mut self, idx: usize) -> (eff: Vec<Effect>)
        ensures
            model_selected_spec(*old(self), *final(self), idx, eff@),
    {
        let ghost a = *self;
        self.selected_model_idx = idx;
        if idx < self.models.len() {
            if self.models[idx].downloaded {
                self.model_status = ModelStatus::Ready;
                if self.backend_loaded {
                    self.model_loaded = true;
                }
            } else {
                self.model_status = ModelStatus::NotDownloaded;
            }
        }
        let mut eff = Vec::new();
        eff.push(Effect::SaveAppState);
        eff
    }

    fn on_download_complete(&mut self) -> (eff: Vec<Effect>)
        ensures
            download_complete_spec(*old(self), *final(self), eff@),
    {
        let ghost a = *self;
        self.model_status = ModelStatus::Ready;
        self.downloading_model = None;
        self.load_models();
        let mut eff = Vec::new();
        eff.push(Effect::ClearDownload { done: true });
        eff
    }

    fn on_rename_document(&mut self, id: u128) -> (eff: Vec<Effect>)
        ensures
            rename_document_spec(*old(self), *final(self), id, eff@),
    {
        let ghost a = *self;
        self.rename_doc = Some(id);
        match self.workspace.documents.get(&id) {
            Some(doc) => {
                self.rename_input = doc.title.clone();
            },
            None => {},
        }
        Vec::new()
    }

    fn on_rename_confirm(&mut self, new_title: String) -> (eff: Vec<Effect>)
        ensures
            rename_confirm_spec(*old(self), *final(self), new_title, eff@),
    {
        let ghost a = *self;
        match self.rename_doc {
            None => {},
            Some(id) => {
                self.rename_doc = None;
                let sanitized = Document::sanitize_title(new_title.as_str());
                if !sanitized.as_str().is_empty() {
                    self.workspace.rename_document(id, sanitized);
                }
                match self.workspace.documents.get(&id) {
                    Some(doc) => {
                        self.rename_input = doc.title.clone();
                    },
                    None => {},
                }
            },
        }
        Vec::new()
    }

    fn on_load_model(&mut self, idx: usize) -> (eff: Vec<Effect>)
        ensures
            load_model_spec(*old(self), *final(self), idx, eff@),
    {
        let ghost a = *self;
        self.selected_model_idx = idx;
        let ghost m = *self;
        let eff = self.begin_backend(Purpose::LoadModel);
        assert(model_load_via(a, m, *self, idx, eff@));
        eff
    }

    fn on_new_document(&mut self) -> (eff: Vec<Effect>)
        requires
            old(self).workspace.documents@.len() < usize::MAX,
        ensures
            new_document_spec(*old(self), *final(self), eff@),
    {
        let ghost a = *self;
        let id = self.workspace.new_document();
        self.active_id = Some(id);
        let mut eff = Vec::new();
        eff.push(Effect::SaveAppState);
        assert(new_document_added(a.workspace, self.workspace, id));
        eff
    }

    /// Goes on with a model load that was waited for (see `backend_resumed`).
    fn resume_backend(
        &mut self,
        purpose: Purpose,
        cpu: bool,
        dir: std::path::PathBuf,
        file_name: String,
        outcome: Outcome,
    ) -> (eff: Vec<Effect>)
        ensures
            backend_resumed(*old(self), *final(self), purpose, cpu, dir, file_name, outcome, eff@),
    {
        let ghost a = *self;
        match outcome {
            Outcome::BackendLoaded(Ok(reported)) => {
                let ghost rv = reported@;
                let acc = if cpu { String::from_str("CPU") } else { reported };
                self.accelerator = Some(acc);
                self.backend_loaded = true;
                self.model_loaded = true;
                let ghost m = *self;
                let eff = self.finish_backend(purpose, Ok(()));
                assert(load_succeeded_via(a, m, *self, purpose, accelerator_after(cpu, rv), eff@));
                eff
            },
            Outcome::BackendLoaded(Err(e)) => {
                if cpu {
                    let mut msg = String::from_str("Failed to load model (CPU fallback): ");
                    let text = e.message();
                    msg.append(text.as_str());
                    self.finish_backend(purpose, Err(msg))
                } else {
                    let params = self.backend_params();
                    self.pending = Pending::Backend {
                        purpose,
                        cpu: true,
                        dir: dir.clone(),
                        file_name: file_name.clone(),
                    };
                    let mut eff = Vec::new();
                    eff.push(Effect::LoadBackend { dir, file_name, params, cpu_only: true });
                    eff
                }
            },
            _ => Vec::new(),
        }
    }

    /// Goes on with opening the audio input (see `audio_resumed`).
    fn resume_audio(&mut self, outcome: Outcome) -> (eff: Vec<Effect>)
        ensures
            audio_resumed(*old(self), *final(self), outcome, eff@),
    {
        let ghost a = *self;
        match outcome {
            Outcome::AudioInit(Ok(_)) => {
                self.audio_ready = true;
                self.pending = Pending::Idle;
                let ghost m = *self;
                let eff = self.begin_capture();
                assert(audio_opened_via(a, m, *self, eff@));
                eff
            },
            Outcome::AudioInit(Err(e)) => {
                let mut msg = String::from_str("Failed to init audio: ");
                msg.append(e.as_str());
                self.error_message = Some(msg);
                self.is_recording = false;
                self.pending = Pending::Idle;
                Vec::new()
            },
            _ => Vec::new(),
        }
    }

    /// Goes on with starting capture and worker (see `capture_resumed`).
    fn resume_capture(&mut self, outcome: Outcome) -> (eff: Vec<Effect>)
        ensures
            capture_resumed(*old(self), *final(self), outcome, eff@),
    {
        match outcome {
            Outcome::CaptureStarted(Ok(_)) => {
                self.worker_running = true;
                self.pending = Pending::Idle;
                Vec::new()
            },
            Outcome::CaptureStarted(Err(e)) => {
                let mut msg = String::from_str("Failed to start recording: ");
                msg.append(e.as_str());
                self.error_message = Some(msg);
                self.is_recording = false;
                self.pending = Pending::Idle;
                Vec::new()
            },
            _ => Vec::new(),
        }
    }

    /// Goes on with a stop once its worker has ended (see `stop_resumed`).
    fn resume_stop(&mut self, outcome: Outcome) -> (eff: Vec<Effect>)
        ensures
            stop_resumed(*old(self), *final(self), outcome, eff@),
    {
        let ghost a = *self;
        match outcome {
            Outcome::Drained { results, levels, download_done, progress } => {
                let ghost (rv, lv, pv) = (results@, levels@, progress@);
                self.worker_running = false;
                self.pending = Pending::Idle;
                let ghost m = *self;
                let mut eff = self.absorb_drained(results, levels, download_done, progress);
                let ghost n = *self;
                let ghost first = eff@;
                let mut more = self.finish_stop();
                let ghost more_v = more@;
                eff.append(&mut more);
                assert(eff@.take(first.len() as int) =~= first);
                assert(eff@.skip(first.len() as int) =~= more_v);
                assert(worker_joined_via(
                    a,
                    m,
                    n,
                    *self,
                    rv,
                    lv,
                    download_done,
                    pv,
                    first.len() as int,
                    eff@,
                ));
                eff
            },
            _ => Vec::new(),
        }
    }

    /// Goes on with a poll once the channels are drained (see `poll_resumed`).
    fn resume_poll(&mut self, outcome: Outcome) -> (eff: Vec<Effect>)
        ensures
            poll_resumed(*old(self), *final(self), outcome, eff@),
    {
        let ghost a = *self;
        match outcome {
            Outcome::Drained { results, levels, download_done, progress } => {
                let ghost (rv, lv, pv) = (results@, levels@, progress@);
                self.pending = Pending::Idle;
                let ghost m = *self;
                let eff = self.absorb_drained(results, levels, download_done, progress);
                assert(polled_via(a, m, *self, rv, lv, download_done, pv, eff@));
                eff
            },
            _ => Vec::new(),
        }
    }

    /// The state the application starts in: the stored workspace with every
    /// transcript rebuilt from its document, the saved settings (selected
    /// model, language, last active document), the model catalogue read from
    /// the model directory and the languages on offer. When the selected model
    /// is downloaded its status is ready and it is loaded; the landing screen
    /// shows when no model is downloaded.
    pub fn boot(
        models_dir: std::path::PathBuf,
        workspace: Workspace,
        selected_model_idx: usize,
        language: String,
        last_active_doc: Option<u128>,
        language_options: Vec<(String, String)>,
    ) -> (r: (AppState, Vec<Effect>))
        ensures
            r.0.workspace.documents@.dom() == workspace.documents@.dom(),
            r.0.workspace.active_id == workspace.active_id,
            r.0.workspace.base_dir == workspace.base_dir,
            forall|k: u128| #[trigger] workspace.documents@.contains_key(k) ==> {
                let (d0, d1) = (workspace.documents@[k], r.0.workspace.documents@[k]);
                &&& d1.id == d0.id && d1.title == d0.title && d1.content == d0.content
                &&& lines_view(d1.transcript_lines@) == last_lines(
                    transcript_spec(d0.content@),
                    MAX_TRANSCRIPT_LINES as nat,
                )
            },
            r.0.selected_model_idx == selected_model_idx,
            r.0.language == language,
            r.0.last_active_doc == last_active_doc,
            r.0.language_options == language_options,
            r.0.models@.len() == crate::models::MODEL_COUNT,
            forall|i: int|
                0 <= i < crate::models::MODEL_COUNT ==> crate::models::is_catalog_entry(
                    #[trigger] r.0.models@[i],
                    i,
                ),
            r.0.show_landing == !(exists|i: int| 0 <= i < r.0.models@.len() && #[trigger] r.0.models@[i].downloaded),
            r.0.active_id is None,
            !r.0.is_recording && !r.0.show_settings && r.0.error_message is None,
            !r.0.worker_running && !r.0.audio_ready,
            r.0.models_dir == models_dir,
            if selected_model_idx < r.0.models@.len() && r.0.models@[selected_model_idx as int].downloaded {
                &&& r.0.model_status is Ready
                &&& (r.0.pending matches Pending::Backend { purpose: Purpose::Boot, cpu: false, dir, file_name }
                    && dir == models_dir && file_name@ == crate::models::catalog_filename(
                    selected_model_idx as int,
                ))
                &&& r.1@.len() == 1
                &&& (r.1@[0] matches Effect::LoadBackend { dir, file_name, params, cpu_only } && !cpu_only
                    && dir == models_dir && file_name@ == crate::models::catalog_filename(
                    selected_model_idx as int,
                ) && params_for(params, language@))
            } else {
                &&& r.0.model_status is NotDownloaded
                &&& r.0.pending is Idle
                &&& r.1@.len() == 0
            },
    {
        let mut workspace = workspace;
        workspace.parse_all_lines();
        let mut s = AppState::new(models_dir);
        s.workspace = workspace;
        s.selected_model_idx = selected_model_idx;
        s.language = language;
        s.last_active_doc = last_active_doc;
        s.load_models();
        s.language_options = language_options;
        let mut eff = Vec::new();
        if selected_model_idx < s.models.len() && s.models[selected_model_idx].downloaded {
            s.model_status = ModelStatus::Ready;
            let m = &s.models[selected_model_idx];
            let entry = ModelInfo {
                name: m.name.clone(),
                filename: m.filename.clone(),
                path: m.path.clone(),
                size_bytes: m.size_bytes,
                downloaded: m.downloaded,
            };
            eff = s.backend_for_model(Purpose::Boot, Some(&entry));
        }
        let mut any = false;
        let mut i: usize = 0;
        while i < s.models.len()
            invariant
                i <= s.models@.len(),
                any == (exists|j: int| 0 <= j < i && #[trigger] s.models@[j].downloaded),
            decreases s.models@.len() - i,
        {
            if s.models[i].downloaded {
                any = true;
            }
            i = i + 1;
        }
        s.show_landing = !any;
        (s, eff)
    }

    /// Goes on once outside work the application waited for is done (see `resume_spec`).
    pub fn resume(&mut self, outcome: Outcome) -> (eff: Vec<Effect>)
        ensures
            resume_spec(*old(self), *final(self), outcome, eff@),
    {
        match &self.pending {
            Pending::Backend { purpose, cpu, dir, file_name } => {
                let purpose = *purpose;
                let cpu = *cpu;
                let dir = dir.clone();
                let file_name = file_name.clone();
                self.resume_backend(purpose, cpu, dir, file_name, outcome)
            },
            Pending::AudioForRecording => self.resume_audio(outcome),
            Pending::CaptureForRecording => self.resume_capture(outcome),
            Pending::StopJoin => self.resume_stop(outcome),
            Pending::Poll => self.resume_poll(outcome),
            Pending::Idle => Vec::new(),
        }
    }

    /// Answers a message (see `update_spec`).
    pub fn update(&mut self, msg: Message) -> (eff: Vec<Effect>)
        requires
            old(self).workspace.documents@.len() < usize::MAX,
        ensures
            update_spec(*old(self), *final(self), msg, eff@),
    {
        let ghost a = *self;
        match msg {
            Message::NewDocument => self.on_new_document(),
            Message::SelectDocument(id) => self.on_select_document(id),
            Message::DeleteDocument(id) => {
                self.workspace.delete_document(id);
                Vec::new()
            },
            Message::StartRecord => self.on_start_record(),
            Message::StopRecord => self.on_stop_record(),
            Message::ResumeRecord => {
                self.is_paused = false;
                Vec::new()
            },
            Message::ShowSettings => {
                self.show_settings = true;
                Vec::new()
            },
            Message::HideSettings => {
                self.downloading_model = None;
                self.language_search = String::new();
                self.show_settings = false;
                let mut eff = Vec::new();
                eff.push(Effect::ClearDownload { done: false });
                eff
            },
            Message::SaveSettings => self.on_save_settings(),
            Message::TranscriptionUpdate(text) => self.on_transcription_update(text),
            Message::AudioLevelUpdate(level) => {
                self.audio_level = level;
                Vec::new()
            },
            Message::ModelDownloadProgress(pct) => {
                self.model_status = ModelStatus::Downloading(pct);
                Vec::new()
            },
            Message::ModelDownloadComplete => self.on_download_complete(),
            Message::ModelDownloadError(err) => {
                self.downloading_model = None;
                self.model_status = ModelStatus::Error(err);
                let mut eff = Vec::new();
                eff.push(Effect::ClearDownload { done: true });
                eff
            },
            Message::BackendInitError(err) => {
                self.error_message = Some(err);
                Vec::new()
            },
            Message::ModelSelected(idx) => self.on_model_selected(idx),
            Message::LanguageChanged(lang) => {
                self.language = lang;
                let mut eff = Vec::new();
                eff.push(Effect::SaveAppState);
                eff
            },
            Message::DownloadModel(idx) => {
                if self.downloading_model.is_some() {
                    return Vec::new();
                }
                self.model_status = ModelStatus::Downloading(0);
                self.downloading_model = Some(idx);
                let mut eff = Vec::new();
                eff.push(Effect::StartDownload(idx));
                eff
            },
            Message::LoadModel(idx) => self.on_load_model(idx),
            Message::InitBackend => self.begin_backend(Purpose::InitBackend),
            Message::PollTrigger | Message::DownloadPoll => {
                self.pending = Pending::Poll;
                let mut eff = Vec::new();
                eff.push(Effect::Drain);
                eff
            },
            Message::RenameDocument(id) => self.on_rename_document(id),
            Message::RenameDocumentConfirm(new_title) => self.on_rename_confirm(new_title),
            Message::ClearError => {
                self.error_message = None;
                Vec::new()
            },
            Message::HideLanding => {
                self.show_landing = false;
                Vec::new()
            },
            Message::LanguageSearch(q) => {
                self.language_search = q;
                Vec::new()
            },
            Message::SaveComplete => Vec::new(),
            Message::HoverDoc(d) => {
                self.hovered_doc = d;
                Vec::new()
            },
        }
    }

    /// Begins loading the selected model on behalf of `purpose` (see `backend_begun`).
    fn begin_backend(&mut self, purpose: Purpose) -> (eff: Vec<Effect>)
        ensures
            backend_begun(*old(self), *final(self), purpose, eff@),
    {
        let manager = ModelManager::new(self.models_dir.clone());
        let ghost sel = self.selected_model_idx;
        let model = manager.get_model_by_index(self.selected_model_idx);
        let eff = self.backend_for_model(purpose, model);
        proof {
            if sel < crate::models::MODEL_COUNT {
                let m = manager.model_list()[sel as int];
                assert(crate::models::is_catalog_entry(m, sel as int));
                assert(backend_for_model_spec(*old(self), *self, purpose, Some(m), eff@));
            }
        }
        eff
    }

    /// Goes on with a model load once the selected model's catalogue entry
    /// has been read (see `backend_for_model_spec`).
    pub fn backend_for_model(&mut self, purpose: Purpose, model: Option<&ModelInfo>) -> (eff: Vec<Effect>)
        ensures
            backend_for_model_spec(
                *old(self),
                *final(self),
                purpose,
                match model {
                    Some(m) => Some(*m),
                    None => None,
                },
                eff@,
            ),
    {
        match model {
            None => self.finish_backend(purpose, Err(String::from_str("No model selected"))),
            Some(model) => {
                if !model.downloaded {
                    let mut msg = String::from_str("Model '");
                    msg.append(model.name.as_str());
                    msg.append("' not downloaded. Download it in Settings.");
                    self.finish_backend(purpose, Err(msg))
                } else {
                    let dir = self.models_dir.clone();
                    let file_name = model.filename.clone();
                    let params = self.backend_params();
                    self.pending = Pending::Backend {
                        purpose,
                        cpu: false,
                        dir: dir.clone(),
                        file_name: file_name.clone(),
                    };
                    let mut eff = Vec::new();
                    eff.push(Effect::LoadBackend { dir, file_name, params, cpu_only: false });
                    eff
                }
            },
        }
    }
}

} // verus!
