//! What the screens show, decided from the application state: the record
//! controls, the document list, the model list, the language list and the
//! status lines. Drawing them is left to the user interface.
use vstd::prelude::*;
use crate::app_state::Message;
use crate::backend::ModelStatus;
use crate::document::Document;
use crate::models::ModelInfo;
use crate::text::{chars_of, contains_chars, contains_seq};
use crate::workspace::{sorted_keys, Workspace};
use vstd::string::StringExecFns;

verus! {

/// The colour of the recording indicator.
#[derive(Debug, Clone, Copy, PartialEq, Eq, Structural)]
pub enum Indicator {
    /// A recording runs and is not paused.
    Recording,
    /// No model is loaded.
    NoModel,
    /// A model is loaded and nothing is being recorded.
    Idle,
}

/// What the record controls show.
pub struct ControlsView {
    /// The text of the record button.
    pub button_label: String,
    /// What the record button sends.
    pub button_message: Message,
    /// A recording runs and is not paused.
    pub recording_active: bool,
    pub indicator: Indicator,
    /// The word beside the indicator.
    pub status_label: String,
    /// The accelerator in brackets, or nothing.
    pub accelerator_label: String,
}

/// The record controls for the given recording state: without a model the
/// button reads `Record` and sends a stop; a running recording offers
/// `Stop`, a paused one `Resume`, and otherwise `Record` starts one.
pub fn controls_view(
    is_recording: bool,
    is_paused: bool,
    model_loaded: bool,
    accelerator: &Option<String>,
) -> (v: ControlsView)
    ensures
        v.recording_active == (is_recording && !is_paused),
        v.button_label@ == if !model_loaded {
            "Record"@
        } else if is_recording && !is_paused {
            "Stop"@
        } else if is_paused {
            "Resume"@
        } else {
            "Record"@
        },
        v.button_message == if !model_loaded || (is_recording && !is_paused) {
            Message::StopRecord
        } else if is_paused {
            Message::ResumeRecord
        } else {
            Message::StartRecord
        },
        v.indicator == if is_recording && !is_paused {
            Indicator::Recording
        } else if !model_loaded {
            Indicator::NoModel
        } else {
            Indicator::Idle
        },
        v.status_label@ == if !model_loaded {
            "No model loaded"@
        } else if is_recording && !is_paused {
            "REC"@
        } else {
            "Ready"@
        },
        v.accelerator_label@ == match accelerator {
            Some(a) => seq!['['] + a@ + seq![']'],
            None => Seq::<char>::empty(),
        },
{
    let active = is_recording && !is_paused;
    let button_label = if !model_loaded {
        String::from_str("Record")
    } else if active {
        String::from_str("Stop")
    } else if is_paused {
        String::from_str("Resume")
    } else {
        String::from_str("Record")
    };
    let button_message = if !model_loaded || active {
        Message::StopRecord
    } else if is_paused {
        Message::ResumeRecord
    } else {
        Message::StartRecord
    };
    let indicator = if active {
        Indicator::Recording
    } else if !model_loaded {
        Indicator::NoModel
    } else {
        Indicator::Idle
    };
    let status_label = if !model_loaded {
        String::from_str("No model loaded")
    } else if active {
        String::from_str("REC")
    } else {
        String::from_str("Ready")
    };
    let mut accelerator_label = String::new();
    match accelerator {
        Some(a) => {
            accelerator_label.push('[');
            accelerator_label.append(a.as_str());
            accelerator_label.push(']');
        },
        None => {},
    }
    ControlsView {
        button_label,
        button_message,
        recording_active: active,
        indicator,
        status_label,
        accelerator_label,
    }
}

/// How a row of the document list is shaded.
#[derive(Debug, Clone, Copy, PartialEq, Eq, Structural)]
pub enum RowShade {
    Active,
    Hovered,
    Plain,
}

/// One row of the document list.
pub struct SidebarRow {
    pub id: u128,
    pub title: String,
    /// The row is the active document.
    pub active: bool,
    /// The pointer is over the row.
    pub hovered: bool,
    /// The row shows the rename field in place of the title.
    pub renaming: bool,
    pub shade: RowShade,
    /// The row is outlined: hovered and not active.
    pub outlined: bool,
}

/// The shade of a row: the active row's, else the hovered row's, else none.
pub open spec fn shade_spec(active: bool, hovered: bool) -> RowShade {
    if active {
        RowShade::Active
    } else if hovered {
        RowShade::Hovered
    } else {
        RowShade::Plain
    }
}

/// The document list: one row per stored document, in increasing order of
/// identifier, each with its title and with the marks that the active,
/// renamed and hovered identifiers give it.
pub fn sidebar_rows(
    w: &Workspace,
    active_id: Option<u128>,
    rename_doc: Option<u128>,
    hovered_doc: Option<u128>,
) -> (rows: Vec<SidebarRow>)
    ensures
        forall|i: int, j: int| 0 <= i < j < rows@.len() ==> rows@[i].id < rows@[j].id,
        forall|k: u128|
            w.documents@.contains_key(k) <==> exists|i: int| 0 <= i < rows@.len() && #[trigger] rows@[i].id == k,
        forall|i: int|
            0 <= i < rows@.len() ==> {
                let r = #[trigger] rows@[i];
                &&& w.documents@.contains_key(r.id)
                &&& r.title@ == w.documents@[r.id].title@
                &&& r.active == (active_id == Some(r.id))
                &&& r.hovered == (hovered_doc == Some(r.id))
                &&& r.renaming == (rename_doc == Some(r.id))
                &&& r.shade == shade_spec(r.active, r.hovered)
                &&& r.outlined == (r.hovered && !r.active)
            },
{
    let ks = sorted_keys(&w.documents);
    let mut rows: Vec<SidebarRow> = Vec::new();
    let mut i: usize = 0;
    while i < ks.len()
        invariant
            i <= ks@.len(),
            ks@.to_set() == w.documents@.dom(),
            forall|a: int, b: int| 0 <= a < b < ks@.len() ==> ks@[a] < ks@[b],
            rows@.len() == i,
            forall|a: int| 0 <= a < i ==> (#[trigger] rows@[a]).id == ks@[a],
            forall|a: int|
                0 <= a < i ==> {
                    let r = #[trigger] rows@[a];
                    &&& w.documents@.contains_key(r.id)
                    &&& r.title@ == w.documents@[r.id].title@
                    &&& r.active == (active_id == Some(r.id))
                    &&& r.hovered == (hovered_doc == Some(r.id))
                    &&& r.renaming == (rename_doc == Some(r.id))
                    &&& r.shade == shade_spec(r.active, r.hovered)
                    &&& r.outlined == (r.hovered && !r.active)
                },
        decreases ks@.len() - i,
    {
        let id = ks[i];
        assert(ks@.to_set().contains(id));
        let title = match w.documents.get(&id) {
            Some(d) => d.title.clone(),
            None => String::new(),
        };
        let active = active_id == Some(id);
        let hovered = hovered_doc == Some(id);
        let renaming = rename_doc == Some(id);
        let shade = if active {
            RowShade::Active
        } else if hovered {
            RowShade::Hovered
        } else {
            RowShade::Plain
        };
        rows.push(SidebarRow { id, title, active, hovered, renaming, shade, outlined: hovered && !active });
        i = i + 1;
    }
    proof {
        assert forall|k: u128| w.documents@.contains_key(k) implies exists|a: int|
            0 <= a < rows@.len() && #[trigger] rows@[a].id == k by {
            assert(ks@.to_set().contains(k));
            let a = choose|a: int| 0 <= a < ks@.len() && ks@[a] == k;
            assert(rows@[a].id == k);
        }
    }
    rows
}

/// The title the transcript pane shows: the active document's, or `Untitled`.
pub fn editor_title(doc: Option<&Document>) -> (t: String)
    ensures
        t@ == match doc {
            Some(d) => d.title@,
            None => "Untitled"@,
        },
{
    match doc {
        Some(d) => d.title.clone(),
        None => String::from_str("Untitled"),
    }
}

/// What a row of the model list offers on its right.
#[derive(Debug, Clone, Copy, PartialEq, Eq, Structural)]
pub enum ModelRowAction {
    /// A button that loads the selected, downloaded model.
    Load,
    /// A check mark: the model is downloaded (and loaded, when selected).
    Check,
    /// The download's progress bar.
    Progress,
    /// A button that downloads the model.
    Download,
}

/// The action a model row offers, from whether the model is downloaded,
/// selected or being downloaded, and whether a model is loaded.
pub open spec fn row_action_spec(downloaded: bool, selected: bool, backend_ready: bool, downloading: bool) -> ModelRowAction {
    if downloaded && selected && !backend_ready && !downloading {
        ModelRowAction::Load
    } else if downloaded && selected && backend_ready && !downloading {
        ModelRowAction::Check
    } else if downloaded && !selected && !downloading {
        ModelRowAction::Check
    } else if downloading {
        ModelRowAction::Progress
    } else {
        ModelRowAction::Download
    }
}

/// What a model row offers follows the model's state: `Load` only for the
/// selected, downloaded model while no model is loaded and it is not being
/// downloaded; a check mark only for a downloaded model not being
/// downloaded; the progress bar exactly while the model downloads; and a
/// model neither downloaded nor downloading offers `Download`.
pub proof fn model_row_action_law(downloaded: bool, selected: bool, backend_ready: bool, downloading: bool)
    ensures
        row_action_spec(downloaded, selected, backend_ready, downloading) is Load ==> downloaded && selected
            && !backend_ready && !downloading,
        row_action_spec(downloaded, selected, backend_ready, downloading) is Check ==> downloaded
            && !downloading,
        downloading <==> row_action_spec(downloaded, selected, backend_ready, downloading) is Progress,
        !downloaded && !downloading ==> row_action_spec(downloaded, selected, backend_ready, downloading) is Download,
{
}

/// One row of the model list.
pub struct ModelRow {
    /// The row is the selected model.
    pub selected: bool,
    pub action: ModelRowAction,
    /// The download percentage (`f32` bits) while this model downloads.
    pub progress: Option<u32>,
}

/// The model list: one row per model, in order.
pub fn model_rows(
    models: &Vec<ModelInfo>,
    selected_idx: usize,
    downloading_model: Option<usize>,
    status: &ModelStatus,
    backend_ready: bool,
) -> (rows: Vec<ModelRow>)
    ensures
        rows@.len() == models@.len(),
        forall|i: int|
            0 <= i < rows@.len() ==> {
                let r = #[trigger] rows@[i];
                let downloading = downloading_model == Some(i as usize);
                &&& r.selected == (i == selected_idx)
                &&& r.action == row_action_spec(models@[i].downloaded, i == selected_idx, backend_ready, downloading)
                &&& r.progress == if downloading {
                    match status {
                        ModelStatus::Downloading(p) => Some(*p),
                        _ => None,
                    }
                } else {
                    None
                }
            },
        forall|i: int|
            0 <= i < rows@.len() ==> {
                let a = (#[trigger] rows@[i]).action;
                let downloading = downloading_model == Some(i as usize);
                &&& (a is Load ==> models@[i].downloaded && i == selected_idx && !backend_ready && !downloading)
                &&& (a is Check ==> models@[i].downloaded && !downloading)
                &&& (downloading ==> a is Progress)
                &&& (!models@[i].downloaded && !downloading ==> a is Download)
            },
{
    let mut rows: Vec<ModelRow> = Vec::new();
    let mut i: usize = 0;
    while i < models.len()
        invariant
            i <= models@.len(),
            rows@.len() == i,
            forall|a: int|
                0 <= a < i ==> {
                    let r = #[trigger] rows@[a];
                    let downloading = downloading_model == Some(a as usize);
                    &&& r.selected == (a == selected_idx)
                    &&& r.action == row_action_spec(models@[a].downloaded, a == selected_idx, backend_ready, downloading)
                    &&& r.progress == if downloading {
                        match status {
                            ModelStatus::Downloading(p) => Some(*p),
                            _ => None,
                        }
                    } else {
                        None
                    }
                },
        decreases models@.len() - i,
    {
        let selected = i == selected_idx;
        let downloaded = models[i].downloaded;
        let downloading = downloading_model == Some(i);
        let action = if downloaded && selected && !backend_ready && !downloading {
            ModelRowAction::Load
        } else if downloaded && selected && backend_ready && !downloading {
            ModelRowAction::Check
        } else if downloaded && !selected && !downloading {
            ModelRowAction::Check
        } else if downloading {
            ModelRowAction::Progress
        } else {
            ModelRowAction::Download
        };
        let progress = if downloading {
            match status {
                ModelStatus::Downloading(p) => Some(*p),
                _ => None,
            }
        } else {
            None
        };
        rows.push(ModelRow { selected, action, progress });
        i = i + 1;
    }
    rows
}

/// The status line under the model list, when it is a fixed text: a model
/// being downloaded shows its percentage instead, which the caller formats.
pub fn status_text(status: &ModelStatus, backend_ready: bool) -> (t: Option<String>)
    ensures
        match status {
            ModelStatus::Downloading(_) => t is None,
            ModelStatus::Ready => t matches Some(s) && s@ == if backend_ready {
                "Model loaded and ready"@
            } else {
                "Model downloaded — click Load Model to use"@
            },
            ModelStatus::NotDownloaded => t matches Some(s) && s@
                == "Not downloaded — download a model to get started"@,
            ModelStatus::Error(e) => t matches Some(s) && s@ == "Error: "@ + e@,
        },
{
    match status {
        ModelStatus::Downloading(_) => None,
        ModelStatus::Ready => if backend_ready {
            Some(String::from_str("Model loaded and ready"))
        } else {
            Some(String::from_str("Model downloaded — click Load Model to use"))
        },
        ModelStatus::NotDownloaded => Some(String::from_str("Not downloaded — download a model to get started")),
        ModelStatus::Error(e) => {
            let mut s = String::from_str("Error: ");
            s.append(e.as_str());
            Some(s)
        },
    }
}

/// `str::to_lowercase` applied to a text: the text's Unicode lowercase
/// mapping (a final capital sigma depends on what precedes it), which
/// depends on the text alone.
pub uninterp spec fn lowercase(s: Seq<char>) -> Seq<char>;

/// `str::to_lowercase`: the text's Unicode lowercase mapping (named `lowercase`).
#[verifier::external_body]
fn to_lowercase(s: &str) -> (r: String)
    ensures
        r@ == lowercase(s@),
{
    s.to_lowercase()
}

/// A language is listed for the search text: every language for an empty
/// search, else one whose code or name, lowercased, holds the lowercased search.
pub open spec fn language_listed(code: Seq<char>, name: Seq<char>, search: Seq<char>) -> bool {
    search.len() == 0 || contains_seq(lowercase(code), lowercase(search)) || contains_seq(
        lowercase(name),
        lowercase(search),
    )
}

/// The language list for a search text.
pub struct LanguageList {
    /// The positions of the listed languages among the options, in order.
    pub matches: Vec<usize>,
    /// The search is not empty and nothing matches it.
    pub none_found: bool,
}

/// The languages listed for the search text, in the order of the options.
pub fn language_list(options: &Vec<(String, String)>, search: &str) -> (l: LanguageList)
    ensures
        forall|a: int, b: int| 0 <= a < b < l.matches@.len() ==> l.matches@[a] < l.matches@[b],
        forall|a: int| 0 <= a < l.matches@.len() ==> #[trigger] l.matches@[a] < options@.len(),
        forall|i: int|
            0 <= i < options@.len() ==> (language_listed(
                #[trigger] options@[i].0@,
                options@[i].1@,
                search@,
            ) <==> l.matches@.contains(i as usize)),
        l.none_found == (l.matches@.len() == 0 && search@.len() > 0),
{
    let lowered = to_lowercase(search);
    let pat = chars_of(lowered.as_str());
    let empty = search.is_empty();
    let mut matches: Vec<usize> = Vec::new();
    let mut i: usize = 0;
    while i < options.len()
        invariant
            i <= options@.len(),
            pat@ == lowercase(search@),
            empty == (search@.len() == 0),
            forall|a: int, b: int| 0 <= a < b < matches@.len() ==> matches@[a] < matches@[b],
            forall|a: int| 0 <= a < matches@.len() ==> #[trigger] matches@[a] < i,
            forall|k: int|
                0 <= k < i ==> (language_listed(#[trigger] options@[k].0@, options@[k].1@, search@)
                    <==> matches@.contains(k as usize)),
        decreases options@.len() - i,
    {
        let listed = if empty {
            true
        } else {
            let code = chars_of(to_lowercase(options[i].0.as_str()).as_str());
            if contains_chars(&code, &pat) {
                true
            } else {
                let name = chars_of(to_lowercase(options[i].1.as_str()).as_str());
                contains_chars(&name, &pat)
            }
        };
        let ghost before = matches@;
        if listed {
            matches.push(i);
        }
        proof {
            assert forall|k: int|
                0 <= k < i + 1 implies (language_listed(#[trigger] options@[k].0@, options@[k].1@, search@)
                <==> matches@.contains(k as usize)) by {
                if k < i {
                    if before.contains(k as usize) {
                        let q = choose|q: int| 0 <= q < before.len() && before[q] == k as usize;
                        assert(matches@[q] == k as usize);
                    }
                    if matches@.contains(k as usize) {
                        let q = choose|q: int| 0 <= q < matches@.len() && matches@[q] == k as usize;
                        if q == before.len() {
                            assert(matches@[q] == i);
                        } else {
                            assert(before[q] == k as usize);
                        }
                    }
                } else {
                    if listed {
                        assert(matches@[before.len() as int] == i);
                    } else {
                        if matches@.contains(k as usize) {
                            let q = choose|q: int| 0 <= q < matches@.len() && matches@[q] == k as usize;
                            assert(before[q] < i);
                        }
                    }
                }
            }
        }
        i = i + 1;
    }
    let none_found = matches.len() == 0 && !empty;
    LanguageList { matches, none_found }
}

} // verus!
