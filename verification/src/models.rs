//! The catalogue of Whisper models the application offers, and which of
//! them are present in the model cache.
use vstd::prelude::*;
use vstd::string::StringExecFns;
use crate::paths::{join_path, path_exists};
use crate::text::{decimal_spec, push_decimal};

verus! {

/// How many models the catalogue lists.
pub const MODEL_COUNT: usize = 5;

/// The file name of catalogue entry `i`.
pub open spec fn catalog_filename(i: int) -> Seq<char> {
    if i == 0 {
        "ggml-tiny.bin"@
    } else if i == 1 {
        "ggml-base.bin"@
    } else if i == 2 {
        "ggml-small.bin"@
    } else if i == 3 {
        "ggml-medium.bin"@
    } else {
        "ggml-large-v3.bin"@
    }
}

/// The display name of catalogue entry `i`.
pub open spec fn catalog_name(i: int) -> Seq<char> {
    if i == 0 {
        "Tiny"@
    } else if i == 1 {
        "Base"@
    } else if i == 2 {
        "Small"@
    } else if i == 3 {
        "Medium"@
    } else {
        "Large v3"@
    }
}

/// The expected size in bytes of catalogue entry `i`.
pub open spec fn catalog_size(i: int) -> usize {
    if i == 0 {
        75_000_000
    } else if i == 1 {
        142_000_000
    } else if i == 2 {
        466_000_000
    } else if i == 3 {
        1_500_000_000
    } else {
        2_900_000_000
    }
}

/// The file name of catalogue entry `i`.
pub fn model_filename(i: usize) -> (s: &'static str)
    requires
        i < MODEL_COUNT,
    ensures
        s@ == catalog_filename(i as int),
{
    match i {
        0 => "ggml-tiny.bin",
        1 => "ggml-base.bin",
        2 => "ggml-small.bin",
        3 => "ggml-medium.bin",
        _ => "ggml-large-v3.bin",
    }
}

/// The display name of catalogue entry `i`.
pub fn model_name(i: usize) -> (s: &'static str)
    requires
        i < MODEL_COUNT,
    ensures
        s@ == catalog_name(i as int),
{
    match i {
        0 => "Tiny",
        1 => "Base",
        2 => "Small",
        3 => "Medium",
        _ => "Large v3",
    }
}

/// The expected size in bytes of catalogue entry `i`.
pub fn model_size(i: usize) -> (n: usize)
    requires
        i < MODEL_COUNT,
    ensures
        n == catalog_size(i as int),
{
    match i {
        0 => 75_000_000,
        1 => 142_000_000,
        2 => 466_000_000,
        3 => 1_500_000_000,
        _ => 2_900_000_000,
    }
}

/// A model of the catalogue and whether its file is in the cache.
#[derive(Debug, Clone)]
pub struct ModelInfo {
    pub name: String,
    pub filename: String,
    pub path: std::path::PathBuf,
    pub size_bytes: usize,
    pub downloaded: bool,
}

/// The models that are downloaded, in catalogue order.
pub open spec fn downloaded_spec(s: Seq<ModelInfo>) -> Seq<ModelInfo>
    decreases s.len(),
{
    if s.len() == 0 {
        seq![]
    } else {
        downloaded_spec(s.drop_last()) + if s.last().downloaded {
            seq![s.last()]
        } else {
            seq![]
        }
    }
}

/// Entry `i` of a model list is catalogue entry `i`.
pub open spec fn is_catalog_entry(m: ModelInfo, i: int) -> bool {
    &&& m.name@ == catalog_name(i)
    &&& m.filename@ == catalog_filename(i)
    &&& m.size_bytes == catalog_size(i)
}

/// The catalogue of models, with the cache directory they are looked up in.
pub struct ModelManager {
    cache_dir: std::path::PathBuf,
    models: Vec<ModelInfo>,
}

impl ModelManager {
    /// The models, in catalogue order.
    pub closed spec fn model_list(&self) -> Seq<ModelInfo> {
        self.models@
    }

    /// The directory the models are looked up in.
    pub closed spec fn directory(&self) -> std::path::PathBuf {
        self.cache_dir
    }

    /// The catalogue, each model placed in `cache_dir` and marked downloaded
    /// when its file there exists: `present[i]` says whether the file of
    /// catalogue entry `i` is in `cache_dir`. A model's path is `cache_dir`
    /// joined with its file name; paths are opaque here, so no clause states it.
    pub fn with_presence(cache_dir: std::path::PathBuf, present: &Vec<bool>) -> (m: ModelManager)
        requires
            present@.len() == MODEL_COUNT,
        ensures
            m.directory() == cache_dir,
            m.model_list().len() == MODEL_COUNT,
            forall|i: int| 0 <= i < MODEL_COUNT ==> is_catalog_entry(#[trigger] m.model_list()[i], i),
            forall|i: int| 0 <= i < MODEL_COUNT ==> (#[trigger] m.model_list()[i]).downloaded == present@[i],
    {
        let mut models: Vec<ModelInfo> = Vec::new();
        let mut i: usize = 0;
        while i < MODEL_COUNT
            invariant
                i <= MODEL_COUNT,
                present@.len() == MODEL_COUNT,
                models@.len() == i,
                forall|j: int| 0 <= j < i ==> is_catalog_entry(#[trigger] models@[j], j),
                forall|j: int| 0 <= j < i ==> (#[trigger] models@[j]).downloaded == present@[j],
            decreases MODEL_COUNT - i,
        {
            let filename = model_filename(i);
            let path = join_path(&cache_dir, filename);
            models.push(
                ModelInfo {
                    name: String::from_str(model_name(i)),
                    filename: String::from_str(filename),
                    path,
                    size_bytes: model_size(i),
                    downloaded: present[i],
                },
            );
            i = i + 1;
        }
        ModelManager { cache_dir, models }
    }

    /// The catalogue read from `cache_dir`: whether each model's file is
    /// there is asked of the file system, on the path `cache_dir` joined with
    /// the model's file name, and the catalogue is built from the answers (see
    /// `with_presence`). Which answers come back depends on the disk.
    pub fn new(cache_dir: std::path::PathBuf) -> (m: ModelManager)
        ensures
            m.directory() == cache_dir,
            m.model_list().len() == MODEL_COUNT,
            forall|i: int| 0 <= i < MODEL_COUNT ==> is_catalog_entry(#[trigger] m.model_list()[i], i),
    {
        let mut present: Vec<bool> = Vec::new();
        let mut i: usize = 0;
        while i < MODEL_COUNT
            invariant
                i <= MODEL_COUNT,
                present@.len() == i,
            decreases MODEL_COUNT - i,
        {
            let path = join_path(&cache_dir, model_filename(i));
            present.push(path_exists(&path));
            i = i + 1;
        }
        ModelManager::with_presence(cache_dir, &present)
    }

    /// The models, handed over.
    pub fn into_models(self) -> (v: Vec<ModelInfo>)
        ensures
            v@ == self.model_list(),
    {
        self.models
    }

    /// All models of the catalogue.
    pub fn available_models(&self) -> (r: &[ModelInfo])
        ensures
            r@ == self.model_list(),
    {
        self.models.as_slice()
    }

    /// The models whose file is in the cache, in catalogue order.
    pub fn downloaded_models(&self) -> (r: Vec<&ModelInfo>)
        ensures
            r@.map_values(|m: &ModelInfo| *m) == downloaded_spec(self.model_list()),
    {
        let mut out: Vec<&ModelInfo> = Vec::new();
        let mut i: usize = 0;
        while i < self.models.len()
            invariant
                i <= self.models@.len(),
                out@.map_values(|m: &ModelInfo| *m) == downloaded_spec(self.models@.take(i as int)),
            decreases self.models@.len() - i,
        {
            assert(self.models@.take(i + 1).drop_last() =~= self.models@.take(i as int));
            let ghost before = out@;
            let m = &self.models[i];
            if m.downloaded {
                out.push(m);
                assert(out@.map_values(|m: &ModelInfo| *m) =~= before.map_values(
                    |m: &ModelInfo| *m,
                ).push(*m));
            }
            i = i + 1;
        }
        assert(self.models@.take(self.models@.len() as int) =~= self.models@);
        out
    }

    /// The languages to offer, from the code and full name of each language id
    /// (see `language_options_spec`).
    pub fn language_options(entries: Vec<(Option<String>, Option<String>)>) -> (r: Vec<(String, String)>)
        ensures
            r@.map_values(|p: (String, String)| (p.0@, p.1@)) == language_options_spec(
                entries@.map_values(|e: (Option<String>, Option<String>)| language_entry_view(e)),
            ),
    {
        let ghost ev = entries@.map_values(
            |e: (Option<String>, Option<String>)| language_entry_view(e),
        );
        let mut out: Vec<(String, String)> = Vec::new();
        let n = entries.len();
        for e in it: entries
            invariant
                n == entries@.len(),
                ev == entries@.map_values(|e: (Option<String>, Option<String>)| language_entry_view(e)),
                it.seq() == entries@,
                out@.map_values(|p: (String, String)| (p.0@, p.1@)) == language_options_spec(
                    ev.take(it.index()),
                ),
        {
            let ghost before = out@;
            assert(ev.take(it.index() + 1).drop_last() =~= ev.take(it.index()));
            assert(ev[it.index()] == language_entry_view(e));
            match e {
                (Some(code), Some(full)) => {
                    let ghost pair = (code@, full@);
                    out.push((code, full));
                    assert(out@.map_values(|p: (String, String)| (p.0@, p.1@)) =~= before.map_values(
                        |p: (String, String)| (p.0@, p.1@),
                    ).push(pair));
                },
                _ => {},
            }
        }
        assert(ev.take(n as int) =~= ev);
        out
    }

    /// Where model `idx` is downloaded from, the name of the partial file the
    /// download writes, and the size to expect when the server gives none; an
    /// index outside the catalogue is refused with its message.
    pub fn download_target(&self, idx: usize) -> (r: Result<(String, String, usize), String>)
        ensures
            idx < self.model_list().len() ==> (r matches Ok((url, tmp, size)) && url@ == download_url_spec(
                self.model_list()[idx as int].filename@,
            ) && tmp@ == temp_filename_spec(self.model_list()[idx as int].filename@) && size
                == self.model_list()[idx as int].size_bytes),
            idx >= self.model_list().len() ==> (r matches Err(e) && e@ == unknown_model_text(idx)),
    {
        match self.get_model_by_index(idx) {
            Some(m) => Ok((download_url(m.filename.as_str()), temp_filename(m.filename.as_str()), m.size_bytes)),
            None => Err(unknown_model_message(idx)),
        }
    }

    /// The model at position `idx` of the catalogue, if there is one.
    pub fn get_model_by_index(&self, idx: usize) -> (r: Option<&ModelInfo>)
        ensures
            r == if idx < self.model_list().len() {
                Some(&self.model_list()[idx as int])
            } else {
                None
            },
    {
        if idx < self.models.len() {
            Some(&self.models[idx])
        } else {
            None
        }
    }
}

/// The error for a model index outside the catalogue.
pub open spec fn unknown_model_text(idx: usize) -> Seq<char> {
    "Unknown model index: "@ + decimal_spec(idx as nat)
}

/// The error for a model index outside the catalogue.
pub fn unknown_model_message(idx: usize) -> (s: String)
    ensures
        s@ == unknown_model_text(idx),
{
    let mut s = String::from_str("Unknown model index: ");
    push_decimal(&mut s, idx as u64);
    s
}

/// The address a model file is downloaded from.
pub open spec fn download_url_spec(filename: Seq<char>) -> Seq<char> {
    "https://huggingface.co/ggerganov/whisper.cpp/resolve/main/"@ + filename + "?download=true"@
}

/// The address a model file is downloaded from.
pub fn download_url(filename: &str) -> (s: String)
    ensures
        s@ == download_url_spec(filename@),
{
    let mut s = String::from_str("https://huggingface.co/ggerganov/whisper.cpp/resolve/main/");
    s.append(filename);
    s.append("?download=true");
    s
}

/// The name of the partial file a download writes before it is complete.
pub open spec fn temp_filename_spec(filename: Seq<char>) -> Seq<char> {
    seq!['.'] + filename + seq!['.', 't', 'm', 'p']
}

/// The name of the partial file a download writes before it is complete.
pub fn temp_filename(filename: &str) -> (s: String)
    ensures
        s@ == temp_filename_spec(filename@),
{
    let mut s = String::new();
    s.push('.');
    s.append(filename);
    s.push('.');
    s.push('t');
    s.push('m');
    s.push('p');
    s
}

/// The languages to offer, each as its code and full name: the entries for
/// which both are known, in order.
pub open spec fn language_options_spec(entries: Seq<(Option<Seq<char>>, Option<Seq<char>>)>) -> Seq<
    (Seq<char>, Seq<char>),
>
    decreases entries.len(),
{
    if entries.len() == 0 {
        seq![]
    } else {
        language_options_spec(entries.drop_last()) + match entries.last() {
            (Some(code), Some(full)) => seq![(code, full)],
            _ => seq![],
        }
    }
}

/// The view of one language entry.
pub open spec fn language_entry_view(e: (Option<String>, Option<String>)) -> (
    Option<Seq<char>>,
    Option<Seq<char>>,
) {
    (
        match e.0 {
            Some(c) => Some(c@),
            None => None,
        },
        match e.1 {
            Some(f) => Some(f@),
            None => None,
        },
    )
}

} // verus!
