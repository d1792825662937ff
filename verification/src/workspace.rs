//! The workspace: the documents the application holds, keyed by identifier,
//! and which of them is active.
use vstd::prelude::*;
use std::collections::BTreeMap;
use crate::clock::{default_instant, utc_now_seconds};
use crate::document::{
    filename_spec, lines_view, transcript_spec, Document, LineView, TranscriptLine,
    MAX_TRANSCRIPT_LINES, last_lines,
};
use crate::ids::parse_uuid;
use crate::paths::empty_path;
use crate::text::{
    chars_of, decimal_spec, find_char, find_in, push_decimal, string_of, trim_bounds, trim_spec,
};

verus! {

/// `k` is the least key of `m`.
pub open spec fn is_least_key<V>(m: Map<u128, V>, k: u128) -> bool {
    &&& m.dom().contains(k)
    &&& forall|j: u128| m.dom().contains(j) ==> k <= j
}

/// The least key of `m`, if it has any: the one its ordered iteration yields first.
pub open spec fn first_key<V>(m: Map<u128, V>) -> Option<u128> {
    if exists|k: u128| is_least_key(m, k) {
        Some(choose|k: u128| is_least_key(m, k))
    } else {
        None
    }
}

/// A least key is the first key.
proof fn lemma_first_key_is(m: Map<u128, Document>, k: u128)
    requires
        is_least_key(m, k),
    ensures
        first_key(m) == Some(k),
{
    let c = choose|c: u128| is_least_key(m, c);
    assert(c <= k && k <= c);
}

/// In a sequence of keys in increasing order, an earlier key is smaller.
proof fn lemma_increasing_keys(s: Seq<&u128>, i: int, j: int)
    requires
        vstd::std_specs::btree::increasing_seq(s),
        0 <= i < j < s.len(),
    ensures
        *s[i] < *s[j],
{
    assert(vstd::laws_cmp::obeys_cmp::<u128>());
    assert(vstd::laws_cmp::obeys_cmp::<&u128>());
    assert(vstd::std_specs::cmp::OrdSpec::cmp_spec(&s[i], &s[j]) is Less);
}

/// The first key of a map's ordered key sequence is its least key.
proof fn lemma_first_of_keys(m: Map<u128, Document>, s: Seq<&u128>)
    requires
        vstd::std_specs::btree::increasing_seq(s),
        s.unref().to_set() == m.dom(),
        s.len() > 0,
    ensures
        is_least_key(m, *s[0]),
{
    let ks = s.unref();
    assert(ks.to_set().contains(ks[0]));
    assert forall|j: u128| m.dom().contains(j) implies *s[0] <= j by {
        assert(ks.to_set().contains(j));
        let i = choose|i: int| 0 <= i < ks.len() && ks[i] == j;
        if i > 0 {
            lemma_increasing_keys(s, 0, i);
        }
    }
}

/// The keys of the map in increasing order.
pub(crate) fn sorted_keys(m: &BTreeMap<u128, Document>) -> (ks: Vec<u128>)
    ensures
        ks@.to_set() == m@.dom(),
        forall|i: int, j: int| 0 <= i < j < ks@.len() ==> ks@[i] < ks@[j],
{
    let mut ks: Vec<u128> = Vec::new();
    for k in it: m.keys()
        invariant
            ks@ == it.seq().unref().take(it.index()),
            it.seq().unref().to_set() == m@.dom(),
            vstd::std_specs::btree::increasing_seq(it.seq()),
            forall|i: int, j: int| 0 <= i < j < ks@.len() ==> ks@[i] < ks@[j],
        ensures
            ks@ =~= it.seq().unref() && ks@.to_set() == m@.dom(),
            forall|i: int, j: int| 0 <= i < j < ks@.len() ==> ks@[i] < ks@[j],
    {
        proof {
            assert forall|i: int| 0 <= i < it.index() implies ks@[i] < *k by {
                assert(ks@[i] == *it.seq()[i]);
                lemma_increasing_keys(it.seq(), i, it.index());
            }
        }
        ks.push(*k);
    }
    ks
}

/// An identifier the map does not hold: the least one.
fn unused_id(m: &BTreeMap<u128, Document>) -> (id: u128)
    ensures
        !m@.contains_key(id),
{
    let ks = sorted_keys(m);
    let mut i: usize = 0;
    while i < ks.len() && ks[i] == i as u128
        invariant
            i <= ks@.len(),
            forall|a: int, b: int| 0 <= a < b < ks@.len() ==> ks@[a] < ks@[b],
            forall|j: int| 0 <= j < i ==> ks@[j] == j,
        decreases ks@.len() - i,
    {
        i = i + 1;
    }
    proof {
        assert forall|j: int| 0 <= j < ks@.len() implies ks@[j] != i by {
            if j >= i {
                if i > 0 {
                    assert(ks@[i - 1] == i - 1);
                }
                assert(ks@[i as int] > i);
            }
        }
        assert(!ks@.contains(i as u128));
        assert(!ks@.to_set().contains(i as u128));
    }
    i as u128
}

/// The least key of the map.
fn first_key_of(m: &BTreeMap<u128, Document>) -> (r: Option<u128>)
    ensures
        r == first_key(m@),
{
    let mut first: Option<u128> = None;
    for k in it: m.keys()
        invariant
            it.index() == 0 ==> first is None,
            it.index() > 0 ==> first == Some(*it.seq()[0]),
            it.index() > 0 ==> is_least_key(m@, *it.seq()[0]),
        ensures
            first is None ==> m@.dom() =~= Set::<u128>::empty(),
            first matches Some(k) ==> is_least_key(m@, k),
    {
        if first.is_none() {
            first = Some(*k);
        }
        proof {
            assert(it.seq().unref().to_set() == m@.dom());
            lemma_first_of_keys(m@, it.seq());
        }
    }
    proof {
        if let Some(k) = first {
            lemma_first_key_is(m@, k);
        }
    }
    first
}


/// How long a document may go unsaved while a transcription runs, in milliseconds.
pub const SAVE_INTERVAL_MILLIS: u128 = 30_000;

/// The stem of a file name whose extension is `md` (`Path::extension` and
/// `Path::file_stem`): the name must end in `.md` with something before it.
pub open spec fn md_stem(name: Seq<char>) -> Option<Seq<char>> {
    if name.len() >= 4 && name.skip(name.len() - 3) == seq!['.', 'm', 'd'] {
        Some(name.take(name.len() - 3))
    } else {
        None
    }
}

/// The part of a stem before its first dash (all of it when there is none).
pub open spec fn id_part(stem: Seq<char>) -> Seq<char> {
    match find_char(stem, '-') {
        Some(i) => stem.take(i),
        None => stem,
    }
}

/// The title used when a file name carries none.
pub open spec fn untitled() -> Seq<char> {
    seq!['U', 'n', 't', 'i', 't', 'l', 'e', 'd']
}

/// Dashes replaced by spaces.
pub open spec fn dashes_to_spaces(s: Seq<char>) -> Seq<char> {
    s.map_values(|c: char| if c == '-' { ' ' } else { c })
}

/// The title that a stored file's stem gives: what follows its first dash,
/// with dashes read as spaces, trimmed; `Untitled` when it has no dash.
pub open spec fn title_from_stem(stem: Seq<char>) -> Seq<char> {
    trim_spec(
        match find_char(stem, '-') {
            Some(i) => dashes_to_spaces(stem.skip(i + 1)),
            None => untitled(),
        },
    )
}

/// The identifier that a stored file's name gives, if it is a document file.
pub open spec fn loaded_id(name: Seq<char>) -> Option<u128> {
    match md_stem(name) {
        Some(stem) => crate::ids::parsed_uuid(id_part(stem)),
        None => None,
    }
}

/// For each identifier that the listed file names give, the index of the
/// last file that gives it (a later file replaces an earlier one).
pub open spec fn last_entry_index(names: Seq<Seq<char>>) -> Map<u128, int>
    decreases names.len(),
{
    if names.len() == 0 {
        Map::empty()
    } else {
        let prev = last_entry_index(names.drop_last());
        match loaded_id(names.last()) {
            Some(id) => prev.insert(id, names.len() - 1),
            None => prev,
        }
    }
}

/// A document whose identifier, title, content and transcript are the given ones.
pub open spec fn document_holds(
    d: Document,
    id: u128,
    title: Seq<char>,
    content: Seq<char>,
) -> bool {
    &&& d.id == id
    &&& d.title@ == title
    &&& d.content@ == content
    &&& lines_view(d.transcript_lines@) == transcript_spec(content)
}

/// The title of the `n`-th new document: `Document n`.
pub open spec fn new_document_title(n: nat) -> Seq<char> {
    seq!['D', 'o', 'c', 'u', 'm', 'e', 'n', 't', ' '] + decimal_spec(n)
}

/// The file a document is saved to: its name and its content.
pub open spec fn save_file_spec(d: Document) -> (Seq<char>, Seq<char>) {
    (filename_spec(d.id, d.title@), d.content@)
}

/// Two documents differ at most in their title and modification time.
pub open spec fn same_but_title_and_time(a: Document, b: Document) -> bool {
    &&& a.id == b.id
    &&& a.content == b.content
    &&& a.transcript_lines == b.transcript_lines
    &&& a.created_at == b.created_at
    &&& a.last_save_at == b.last_save_at
}

/// `b` is `a` with a new empty document under an identifier `id` that `a`
/// did not hold, titled `Document <n>` where `n` is one more than the
/// number of documents `a` held, made active.
pub open spec fn new_document_added(a: Workspace, b: Workspace, id: u128) -> bool {
    &&& !a.documents@.contains_key(id)
    &&& b.documents@.dom() == a.documents@.dom().insert(id)
    &&& forall|k: u128| k != id && #[trigger] a.documents@.contains_key(k)
        ==> b.documents@[k] == a.documents@[k]
    &&& b.documents@[id].id == id
    &&& b.documents@[id].title@ == new_document_title(a.documents@.len() + 1)
    &&& b.documents@[id].content@ == Seq::<char>::empty()
    &&& b.documents@[id].transcript_lines@.len() == 0
    &&& b.active_id == Some(id)
    &&& b.base_dir == a.base_dir
    &&& a.wf() ==> b.wf()
}

/// A new document keeps every other: afterwards the workspace holds one
/// document more than before, each document it held is still held and
/// unchanged, and the new document is empty and active.
pub proof fn new_document_keeps_others(a: Workspace, b: Workspace, id: u128)
    requires
        new_document_added(a, b, id),
    ensures
        b.documents@.len() == a.documents@.len() + 1,
        forall|k: u128| #[trigger] a.documents@.contains_key(k) ==> b.documents@.contains_key(k)
            && b.documents@[k] == a.documents@[k],
        b.documents@[id].content@.len() == 0,
        b.active_id == Some(id),
{
    vstd::std_specs::btree::axiom_btree_map_view_finite_dom(a.documents);
}

/// `b` is `a` without document `id` (`r` says whether `a` held it); when
/// it was the active one, the least remaining identifier is active.
pub open spec fn document_deleted(a: Workspace, b: Workspace, id: u128, r: bool) -> bool {
    &&& r == a.documents@.contains_key(id)
    &&& b.documents@ == a.documents@.remove(id)
    &&& b.active_id == if r && a.active_id == Some(id) {
        first_key(b.documents@)
    } else {
        a.active_id
    }
    &&& b.base_dir == a.base_dir
    &&& a.wf() ==> b.wf()
}

/// `b` is `a` with document `id` retitled `title` and its modification time
/// stamped (`r` says whether `a` held it).
pub open spec fn document_renamed(a: Workspace, b: Workspace, id: u128, title: Seq<char>, r: bool) -> bool {
    &&& r == a.documents@.contains_key(id)
    &&& b.documents@.dom() == a.documents@.dom()
    &&& forall|k: u128| k != id && #[trigger] a.documents@.contains_key(k)
        ==> b.documents@[k] == a.documents@[k]
    &&& r ==> b.documents@[id].title@ == title
    &&& r ==> same_but_title_and_time(a.documents@[id], b.documents@[id])
    &&& b.active_id == a.active_id
    &&& b.base_dir == a.base_dir
    &&& a.wf() ==> b.wf()
}

/// `b` is `a` after the line `<timestamp><text>` was appended to its
/// active document (if it holds one, which `r` then names): the content
/// gains the line and a newline, the transcript gains the line
/// `(timestamp, text)` and keeps its last 2000 lines, and only the
/// modification time changes besides.
pub open spec fn appended_to_active(
    a: Workspace,
    b: Workspace,
    timestamp: Seq<char>,
    text: Seq<char>,
    r: Option<u128>,
) -> bool {
    &&& r == match a.active_id {
        Some(k) => if a.documents@.contains_key(k) {
            Some(k)
        } else {
            None
        },
        None => None,
    }
    &&& b.documents@.dom() == a.documents@.dom()
    &&& forall|k: u128| r != Some(k) && #[trigger] a.documents@.contains_key(k)
        ==> b.documents@[k] == a.documents@[k]
    &&& r matches Some(k) ==> {
        let (d0, d1) = (a.documents@[k], b.documents@[k]);
        &&& d1.id == d0.id && d1.title == d0.title && d1.created_at == d0.created_at
        &&& d1.last_save_at == d0.last_save_at
        &&& d1.content@ == d0.content@ + timestamp + text + seq!['\n']
        &&& lines_view(d1.transcript_lines@) == last_lines(
            lines_view(d0.transcript_lines@).push(LineView { timestamp, text }),
            MAX_TRANSCRIPT_LINES as nat,
        )
    }
    &&& b.active_id == a.active_id
    &&& b.base_dir == a.base_dir
    &&& a.wf() ==> b.wf()
}

/// The documents of the application and which one is active.
pub struct Workspace {
    pub documents: BTreeMap<u128, Document>,
    pub active_id: Option<u128>,
    pub base_dir: std::path::PathBuf,
}

impl Workspace {
    /// Each document is stored under its own identifier, and the active
    /// identifier, when there is one, names a stored document.
    pub open spec fn wf(&self) -> bool {
        &&& forall|k: u128| #[trigger] self.documents@.contains_key(k) ==> self.documents@[k].id == k
        &&& self.active_id matches Some(a) ==> self.documents@.contains_key(a)
    }

    /// An empty workspace.
    pub fn default() -> (w: Workspace)
        ensures
            w.documents@ == Map::<u128, Document>::empty(),
            w.active_id is None,
            w.wf(),
    {
        Workspace { documents: BTreeMap::new(), active_id: None, base_dir: empty_path() }
    }

    /// The workspace stored in `base_dir`, built from the files found there,
    /// each given by its file name and content: a file named
    /// `<id>[-<title>].md` whose `<id>` parses as an identifier becomes a
    /// document (a later file with the same identifier replaces an earlier
    /// one); any other file is passed over. The least identifier is active.
    pub fn load(base_dir: std::path::PathBuf, entries: &Vec<(String, String)>) -> (w: Workspace)
        ensures
            w.wf(),
            w.documents@.dom() == last_entry_index(entries@.map_values(|e: (String, String)| e.0@)).dom(),
            forall|id: u128| #[trigger]
                w.documents@.contains_key(id) ==> {
                    let i = last_entry_index(entries@.map_values(|e: (String, String)| e.0@))[id];
                    &&& 0 <= i < entries@.len()
                    &&& document_holds(
                        w.documents@[id],
                        id,
                        title_from_stem(md_stem(entries@[i].0@)->0),
                        entries@[i].1@,
                    )
                },
            w.active_id == first_key(w.documents@),
            w.base_dir == base_dir,
    {
        let ghost names = entries@.map_values(|e: (String, String)| e.0@);
        let mut documents: BTreeMap<u128, Document> = BTreeMap::new();
        let mut i: usize = 0;
        while i < entries.len()
            invariant
                i <= entries.len(),
                names == entries@.map_values(|e: (String, String)| e.0@),
                forall|k: u128| #[trigger] documents@.contains_key(k) ==> documents@[k].id == k,
                documents@.dom() == last_entry_index(names.take(i as int)).dom(),
                forall|id: u128| #[trigger]
                    documents@.contains_key(id) ==> {
                        let j = last_entry_index(names.take(i as int))[id];
                        &&& 0 <= j < i
                        &&& document_holds(
                            documents@[id],
                            id,
                            title_from_stem(md_stem(entries@[j].0@)->0),
                            entries@[j].1@,
                        )
                    },
            decreases entries.len() - i,
        {
            let ghost prev = documents@;
            assert(names.take(i + 1).drop_last() =~= names.take(i as int));
            assert(names.take(i + 1).last() == entries@[i as int].0@);
            let (name, content) = &entries[i];
            match load_entry(name.as_str()) {
                Some((id, title)) => {
                    let doc = Document {
                        id,
                        title,
                        content: content.clone(),
                        transcript_lines: TranscriptLine::parse_content(content.as_str()),
                        created_at: utc_now_seconds(),
                        modified_at: utc_now_seconds(),
                        last_save_at: default_instant(),
                    };
                    documents.insert(id, doc);
                    assert(documents@.dom() =~= last_entry_index(names.take(i + 1)).dom());
                },
                None => {},
            }
            i = i + 1;
        }
        assert(names.take(entries.len() as int) =~= names);
        let active_id = first_key_of(&documents);
        Workspace { documents, active_id, base_dir }
    }

    /// Adds a new empty document titled `Document <n>`, where `n` is one more
    /// than the number of documents held, and makes it active. Returns its identifier.
    pub fn new_document(&mut self) -> (id: u128)
        requires
            old(self).documents@.len() < usize::MAX,
        ensures
            new_document_added(*old(self), *final(self), id),
            final(self).documents@.len() == old(self).documents@.len() + 1,
    {
        let mut title = String::new();
        title.push('D');
        title.push('o');
        title.push('c');
        title.push('u');
        title.push('m');
        title.push('e');
        title.push('n');
        title.push('t');
        title.push(' ');
        push_decimal(&mut title, (self.documents.len() + 1) as u64);
        assert(title@ =~= new_document_title(old(self).documents@.len() + 1));
        let mut doc = Document::new(title);
        if self.documents.contains_key(&doc.id) {
            doc.id = unused_id(&self.documents);
        }
        let id = doc.id;
        self.documents.insert(id, doc);
        self.active_id = Some(id);
        proof {
            vstd::std_specs::btree::axiom_btree_map_view_finite_dom(old(self).documents);
        }
        id
    }

    /// Removes a document; says whether it was there. When it was the active
    /// one, the least remaining identifier becomes active.
    pub fn delete_document(&mut self, id: u128) -> (r: bool)
        ensures
            document_deleted(*old(self), *final(self), id, r),
    {
        match self.documents.remove(&id) {
            Some(_) => {
                if self.active_id == Some(id) {
                    self.active_id = first_key_of(&self.documents);
                }
                true
            },
            None => {
                assert(old(self).documents@.remove(id) =~= old(self).documents@);
                false
            },
        }
    }

    /// Makes a document active, when the workspace holds it.
    pub fn activate(&mut self, id: u128)
        ensures
            final(self).documents == old(self).documents,
            final(self).base_dir == old(self).base_dir,
            final(self).active_id == if old(self).documents@.contains_key(id) {
                Some(id)
            } else {
                old(self).active_id
            },
            old(self).wf() ==> final(self).wf(),
    {
        if self.documents.contains_key(&id) {
            self.active_id = Some(id);
        }
    }

    /// The active document, if there is one.
    pub fn active(&self) -> (r: Option<&Document>)
        ensures
            r == match self.active_id {
                Some(a) => if self.documents@.contains_key(a) {
                    Some(&self.documents@[a])
                } else {
                    None
                },
                None => None,
            },
    {
        match self.active_id {
            Some(a) => self.documents.get(&a),
            None => None,
        }
    }

    /// The file to write when a document is saved: its file name and content.
    pub fn save_target(&self, id: u128) -> (r: Option<(String, String)>)
        ensures
            match r {
                Some(f) => self.documents@.contains_key(id) && (f.0@, f.1@) == save_file_spec(
                    self.documents@[id],
                ),
                None => !self.documents@.contains_key(id),
            },
    {
        match self.documents.get(&id) {
            Some(doc) => Some((doc.to_filename(), doc.content.clone())),
            None => None,
        }
    }

    /// The files to write when every document is saved, in increasing order of identifier.
    pub fn save_targets(&self) -> (r: Vec<(String, String)>)
        ensures
            exists|ks: Seq<u128>|
                {
                    &&& ks.to_set() == self.documents@.dom()
                    &&& forall|i: int, j: int| 0 <= i < j < ks.len() ==> ks[i] < ks[j]
                    &&& r@.len() == ks.len()
                    &&& forall|i: int|
                        0 <= i < ks.len() ==> (#[trigger] r@[i].0@, r@[i].1@) == save_file_spec(
                            self.documents@[ks[i]],
                        )
                },
    {
        let ks = sorted_keys(&self.documents);
        let mut out: Vec<(String, String)> = Vec::new();
        let mut i: usize = 0;
        while i < ks.len()
            invariant
                i <= ks.len(),
                ks@.to_set() == self.documents@.dom(),
                out@.len() == i,
                forall|j: int|
                    0 <= j < i ==> (#[trigger] out@[j].0@, out@[j].1@) == save_file_spec(
                        self.documents@[ks@[j]],
                    ),
            decreases ks.len() - i,
        {
            assert(ks@.to_set().contains(ks@[i as int]));
            match self.documents.get(&ks[i]) {
                Some(d) => {
                    out.push((d.to_filename(), d.content.clone()));
                },
                None => {},
            }
            i = i + 1;
        }
        out
    }

    /// Whether a document is due to be saved, given how long ago it was last
    /// saved (`elapsed_ms`, read from the clock on that document's save
    /// instant): it must be held, and 30 seconds must have passed.
    pub fn save_due(&self, id: u128, elapsed_ms: u128) -> (r: bool)
        ensures
            r == (self.documents@.contains_key(id) && elapsed_ms >= SAVE_INTERVAL_MILLIS),
    {
        self.documents.contains_key(&id) && interval_elapsed(elapsed_ms)
    }

    /// Records that a document was just saved, at the instant `now`.
    pub fn mark_saved(&mut self, id: u128, now: std::time::Instant)
        ensures
            final(self).documents@.dom() == old(self).documents@.dom(),
            forall|k: u128| k != id && #[trigger] old(self).documents@.contains_key(k)
                ==> final(self).documents@[k] == old(self).documents@[k],
            old(self).documents@.contains_key(id) ==> {
                let (a, b) = (old(self).documents@[id], final(self).documents@[id]);
                &&& a.id == b.id && a.title == b.title && a.content == b.content
                &&& a.transcript_lines == b.transcript_lines
                &&& a.created_at == b.created_at && a.modified_at == b.modified_at
                &&& b.last_save_at == now
            },
            final(self).active_id == old(self).active_id,
            final(self).base_dir == old(self).base_dir,
            old(self).wf() ==> final(self).wf(),
    {
        match self.documents.remove(&id) {
            Some(mut doc) => {
                doc.last_save_at = now;
                self.documents.insert(id, doc);
                assert(self.documents@.dom() =~= old(self).documents@.dom());
            },
            None => {
                assert(self.documents@ =~= old(self).documents@);
            },
        }
    }

    /// Gives a document a new title and stamps its modification time; says
    /// whether the document was there.
    pub fn rename_document(&mut self, id: u128, new_title: String) -> (r: bool)
        ensures
            document_renamed(*old(self), *final(self), id, new_title@, r),
    {
        match self.documents.remove(&id) {
            Some(mut doc) => {
                doc.title = new_title;
                doc.modified_at = utc_now_seconds();
                self.documents.insert(id, doc);
                assert(self.documents@.dom() =~= old(self).documents@.dom());
                true
            },
            None => {
                assert(self.documents@ =~= old(self).documents@);
                false
            },
        }
    }

    /// Rebuilds every document's transcript from its content, keeping each
    /// one's last 2000 lines.
    pub fn parse_all_lines(&mut self)
        ensures
            final(self).documents@.dom() == old(self).documents@.dom(),
            forall|k: u128| #[trigger] old(self).documents@.contains_key(k) ==> {
                let (d0, d1) = (old(self).documents@[k], final(self).documents@[k]);
                &&& d1.id == d0.id && d1.title == d0.title && d1.content == d0.content
                &&& d1.created_at == d0.created_at && d1.modified_at == d0.modified_at
                &&& lines_view(d1.transcript_lines@) == last_lines(
                    transcript_spec(d0.content@),
                    MAX_TRANSCRIPT_LINES as nat,
                )
            },
            final(self).active_id == old(self).active_id,
            final(self).base_dir == old(self).base_dir,
            old(self).wf() ==> final(self).wf(),
    {
        let ks = sorted_keys(&self.documents);
        let mut i: usize = 0;
        while i < ks.len()
            invariant
                i <= ks.len(),
                ks@.to_set() == old(self).documents@.dom(),
                forall|x: int, y: int| 0 <= x < y < ks@.len() ==> ks@[x] < ks@[y],
                self.documents@.dom() == old(self).documents@.dom(),
                self.active_id == old(self).active_id,
                self.base_dir == old(self).base_dir,
                forall|k: u128| #[trigger] old(self).documents@.contains_key(k) ==> {
                    let (d0, d1) = (old(self).documents@[k], self.documents@[k]);
                    &&& d1.id == d0.id && d1.title == d0.title && d1.content == d0.content
                    &&& d1.created_at == d0.created_at && d1.modified_at == d0.modified_at
                },
                forall|q: int| #![trigger ks@[q]] 0 <= q < i ==> lines_view(self.documents@[ks@[q]].transcript_lines@)
                    == last_lines(transcript_spec(old(self).documents@[ks@[q]].content@), MAX_TRANSCRIPT_LINES as nat),
                forall|k: u128| #[trigger] old(self).documents@.contains_key(k) && (forall|q: int| 0 <= q < i ==> ks@[q] != k)
                    ==> self.documents@[k] == old(self).documents@[k],
            decreases ks.len() - i,
        {
            let k = ks[i];
            assert(ks@.to_set().contains(k));
            proof {
                assert forall|q: int| 0 <= q < i implies ks@[q] != k by {
                    assert(ks@[q] < ks@[i as int]);
                }
            }
            match self.documents.remove(&k) {
                Some(mut doc) => {
                    doc.parse_lines_from_content();
                    self.documents.insert(k, doc);
                },
                None => {},
            }
            proof {
                assert(self.documents@.dom() =~= old(self).documents@.dom());
            }
            i = i + 1;
        }
        proof {
            assert forall|k: u128| #[trigger] old(self).documents@.contains_key(k) implies lines_view(
                self.documents@[k].transcript_lines@,
            ) == last_lines(transcript_spec(old(self).documents@[k].content@), MAX_TRANSCRIPT_LINES as nat) by {
                assert(ks@.to_set().contains(k));
                let q = choose|q: int| 0 <= q < ks@.len() && ks@[q] == k;
                assert(ks@[q] == k);
            }
        }
    }

    /// Appends a transcription to the active document: the line
    /// `<timestamp><text>` followed by a newline goes into its content, and
    /// the transcript gains the line `(timestamp, text)`, keeping its last
    /// 2000 lines; the modification time is stamped. Returns the identifier
    /// of the document written to, if there is an active one.
    pub fn append_to_active(&mut self, timestamp: String, text: String) -> (r: Option<u128>)
        ensures
            appended_to_active(*old(self), *final(self), timestamp@, text@, r),
    {
        let a = match self.active_id {
            Some(a) => a,
            None => {
                return None;
            },
        };
        match self.documents.remove(&a) {
            Some(mut doc) => {
                let ghost d0 = doc;
                doc.content.append(timestamp.as_str());
                doc.content.append(text.as_str());
                doc.content.push('\n');
                assert(doc.content@ =~= d0.content@ + timestamp@ + text@ + seq!['\n']);
                doc.transcript_lines.push(TranscriptLine { timestamp, text });
                doc.modified_at = utc_now_seconds();
                let ghost before = doc.transcript_lines@;
                assert(lines_view(before) =~= lines_view(d0.transcript_lines@).push(
                    before.last()@,
                ));
                doc.trim_transcript_lines();
                proof {
                    if before.len() > MAX_TRANSCRIPT_LINES {
                        assert(lines_view(doc.transcript_lines@) =~= lines_view(before).subrange(
                            before.len() - MAX_TRANSCRIPT_LINES,
                            before.len() as int,
                        ));
                    }
                }
                self.documents.insert(a, doc);
                assert(self.documents@.dom() =~= old(self).documents@.dom());
                Some(a)
            },
            None => {
                assert(self.documents@ =~= old(self).documents@);
                None
            },
        }
    }
}

/// Whether `ms` milliseconds reach the save interval of 30 seconds.
pub fn interval_elapsed(ms: u128) -> (r: bool)
    ensures
        r == (ms >= SAVE_INTERVAL_MILLIS),
{
    ms >= SAVE_INTERVAL_MILLIS
}

/// The identifier and title that a stored file's name gives, when it is a
/// document file whose name starts with a parsable identifier.
pub fn load_entry(name: &str) -> (r: Option<(u128, String)>)
    ensures
        match r {
            Some((id, title)) => loaded_id(name@) == Some(id) && title@ == title_from_stem(
                md_stem(name@)->0,
            ),
            None => loaded_id(name@) is None,
        },
{
    let v = chars_of(name);
    let n = v.len();
    if n < 4 || v[n - 3] != '.' || v[n - 2] != 'm' || v[n - 1] != 'd' {
        proof {
            if n >= 4 {
                assert(name@.skip(n - 3)[0] == v@[n - 3]);
                assert(name@.skip(n - 3)[1] == v@[n - 2]);
                assert(name@.skip(n - 3)[2] == v@[n - 1]);
            }
        }
        return None;
    }
    assert(name@.skip(n - 3) =~= seq!['.', 'm', 'd']);
    let stem_end = n - 3;
    let ghost stem = v@.subrange(0, stem_end as int);
    assert(stem =~= name@.take(n - 3));
    let dash = find_in(&v, 0, stem_end, '-');
    let id_text = string_of(&v, 0, dash);
    proof {
        if dash < stem_end {
            assert(stem.take(dash as int) =~= v@.subrange(0, dash as int));
        } else {
            assert(stem =~= v@.subrange(0, dash as int));
        }
    }
    let id = match parse_uuid(id_text.as_str()) {
        Some(id) => id,
        None => {
            return None;
        },
    };
    let mut t: Vec<char> = Vec::new();
    if dash < stem_end {
        let mut j = dash + 1;
        while j < stem_end
            invariant
                dash < j <= stem_end <= v.len(),
                t@ =~= dashes_to_spaces(v@.subrange(dash + 1, j as int)),
            decreases stem_end - j,
        {
            let c = v[j];
            t.push(if c == '-' { ' ' } else { c });
            j = j + 1;
        }
        assert(stem.skip(dash + 1) =~= v@.subrange(dash + 1, stem_end as int));
    } else {
        t.push('U');
        t.push('n');
        t.push('t');
        t.push('i');
        t.push('t');
        t.push('l');
        t.push('e');
        t.push('d');
        assert(t@ =~= untitled());
    }
    let (a, b) = trim_bounds(&t, 0, t.len());
    assert(t@.subrange(0, t.len() as int) =~= t@);
    let title = string_of(&t, a, b);
    Some((id, title))
}

} // verus!
