//! Where a model's files lie: a model is named by a directory, or by a Hugging Face id, which
//! is looked up in the local cache.
//!
//! The search asks questions about the file system, one at a time. Whoever runs it looks, and
//! hands the answer back.

use vstd::prelude::*;
use vstd::string::*;

use crate::format::shards;
use crate::format::shards::has_safetensors;
use crate::text;
use crate::text::{chars_of, join, join3, quoted, trimmed};

verus! {

// ---------------------------------------------------------------------------
// Paths
// ---------------------------------------------------------------------------

/// A path below another: one that begins at the root stands for itself.
pub open spec fn below(base: Seq<char>, path: Seq<char>) -> Seq<char> {
    if path.len() > 0 && path[0] == '/' {
        path
    } else if base.len() == 0 || base.last() == '/' {
        base + path
    } else {
        base + "/"@ + path
    }
}

/// A path below another.
pub fn path_below(base: &str, path: &str) -> (joined: String)
    ensures
        joined@ == below(base@, path@),
{
    let ends = chars_of(base);
    let starts = chars_of(path);
    if starts.len() > 0 && starts[0] == '/' {
        path.to_owned()
    } else if ends.len() == 0 || ends[ends.len() - 1] == '/' {
        join(base, path)
    } else {
        join3(base, "/", path)
    }
}

/// A model id with its slashes written as two dashes.
pub open spec fn without_slashes(model: Seq<char>) -> Seq<char>
    decreases model.len(),
{
    if model.len() == 0 {
        Seq::empty()
    } else if model.last() == '/' {
        without_slashes(model.drop_last()) + "--"@
    } else {
        without_slashes(model.drop_last()).push(model.last())
    }
}

/// The directory of a model in the cache.
pub open spec fn cache_dir(model: Seq<char>) -> Seq<char> {
    "models--"@ + without_slashes(model)
}

/// The directory of a model in the cache.
fn cache_dir_of(model: &str) -> (dir: String)
    ensures
        dir@ == cache_dir(model@),
{
    let chars = chars_of(model);
    let mut dir = "models--".to_owned();
    let mut i: usize = 0;
    assert(model@.take(0) =~= Seq::empty());
    assert(dir@ =~= cache_dir(model@.take(0)));
    while i < chars.len()
        invariant
            i <= chars@.len(),
            chars@ == model@,
            dir@ == cache_dir(model@.take(i as int)),
        decreases chars@.len() - i,
    {
        assert(model@.take(i + 1).drop_last() =~= model@.take(i as int));
        if chars[i] == '/' {
            dir.append("--");
        } else {
            dir.push(chars[i]);
        }
        i += 1;
        assert(dir@ =~= cache_dir(model@.take(i as int)));
    }
    assert(model@.take(i as int) =~= model@);
    dir
}

/// Where the cache lies: below `HF_HOME`, where that is set, or else below `HOME`.
pub open spec fn cache_root(hf_home: Option<Seq<char>>, home: Option<Seq<char>>) -> Result<
    Seq<char>,
    Seq<char>,
> {
    match (hf_home, home) {
        (Some(hf_home), _) => Ok(below(hf_home, "hub"@)),
        (None, Some(home)) => Ok(below(below(below(home, ".cache"@), "huggingface"@), "hub"@)),
        (None, None) => Err("HOME is not set"@),
    }
}

/// Where the cache lies, with what `HF_HOME` and `HOME` are set to.
pub fn hf_cache_root(hf_home: &Option<String>, home: &Option<String>) -> (root: Result<
    String,
    String,
>)
    ensures
        match (root, cache_root(text::seen(*hf_home), text::seen(*home))) {
            (Ok(root), Ok(expected)) => root@ == expected,
            (Err(message), Err(expected)) => message@ == expected,
            _ => false,
        },
{
    if let Some(hf_home) = hf_home {
        return Ok(path_below(hf_home.as_str(), "hub"));
    }
    match home {
        Some(home) => {
            let hidden = path_below(home.as_str(), ".cache");
            let all = path_below(hidden.as_str(), "huggingface");
            Ok(path_below(all.as_str(), "hub"))
        },
        None => Err("HOME is not set".to_owned()),
    }
}

/// Where the snapshots of a model lie.
pub open spec fn snapshots_dir(root: Seq<char>, model: Seq<char>) -> Seq<char> {
    below(below(root, cache_dir(model)), "snapshots"@)
}

/// The file that names the current snapshot of a model.
pub open spec fn main_file(root: Seq<char>, model: Seq<char>) -> Seq<char> {
    below(below(below(root, cache_dir(model)), "refs"@), "main"@)
}

// ---------------------------------------------------------------------------
// Questions and answers
// ---------------------------------------------------------------------------

/// A snapshot that there may be: whether it is a directory, and the names of the files in it,
/// as far as they can be listed.
#[derive(Debug)]
pub struct SnapshotEntry {
    pub path: String,
    pub is_dir: bool,
    pub files: Vec<String>,
}

/// A snapshot that there may be, as a value.
pub struct EntryView {
    pub path: Seq<char>,
    pub is_dir: bool,
    pub files: Seq<Seq<char>>,
}

impl View for SnapshotEntry {
    type V = EntryView;

    open spec fn view(&self) -> EntryView {
        EntryView { path: self.path@, is_dir: self.is_dir, files: text::texts(self.files@) }
    }
}

/// Several of them, as values.
pub open spec fn entry_views(entries: Seq<SnapshotEntry>) -> Seq<EntryView> {
    Seq::new(entries.len(), |i: int| entries[i]@)
}

/// What the search needs to know, or what came out of it.
#[derive(Debug)]
pub enum CacheAction {
    /// Whether a path is that of a directory.
    IsDir(String),
    /// What a file holds.
    Read(String),
    /// What is in a directory.
    List(String),
    /// The search is over.
    Done(Result<String, String>),
}

/// What the search needs to know, as a value.
pub enum ActionView {
    IsDir(Seq<char>),
    Read(Seq<char>),
    List(Seq<char>),
    Done(Result<Seq<char>, Seq<char>>),
}

impl View for CacheAction {
    type V = ActionView;

    open spec fn view(&self) -> ActionView {
        match self {
            CacheAction::IsDir(path) => ActionView::IsDir(path@),
            CacheAction::Read(path) => ActionView::Read(path@),
            CacheAction::List(path) => ActionView::List(path@),
            CacheAction::Done(Ok(path)) => ActionView::Done(Ok(path@)),
            CacheAction::Done(Err(message)) => ActionView::Done(Err(message@)),
        }
    }
}

/// The answer to a question.
#[derive(Debug)]
pub enum CacheEvent {
    IsDir(bool),
    /// `None` where the file cannot be read.
    Text(Option<String>),
    /// What could be listed.
    Entries(Vec<SnapshotEntry>),
}

/// The answer to a question, as a value.
pub enum EventView {
    IsDir(bool),
    Text(Option<Seq<char>>),
    Entries(Seq<EntryView>),
}

impl View for CacheEvent {
    type V = EventView;

    open spec fn view(&self) -> EventView {
        match self {
            CacheEvent::IsDir(answer) => EventView::IsDir(*answer),
            CacheEvent::Text(text) => EventView::Text(text::seen(*text)),
            CacheEvent::Entries(entries) => EventView::Entries(entry_views(entries@)),
        }
    }
}

/// What the search waits for.
#[derive(Debug)]
enum Phase {
    /// Whether the model is a directory.
    Model,
    /// Whether there are snapshots.
    Snapshots(String),
    /// Which snapshot is the current one.
    Main(String),
    /// Whether that one, of the given path, is there.
    Candidate(String, String),
    /// Which ones there are.
    Entries(String),
    Over,
}

/// What the search waits for, as a value. All but the first know where the cache lies.
pub enum PhaseView {
    Model,
    Snapshots(Seq<char>),
    Main(Seq<char>),
    Candidate(Seq<char>, Seq<char>),
    Entries(Seq<char>),
    Over,
}

impl View for Phase {
    type V = PhaseView;

    closed spec fn view(&self) -> PhaseView {
        match self {
            Phase::Model => PhaseView::Model,
            Phase::Snapshots(root) => PhaseView::Snapshots(root@),
            Phase::Main(root) => PhaseView::Main(root@),
            Phase::Candidate(root, path) => PhaseView::Candidate(root@, path@),
            Phase::Entries(root) => PhaseView::Entries(root@),
            Phase::Over => PhaseView::Over,
        }
    }
}

/// A search for the snapshot of a model.
#[derive(Debug)]
pub struct SnapshotSearch {
    model: String,
    hf_home: Option<String>,
    home: Option<String>,
    phase: Phase,
}

/// A search for the snapshot of a model, as a value.
pub struct SearchView {
    pub model: Seq<char>,
    pub hf_home: Option<Seq<char>>,
    pub home: Option<Seq<char>>,
    pub phase: PhaseView,
}

impl View for SnapshotSearch {
    type V = SearchView;

    closed spec fn view(&self) -> SearchView {
        SearchView {
            model: self.model@,
            hf_home: text::seen(self.hf_home),
            home: text::seen(self.home),
            phase: self.phase@,
        }
    }
}

// ---------------------------------------------------------------------------
// The search
// ---------------------------------------------------------------------------

/// Whether an entry is a snapshot: a directory with weights in it.
pub open spec fn is_snapshot(entry: EntryView) -> bool {
    entry.is_dir && exists|i: int|
        0 <= i < entry.files.len() && shards::is_shard(#[trigger] entry.files[i])
}

/// The first entry that is a snapshot.
pub open spec fn first_snapshot(entries: Seq<EntryView>) -> Option<Seq<char>>
    decreases entries.len(),
{
    if entries.len() == 0 {
        None
    } else if is_snapshot(entries[0]) {
        Some(entries[0].path)
    } else {
        first_snapshot(entries.skip(1))
    }
}

/// What is said of a model that is nowhere.
pub open spec fn nowhere(model: Seq<char>, root: Seq<char>) -> Seq<char> {
    "model "@ + text::debug_text(model) + " is neither an existing directory nor cached under "@
        + root
}

/// What is said of a model without a snapshot.
pub open spec fn no_snapshot(model: Seq<char>, snapshots: Seq<char>) -> Seq<char> {
    "no cached snapshot found for "@ + text::debug_text(model) + " under "@ + snapshots
}

impl SearchView {
    /// Whether an answer is one to the question that was asked.
    pub open spec fn expects(self, event: EventView) -> bool {
        match self.phase {
            PhaseView::Model => event is IsDir,
            PhaseView::Snapshots(_) => event is IsDir,
            PhaseView::Main(_) => event is Text,
            PhaseView::Candidate(_, _) => event is IsDir,
            PhaseView::Entries(_) => event is Entries,
            PhaseView::Over => false,
        }
    }

    /// What follows an answer: what is waited for then, and what is asked.
    pub open spec fn next(self, event: EventView) -> (PhaseView, ActionView) {
        match (self.phase, event) {
            (PhaseView::Model, EventView::IsDir(true)) => (
                PhaseView::Over,
                ActionView::Done(Ok(self.model)),
            ),
            (PhaseView::Model, EventView::IsDir(false)) => match cache_root(
                self.hf_home,
                self.home,
            ) {
                Err(message) => (PhaseView::Over, ActionView::Done(Err(message))),
                Ok(root) => (
                    PhaseView::Snapshots(root),
                    ActionView::IsDir(snapshots_dir(root, self.model)),
                ),
            },
            (PhaseView::Snapshots(root), EventView::IsDir(false)) => (
                PhaseView::Over,
                ActionView::Done(Err(nowhere(self.model, root))),
            ),
            (PhaseView::Snapshots(root), EventView::IsDir(true)) => (
                PhaseView::Main(root),
                ActionView::Read(main_file(root, self.model)),
            ),
            (PhaseView::Main(root), EventView::Text(Some(hash))) => {
                let path = below(snapshots_dir(root, self.model), text::trim(hash));
                (PhaseView::Candidate(root, path), ActionView::IsDir(path))
            },
            (PhaseView::Main(root), EventView::Text(None)) => (
                PhaseView::Entries(root),
                ActionView::List(snapshots_dir(root, self.model)),
            ),
            (PhaseView::Candidate(root, path), EventView::IsDir(true)) => (
                PhaseView::Over,
                ActionView::Done(Ok(path)),
            ),
            (PhaseView::Candidate(root, path), EventView::IsDir(false)) => (
                PhaseView::Entries(root),
                ActionView::List(snapshots_dir(root, self.model)),
            ),
            (PhaseView::Entries(root), EventView::Entries(entries)) => (
                PhaseView::Over,
                ActionView::Done(
                    match first_snapshot(entries) {
                        Some(path) => Ok(path),
                        None => Err(no_snapshot(self.model, snapshots_dir(root, self.model))),
                    },
                ),
            ),
            _ => (PhaseView::Over, ActionView::Done(Err(Seq::empty()))),
        }
    }
}

/// The first entry that is a snapshot.
fn find_snapshot(entries: &[SnapshotEntry]) -> (path: Option<String>)
    ensures
        text::seen(path) == first_snapshot(entry_views(entries@)),
{
    let ghost all = entry_views(entries@);
    let mut i: usize = 0;
    assert(all.skip(0) =~= all);
    while i < entries.len()
        invariant
            i <= entries@.len(),
            all == entry_views(entries@),
            first_snapshot(all.skip(i as int)) == first_snapshot(all),
        decreases entries@.len() - i,
    {
        let entry = &entries[i];
        assert(all.skip(i as int)[0] == entry@);
        assert(all.skip(i as int).skip(1) =~= all.skip(i + 1));
        let with_weights = has_safetensors(entry.files.as_slice());
        proof {
            let files = text::texts(entry.files@);
            assert(forall|k: int|
                0 <= k < files.len() ==> #[trigger] files[k] == entry.files@[k]@);
            if with_weights {
                let k = choose|k: int|
                    0 <= k < entry.files@.len() && shards::is_shard(#[trigger] entry.files@[k]@);
                assert(entry@.files == files);
                assert(shards::is_shard(entry@.files[k]));
                assert(entry.is_dir ==> is_snapshot(entry@));
            }
        }
        if entry.is_dir && with_weights {
            return Some(entry.path.clone());
        }
        i += 1;
    }
    None
}

/// Where the snapshots of a model lie.
fn snapshots_of(root: &str, model: &str) -> (dir: String)
    ensures
        dir@ == snapshots_dir(root@, model@),
{
    let dir = path_below(root, cache_dir_of(model).as_str());
    path_below(dir.as_str(), "snapshots")
}

/// The file that names the current snapshot of a model.
fn main_of(root: &str, model: &str) -> (file: String)
    ensures
        file@ == main_file(root@, model@),
{
    let dir = path_below(root, cache_dir_of(model).as_str());
    let refs = path_below(dir.as_str(), "refs");
    path_below(refs.as_str(), "main")
}

/// Starts the search for the directory of a model, with what `HF_HOME` and `HOME` are set
/// to. A path is taken as it is. An id is looked up in the cache: the snapshot that is named
/// as the current one is preferred to any other.
pub fn resolve_snapshot(model: &str, hf_home: Option<String>, home: Option<String>) -> (started: (
    SnapshotSearch,
    CacheAction,
))
    ensures
        started.0@ == (SearchView {
            model: model@,
            hf_home: text::seen(hf_home),
            home: text::seen(home),
            phase: PhaseView::Model,
        }),
        started.1@ == ActionView::IsDir(model@),
{
    let search = SnapshotSearch { model: model.to_owned(), hf_home, home, phase: Phase::Model };
    (search, CacheAction::IsDir(model.to_owned()))
}

impl SnapshotSearch {
    /// Goes on with the answer to the question that was asked.
    pub fn step(&mut self, event: CacheEvent) -> (action: CacheAction)
        requires
            old(self)@.expects(event@),
        ensures
            final(self)@ == (SearchView { phase: old(self)@.next(event@).0, ..old(self)@ }),
            action@ == old(self)@.next(event@).1,
    {
        let mut phase = Phase::Over;
        std::mem::swap(&mut phase, &mut self.phase);
        match (phase, event) {
            (Phase::Model, CacheEvent::IsDir(answer)) => {
                if answer {
                    return CacheAction::Done(Ok(self.model.clone()));
                }
                match hf_cache_root(&self.hf_home, &self.home) {
                    Err(message) => CacheAction::Done(Err(message)),
                    Ok(root) => {
                        let dir = snapshots_of(root.as_str(), self.model.as_str());
                        self.phase = Phase::Snapshots(root);
                        CacheAction::IsDir(dir)
                    },
                }
            },
            (Phase::Snapshots(root), CacheEvent::IsDir(answer)) => {
                if answer {
                    let file = main_of(root.as_str(), self.model.as_str());
                    self.phase = Phase::Main(root);
                    return CacheAction::Read(file);
                }
                let mut message = join3(
                    "model ",
                    quoted(self.model.as_str()).as_str(),
                    " is neither an existing directory nor cached under ",
                );
                message.append(root.as_str());
                CacheAction::Done(Err(message))
            },
            (Phase::Main(root), CacheEvent::Text(text)) => {
                let dir = snapshots_of(root.as_str(), self.model.as_str());
                match text {
                    Some(hash) => {
                        let path = path_below(dir.as_str(), trimmed(hash.as_str()).as_str());
                        self.phase = Phase::Candidate(root, path.clone());
                        CacheAction::IsDir(path)
                    },
                    None => {
                        self.phase = Phase::Entries(root);
                        CacheAction::List(dir)
                    },
                }
            },
            (Phase::Candidate(root, path), CacheEvent::IsDir(answer)) => {
                if answer {
                    return CacheAction::Done(Ok(path));
                }
                let dir = snapshots_of(root.as_str(), self.model.as_str());
                self.phase = Phase::Entries(root);
                CacheAction::List(dir)
            },
            (Phase::Entries(root), CacheEvent::Entries(entries)) => {
                match find_snapshot(entries.as_slice()) {
                    Some(path) => CacheAction::Done(Ok(path)),
                    None => {
                        let dir = snapshots_of(root.as_str(), self.model.as_str());
                        let mut message = join3(
                            "no cached snapshot found for ",
                            quoted(self.model.as_str()).as_str(),
                            " under ",
                        );
                        message.append(dir.as_str());
                        CacheAction::Done(Err(message))
                    },
                }
            },
            _ => CacheAction::Done(Err(String::new())),
        }
    }
}

// ---------------------------------------------------------------------------
// Laws
// ---------------------------------------------------------------------------

/// A file system that does not change.
pub struct Files {
    pub is_dir: spec_fn(Seq<char>) -> bool,
    pub text: spec_fn(Seq<char>) -> Option<Seq<char>>,
    pub entries: spec_fn(Seq<char>) -> Seq<EntryView>,
}

/// The answer that a file system gives.
pub open spec fn answer(files: Files, action: ActionView) -> EventView {
    match action {
        ActionView::IsDir(path) => EventView::IsDir((files.is_dir)(path)),
        ActionView::Read(path) => EventView::Text((files.text)(path)),
        ActionView::List(path) => EventView::Entries((files.entries)(path)),
        ActionView::Done(_) => EventView::IsDir(false),
    }
}

/// What comes out of a search that is asked no more than `steps` questions; `None` where it
/// is not over then.
pub open spec fn outcome(files: Files, search: SearchView, action: ActionView, steps: nat) -> Option<
    Result<Seq<char>, Seq<char>>,
>
    decreases steps,
{
    match action {
        ActionView::Done(result) => Some(result),
        _ => if steps == 0 {
            None
        } else {
            let (phase, action) = search.next(answer(files, action));
            outcome(files, SearchView { phase, ..search }, action, (steps - 1) as nat)
        },
    }
}

/// The directory of a model: the model itself, where it is one; or else the snapshot that
/// is named as the current one, where it is there; or else the first one with weights.
pub open spec fn resolved(
    files: Files,
    model: Seq<char>,
    hf_home: Option<Seq<char>>,
    home: Option<Seq<char>>,
) -> Result<Seq<char>, Seq<char>> {
    if (files.is_dir)(model) {
        Ok(model)
    } else {
        match cache_root(hf_home, home) {
            Err(message) => Err(message),
            Ok(root) => {
                let snapshots = snapshots_dir(root, model);
                let current = match (files.text)(main_file(root, model)) {
                    Some(hash) => Some(below(snapshots, text::trim(hash))),
                    None => None,
                };
                if !(files.is_dir)(snapshots) {
                    Err(nowhere(model, root))
                } else if current is Some && (files.is_dir)(current->0) {
                    Ok(current->0)
                } else {
                    match first_snapshot((files.entries)(snapshots)) {
                        Some(path) => Ok(path),
                        None => Err(no_snapshot(model, snapshots)),
                    }
                }
            },
        }
    }
}

/// On a file system that does not change, the search ends, after five questions at most, and
/// finds the directory of the model.
pub proof fn search_resolves(
    files: Files,
    model: Seq<char>,
    hf_home: Option<Seq<char>>,
    home: Option<Seq<char>>,
)
    ensures
        outcome(
            files,
            SearchView { model, hf_home, home, phase: PhaseView::Model },
            ActionView::IsDir(model),
            5,
        ) == Some(resolved(files, model, hf_home, home)),
{
    reveal_with_fuel(outcome, 6);
}

/// What is asked is what is then waited for.
pub proof fn answers_are_expected(files: Files, search: SearchView, event: EventView)
    requires
        search.expects(event),
    ensures
        ({
            let (phase, action) = search.next(event);
            action is Done || (SearchView { phase, ..search }).expects(answer(files, action))
        }),
{
}

} // verus!
