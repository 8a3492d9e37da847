//! Preview tab — the decisions made about a file before it is shown: what
//! kind of body it is, whether it may be edited, and how remote images in a
//! markdown body are neutralized so that rendering never fetches them.

use std::path::{Path, PathBuf};

use vstd::prelude::*;

use crate::preview_target::PreviewIntent;
use crate::text::{self, has_prefix, lower_seq, tail, trim_seq};

verus! {

/// `std::path::Path`, carried through unread.
#[verifier::external_type_specification]
#[verifier::external_body]
pub struct ExPath(Path);

/// What `Path::extension` followed by `OsStr::to_str` gives for a path: the
/// extension of its file name, when there is one and it is valid UTF-8.
pub uninterp spec fn extension_of(p: &Path) -> Option<Seq<char>>;

/// `Path::extension`, with the `OsStr` it returns read by `OsStr::to_str`
/// (that type cannot be named here). Both depend on the path alone; the
/// result is named by `extension_of`.
#[verifier::external_body]
fn path_extension(path: &Path) -> (r: Option<&str>)
    ensures
        match r {
            Some(e) => extension_of(path) == Some(e@),
            None => extension_of(path) is None,
        },
{
    match path.extension() {
        Some(ext) => ext.to_str(),
        None => None,
    }
}

/// Bytes of the head probe kept beside the extension.
pub const SNIFF_BYTES: usize = 16;

/// Text bodies are read up to this many bytes.
pub const TEXT_CAP_BYTES: u64 = 131072;

/// What we do with the file, decided once on the background thread.
#[derive(Debug, PartialEq, Eq, Clone, Copy, Structural)]
pub enum PreviewKind {
    /// png, jpg, jpeg, svg, webp, gif, bmp.
    Image,
    /// `.md` / `.markdown` / `.mdown`.
    Markdown,
    /// Printable UTF-8 — read up to cap, displayed as text.
    Text,
    /// `.html` / `.htm` / `.xhtml` / `.css` — no web engine in the shell.
    WebPreview,
    /// Extension unknown and content looks binary — show type + size.
    Unsupported,
}

/// Whether the loaded body can be opened for editing: text and markdown,
/// and only when the whole file was read.
pub fn is_editable(kind: PreviewKind, truncated: bool) -> (r: bool)
    ensures
        r == ((kind == PreviewKind::Text || kind == PreviewKind::Markdown) && !truncated),
{
    matches!(kind, PreviewKind::Text | PreviewKind::Markdown) && !truncated
}

/// Whether the Preview/Edit toggle is offered: markdown read whole.
pub fn can_toggle_edit(kind: PreviewKind, truncated: bool) -> (r: bool)
    ensures
        r == (kind == PreviewKind::Markdown && !truncated),
{
    kind == PreviewKind::Markdown && !truncated
}

/// A probe byte that counts as text: tab, newline, carriage return,
/// printable ASCII, or any byte of a multi-byte UTF-8 sequence.
pub open spec fn text_byte(b: u8) -> bool {
    b == 9 || b == 10 || b == 13 || (32 <= b && b <= 126) || b >= 128
}

/// Number of text bytes in a probe.
pub open spec fn text_bytes(head: Seq<u8>) -> nat
    decreases head.len(),
{
    if head.len() == 0 {
        0
    } else {
        text_bytes(head.drop_last()) + if text_byte(head.last()) {
            1nat
        } else {
            0nat
        }
    }
}

/// The unknown-extension heuristic: not all zero, and at least 80 % text
/// bytes.
pub open spec fn looks_like_text_spec(head: Seq<u8>) -> bool {
    !(forall|i: int| 0 <= i < head.len() ==> head[i] == 0) && text_bytes(head) * 5 >= SNIFF_BYTES * 4
}

/// The kind decided by a lower-cased extension and the head probe.
pub open spec fn kind_for(ext: Seq<char>, head: Seq<u8>) -> PreviewKind {
    if ext == "png"@ || ext == "jpg"@ || ext == "jpeg"@ || ext == "svg"@ || ext == "webp"@ || ext
        == "gif"@ || ext == "bmp"@ {
        PreviewKind::Image
    } else if ext == "md"@ || ext == "markdown"@ || ext == "mdown"@ {
        PreviewKind::Markdown
    } else if ext == "html"@ || ext == "htm"@ || ext == "xhtml"@ || ext == "css"@ {
        PreviewKind::WebPreview
    } else if looks_like_text_spec(head) {
        PreviewKind::Text
    } else {
        PreviewKind::Unsupported
    }
}

/// Heuristic for the unknown-extension case.
pub fn looks_like_text(head: &[u8; SNIFF_BYTES]) -> (r: bool)
    ensures
        r == looks_like_text_spec(head@),
{
    let mut all_zero = true;
    let mut printable: usize = 0;
    let mut i: usize = 0;
    while i < SNIFF_BYTES
        invariant
            i <= SNIFF_BYTES,
            head@.len() == SNIFF_BYTES,
            printable == text_bytes(head@.take(i as int)),
            printable <= i,
            all_zero == (forall|j: int| 0 <= j < i ==> head@[j] == 0),
        decreases SNIFF_BYTES - i,
    {
        assert(head@.take(i + 1).drop_last() =~= head@.take(i as int));
        let b = head[i];
        if b != 0 {
            all_zero = false;
        }
        if b == 9 || b == 10 || b == 13 || (32 <= b && b <= 126) || b >= 128 {
            printable = printable + 1;
        }
        i = i + 1;
    }
    assert(head@.take(SNIFF_BYTES as int) =~= head@);
    if all_zero {
        return false;
    }
    printable * 5 >= SNIFF_BYTES * 4
}

/// Classifier over a (not yet lower-cased) extension and the head probe.
pub fn classify_extension(ext: &str, head: &[u8; SNIFF_BYTES]) -> (r: PreviewKind)
    ensures
        r == kind_for(lower_seq(ext@), head@),
{
    let e = text::lowercase(&text::chars_of(ext));
    if text::eq_str(&e, "png") || text::eq_str(&e, "jpg") || text::eq_str(&e, "jpeg") || text::eq_str(
        &e,
        "svg",
    ) || text::eq_str(&e, "webp") || text::eq_str(&e, "gif") || text::eq_str(&e, "bmp") {
        PreviewKind::Image
    } else if text::eq_str(&e, "md") || text::eq_str(&e, "markdown") || text::eq_str(&e, "mdown") {
        PreviewKind::Markdown
    } else if text::eq_str(&e, "html") || text::eq_str(&e, "htm") || text::eq_str(&e, "xhtml")
        || text::eq_str(&e, "css") {
        PreviewKind::WebPreview
    } else if looks_like_text(head) {
        PreviewKind::Text
    } else {
        PreviewKind::Unsupported
    }
}

/// Classifier over a path and the head probe: the path's extension (empty
/// when it has none or it is not UTF-8) decides as in `classify_extension`.
pub fn classify(path: &Path, head: &[u8; SNIFF_BYTES]) -> (r: PreviewKind)
    ensures
        r == kind_for(
            lower_seq(
                match extension_of(path) {
                    Some(e) => e,
                    None => ""@,
                },
            ),
            head@,
        ),
{
    let ext = match path_extension(path) {
        Some(e) => e,
        None => "",
    };
    classify_extension(ext, head)
}

// --- View mode and load lifecycle ---------------------------------------------

/// Local render mode: `View` (rendered/scrolled) or `Edit` (raw source).
#[derive(Debug, Clone, Copy, PartialEq, Eq, Structural)]
pub enum ViewMode {
    View,
    Edit,
}

impl Default for ViewMode {
    fn default() -> (r: Self)
        ensures
            r == ViewMode::View,
    {
        ViewMode::View
    }
}

/// The view mode a requested intent settles to for a loaded body: `Edit`
/// only where the Preview/Edit toggle is offered, `View` otherwise.
pub fn intent_view_mode(intent: PreviewIntent, kind: PreviewKind, truncated: bool) -> (r: ViewMode)
    ensures
        r == (if intent == PreviewIntent::Edit && kind == PreviewKind::Markdown && !truncated {
            ViewMode::Edit
        } else {
            ViewMode::View
        }),
        r == ViewMode::Edit ==> is_editable_spec(kind, truncated),
{
    let can_edit = can_toggle_edit(kind, truncated);
    match intent {
        PreviewIntent::Edit => if can_edit {
            ViewMode::Edit
        } else {
            ViewMode::View
        },
        PreviewIntent::View => ViewMode::View,
    }
}

/// `is_editable` as a predicate.
pub open spec fn is_editable_spec(kind: PreviewKind, truncated: bool) -> bool {
    (kind == PreviewKind::Text || kind == PreviewKind::Markdown) && !truncated
}

/// May the view mode change to `requested`? Leaving `Edit` for `View` with
/// unsaved edits is refused (no silent loss); everything else is allowed.
pub fn may_set_view_mode(requested: ViewMode, current: ViewMode, dirty: bool) -> (r: bool)
    ensures
        r == !(requested == ViewMode::View && current == ViewMode::Edit && dirty),
{
    !(requested == ViewMode::View && current == ViewMode::Edit && dirty)
}

/// The editor's save bookkeeping: a write in flight, unsaved edits, and the
/// outcome of the last write (`(true, "")` on success, `(false, message)`
/// on failure).
#[derive(Debug, Clone, PartialEq, Eq)]
pub struct SaveStatus {
    pub saving: bool,
    pub dirty: bool,
    pub result: Option<(bool, String)>,
}

impl SaveStatus {
    /// Nothing edited, nothing saved yet.
    pub fn new() -> (r: SaveStatus)
        ensures
            !r.saving,
            !r.dirty,
            r.result is None,
    {
        SaveStatus { saving: false, dirty: false, result: None }
    }

    /// A save request: starts a write (clearing the last outcome) only when
    /// none is in flight, a file is loaded and the editor exists; otherwise
    /// nothing changes. `true` when the caller must write the buffer.
    pub fn begin(&mut self, loaded: bool, has_editor: bool) -> (r: bool)
        ensures
            r == (!old(self).saving && loaded && has_editor),
            r ==> final(self).saving && final(self).result is None && final(self).dirty
                == old(self).dirty,
            !r ==> *final(self) == *old(self),
    {
        if self.saving || !loaded || !has_editor {
            return false;
        }
        self.saving = true;
        self.result = None;
        true
    }

    /// The save button is live only with unsaved edits and no write in
    /// flight.
    pub fn can_save(&self) -> (r: bool)
        ensures
            r == (self.dirty && !self.saving),
    {
        self.dirty && !self.saving
    }

    /// The save button's label: "Saving…" during a write, "Save" with
    /// unsaved edits, "Saved" otherwise.
    pub fn save_label(&self) -> (r: &'static str)
        ensures
            r@ == (if self.saving {
                "Saving…"@
            } else if self.dirty {
                "Save"@
            } else {
                "Saved"@
            }),
    {
        if self.saving {
            "Saving…"
        } else if self.dirty {
            "Save"
        } else {
            "Saved"
        }
    }

    /// The write finished: success clears the unsaved mark, failure keeps it
    /// and records the message.
    pub fn finish(&mut self, outcome: Result<(), String>)
        ensures
            !final(self).saving,
            match outcome {
                Ok(()) => !final(self).dirty && (final(self).result matches Some((ok, msg)) && ok
                    && msg@ == Seq::<char>::empty()),
                Err(m) => final(self).dirty == old(self).dirty && final(self).result == Some((false, m)),
            },
    {
        self.saving = false;
        match outcome {
            Ok(()) => {
                self.dirty = false;
                self.result = Some((true, String::new()));
            },
            Err(message) => {
                self.result = Some((false, message));
            },
        }
    }
}

/// Label of a kind in the preview header.
pub fn kind_label(kind: PreviewKind) -> (r: &'static str)
    ensures
        r@ == match kind {
            PreviewKind::Image => "image"@,
            PreviewKind::Markdown => "markdown"@,
            PreviewKind::Text => "text"@,
            PreviewKind::WebPreview => "web (unavailable)"@,
            PreviewKind::Unsupported => "unsupported"@,
        },
{
    match kind {
        PreviewKind::Image => "image",
        PreviewKind::Markdown => "markdown",
        PreviewKind::Text => "text",
        PreviewKind::WebPreview => "web (unavailable)",
        PreviewKind::Unsupported => "unsupported",
    }
}

/// Lifecycle of the loaded file. `generation` is the matching
/// `PreviewTarget::generation`; stale results compare against it.
pub enum State {
    Empty,
    Loading { generation: u64, path: PathBuf },
    Loaded {
        generation: u64,
        path: PathBuf,
        kind: PreviewKind,
        size_bytes: u64,
        /// `Some` only for Markdown/Text — read up to the cap.
        text: Option<String>,
        truncated: bool,
    },
    Error { generation: u64, message: String },
}

impl State {
    /// The generation a state belongs to; `0` when empty.
    pub fn generation(&self) -> (r: u64)
        ensures
            r == match self {
                State::Empty => 0,
                State::Loading { generation, .. } => *generation,
                State::Loaded { generation, .. } => *generation,
                State::Error { generation, .. } => *generation,
            },
    {
        match self {
            State::Empty => 0,
            State::Loading { generation, .. } => *generation,
            State::Loaded { generation, .. } => *generation,
            State::Error { generation, .. } => *generation,
        }
    }
}

/// How much of a file the preview reads as text.
#[derive(Debug, Clone, Copy, PartialEq, Eq)]
pub enum TextRead {
    /// Not a text kind: no body is read.
    Skip,
    /// The whole file.
    All,
    /// The first `TEXT_CAP_BYTES` only; the body is marked truncated.
    Capped,
}

/// Markdown and text bodies are read whole up to the cap, and cut to the
/// cap past it; other kinds are not read.
pub fn text_read_plan(kind: PreviewKind, size_bytes: u64) -> (r: TextRead)
    ensures
        r == (if kind == PreviewKind::Markdown || kind == PreviewKind::Text {
            if size_bytes > TEXT_CAP_BYTES {
                TextRead::Capped
            } else {
                TextRead::All
            }
        } else {
            TextRead::Skip
        }),
{
    match kind {
        PreviewKind::Markdown | PreviewKind::Text => if size_bytes > TEXT_CAP_BYTES {
            TextRead::Capped
        } else {
            TextRead::All
        },
        _ => TextRead::Skip,
    }
}

/// The generation of a state, as `State::generation` returns it.
pub open spec fn state_generation(state: State) -> u64 {
    match state {
        State::Empty => 0,
        State::Loading { generation, .. } => generation,
        State::Loaded { generation, .. } => generation,
        State::Error { generation, .. } => generation,
    }
}

/// The view mode an intent settles to, as `intent_view_mode` returns it.
pub open spec fn intent_mode(intent: PreviewIntent, kind: PreviewKind, truncated: bool) -> ViewMode {
    if intent == PreviewIntent::Edit && kind == PreviewKind::Markdown && !truncated {
        ViewMode::Edit
    } else {
        ViewMode::View
    }
}

/// A file read for preview.
pub struct Loaded {
    pub path: PathBuf,
    pub kind: PreviewKind,
    pub size_bytes: u64,
    /// `Some` only for Markdown/Text — read up to the cap.
    pub text: Option<String>,
    pub truncated: bool,
}

/// What a change of the preview target asks of the tab.
#[derive(Debug, Clone, Copy, PartialEq, Eq)]
pub enum TargetAction {
    /// No file: the empty state in `View` mode.
    Clear,
    /// The same file is already loaded: only switch to this view mode
    /// (through the unsaved-edits guard), without reading it again.
    SwitchMode(ViewMode),
    /// Read the file: enter `Loading` under the target's generation and keep
    /// the intent for when the read settles.
    Load,
}

/// The action for a target change, given whether the target names a file
/// and whether that file is the one loaded.
pub open spec fn target_action(state: State, has_path: bool, same_path: bool, intent: PreviewIntent) -> TargetAction {
    if !has_path {
        TargetAction::Clear
    } else {
        match state {
            State::Loaded { kind, truncated, .. } => if same_path {
                TargetAction::SwitchMode(intent_mode(intent, kind, truncated))
            } else {
                TargetAction::Load
            },
            _ => TargetAction::Load,
        }
    }
}

/// What `PathBuf`'s `==` answers for two paths: whether they have the same
/// components (`a//b` and `a/b` compare equal).
pub uninterp spec fn same_components(a: PathBuf, b: PathBuf) -> bool;

/// `PathBuf`'s `==`: decided by the two paths alone, and reflexive (the
/// type is `Eq`).
#[verifier::external_body]
fn same_path(a: &PathBuf, b: &PathBuf) -> (r: bool)
    ensures
        r == same_components(*a, *b),
        *a == *b ==> r,
{
    a == b
}

/// Decides a target change from the path comparison's outcome.
pub fn decide_target(state: &State, has_path: bool, same_path: bool, intent: PreviewIntent) -> (r: TargetAction)
    ensures
        r == target_action(*state, has_path, same_path, intent),
{
    if !has_path {
        return TargetAction::Clear;
    }
    match state {
        State::Loaded { kind, truncated, .. } => if same_path {
            TargetAction::SwitchMode(intent_view_mode(intent, *kind, *truncated))
        } else {
            TargetAction::Load
        },
        _ => TargetAction::Load,
    }
}

/// What the tab does when the preview target changes to `path` with
/// `intent`: compares `path` with the loaded one and decides.
pub fn on_target_changed(state: &State, path: Option<&PathBuf>, intent: PreviewIntent) -> (r: TargetAction)
    ensures
        r == target_action(
            *state,
            path is Some,
            match (state, path) {
                (State::Loaded { path: loaded, .. }, Some(p)) => same_components(*loaded, *p),
                _ => false,
            },
            intent,
        ),
        (match (state, path) {
            (State::Loaded { path: loaded, .. }, Some(p)) => *loaded == *p,
            _ => false,
        }) ==> r == target_action(*state, true, true, intent),
{
    let same = match (state, path) {
        (State::Loaded { path: loaded, .. }, Some(p)) => same_path(loaded, p),
        _ => false,
    };
    decide_target(state, path.is_some(), same, intent)
}

/// A background read finished for `generation`. Stale results (the state
/// moved to another generation) are dropped: `None`. Otherwise the new state
/// and view mode: a read file settles to the intent captured when the load
/// started, an error to `View`.
pub fn settle_load(state: &State, generation: u64, outcome: Result<Loaded, String>, pending: PreviewIntent) -> (r:
    Option<(State, ViewMode)>)
    ensures
        state_generation(*state) != generation ==> r is None,
        state_generation(*state) == generation ==> match outcome {
            Ok(l) => r == Some(
                (
                    State::Loaded {
                        generation,
                        path: l.path,
                        kind: l.kind,
                        size_bytes: l.size_bytes,
                        text: l.text,
                        truncated: l.truncated,
                    },
                    intent_mode(pending, l.kind, l.truncated),
                ),
            ),
            Err(m) => r == Some((State::Error { generation, message: m }, ViewMode::View)),
        },
{
    if state.generation() != generation {
        return None;
    }
    match outcome {
        Ok(l) => {
            let mode = intent_view_mode(pending, l.kind, l.truncated);
            Some(
                (
                    State::Loaded {
                        generation,
                        path: l.path,
                        kind: l.kind,
                        size_bytes: l.size_bytes,
                        text: l.text,
                        truncated: l.truncated,
                    },
                    mode,
                ),
            )
        },
        Err(message) => Some((State::Error { generation, message }, ViewMode::View)),
    }
}

// --- Remote-image redaction for markdown previews -----------------------------

/// Image URL category for the markdown rewriter.
#[derive(Debug, PartialEq, Eq)]
pub enum ImageUrlClass {
    /// `http://…`/`https://…`/`ftp://…` — must not be loaded.
    Remote(String),
    /// `data:` URI — inline bytes, no network.
    Data,
    /// `file://`, relative, absolute, or plain — a local image.
    Local(String),
    /// Empty / white space.
    Unsupported(String),
}

/// The class of an image URL, as values.
pub enum UrlClassView {
    Remote(Seq<char>),
    Data,
    Local(Seq<char>),
    Unsupported(Seq<char>),
}

impl View for ImageUrlClass {
    type V = UrlClassView;

    open spec fn view(&self) -> UrlClassView {
        match self {
            ImageUrlClass::Remote(s) => UrlClassView::Remote(s@),
            ImageUrlClass::Data => UrlClassView::Data,
            ImageUrlClass::Local(s) => UrlClassView::Local(s@),
            ImageUrlClass::Unsupported(s) => UrlClassView::Unsupported(s@),
        }
    }
}

/// URL classification: trimmed; empty → unsupported (the raw URL kept);
/// only the scheme is compared case-insensitively, and the rest is kept
/// verbatim (trimmed): remote URLs whole, a `file://` URL as the path after
/// its scheme, anything else as a local path.
pub open spec fn url_class(url: Seq<char>) -> UrlClassView {
    let t = trim_seq(url);
    let lower = lower_seq(t);
    if t.len() == 0 {
        UrlClassView::Unsupported(url)
    } else if has_prefix(lower, "https://"@) || has_prefix(lower, "http://"@) || has_prefix(
        lower,
        "ftp://"@,
    ) {
        UrlClassView::Remote(t)
    } else if has_prefix(lower, "data:"@) {
        UrlClassView::Data
    } else if has_prefix(lower, "file://"@) {
        UrlClassView::Local(tail(t, 7))
    } else {
        UrlClassView::Local(t)
    }
}

/// Classify an image URL.
pub fn classify_image_url(url: &str) -> (r: ImageUrlClass)
    ensures
        r@ == url_class(url@),
{
    let raw = text::chars_of(url);
    let trimmed = text::trim(&raw);
    if trimmed.len() == 0 {
        return ImageUrlClass::Unsupported(text::owned(url));
    }
    let lower = text::lowercase(&trimmed);
    if text::starts_with_str(&lower, "https://") || text::starts_with_str(&lower, "http://")
        || text::starts_with_str(&lower, "ftp://") {
        return ImageUrlClass::Remote(text::string_of(&trimmed));
    }
    if text::starts_with_str(&lower, "data:") {
        return ImageUrlClass::Data;
    }
    if text::starts_with_str(&lower, "file://") {
        let rest = text::suffix_from(&trimmed, 7);
        return ImageUrlClass::Local(text::string_of(&rest));
    }
    ImageUrlClass::Local(text::string_of(&trimmed))
}

/// Number of white-space characters from `i` on.
pub open spec fn ws_run(s: Seq<char>, i: int) -> nat
    decreases s.len() - i,
{
    if 0 <= i < s.len() && text::is_ws(s[i]) {
        1 + ws_run(s, i + 1)
    } else {
        0
    }
}

/// First index `>= i` holding white space or `)`, or the length.
pub open spec fn url_end_from(s: Seq<char>, i: int) -> int
    decreases s.len() - i,
{
    if i < 0 || i >= s.len() {
        s.len() as int
    } else if text::is_ws(s[i]) || s[i] == ')' {
        i
    } else {
        url_end_from(s, i + 1)
    }
}

/// Where `![alt](url` starts at `start`: the index of the `]` closing the
/// alt text and the index ending the URL.
pub open spec fn image_frame(t: Seq<char>, start: int) -> Option<(int, int)> {
    if start < 0 || start + 4 > t.len() || t[start] != '!' || t[start + 1] != '[' {
        None
    } else {
        let a = text::find_from(t, seq![']'], start + 2);
        if a < 0 || a + 1 >= t.len() || t[a + 1] != '(' {
            None
        } else {
            Some((a, url_end_from(t, a + 2)))
        }
    }
}

/// One `![alt](url "title")` at `start`: alt text (no `]`), URL (up to
/// white space or `)`), optional quoted title after white space, and the
/// index past the closing `)`.
pub open spec fn image_at(t: Seq<char>, start: int) -> Option<
    (Seq<char>, Seq<char>, Option<Seq<char>>, int),
> {
    match image_frame(t, start) {
        None => None,
        Some((a, ue)) => {
            let alt = t.subrange(start + 2, a);
            let url = t.subrange(a + 2, ue);
            let blank = ue < t.len() && text::is_ws(t[ue]);
            let c = if blank {
                ue + ws_run(t, ue)
            } else {
                ue
            };
            let after = tail(t, c);
            let quoted = blank && after.len() >= 2 && after[0] == '"';
            let close = text::find_from(after, seq!['"'], 1);
            if quoted && close < 0 {
                None
            } else {
                let title = if quoted {
                    Some(after.subrange(1, close))
                } else {
                    None
                };
                let cursor = if quoted {
                    c + close + 1
                } else {
                    c
                };
                if cursor < t.len() && t[cursor] == ')' {
                    Some((alt, url, title, cursor + 1))
                } else {
                    None
                }
            }
        },
    }
}

/// A URL cut to `max` characters, with `…` when something was cut.
pub open spec fn truncated(s: Seq<char>, max: nat) -> Seq<char> {
    if s.len() <= max {
        s
    } else {
        s.take(max as int) + "…"@
    }
}

/// The plain-text marker that replaces a remote image.
pub open spec fn remote_marker(alt: Seq<char>, url: Seq<char>, title: Option<Seq<char>>) -> Seq<
    char,
> {
    "[🛰 "@ + alt + " — remote image, not loaded: "@ + truncated(url, 80) + match title {
        Some(t) => " (title: \""@ + t + "\")"@,
        None => Seq::empty(),
    } + "]"@
}

/// Redaction of `t` from `i`: remote images become markers, everything else
/// is copied (`None` only where a match would not advance, which
/// `lemma_redact_total` rules out).
pub open spec fn redact_from(t: Seq<char>, i: int) -> Option<Seq<char>>
    decreases t.len() - i,
{
    if i < 0 || i >= t.len() {
        Some(Seq::empty())
    } else {
        match image_at(t, i) {
            Some((alt, url, title, end)) => {
                if end <= i {
                    None
                } else {
                    let piece = match url_class(url) {
                        UrlClassView::Remote(raw) => remote_marker(alt, raw, title),
                        _ => t.subrange(i, end),
                    };
                    match redact_from(t, end) {
                        Some(rest) => Some(piece + rest),
                        None => None,
                    }
                }
            },
            None => match redact_from(t, i + 1) {
                Some(rest) => Some(seq![t[i]] + rest),
                None => None,
            },
        }
    }
}

/// A matched image, as pieces of the scanned text.
struct ImageMatch {
    alt: Vec<char>,
    url: Vec<char>,
    title: Option<Vec<char>>,
    end: usize,
}

/// Match `![alt](url ["title"])` at `start`.
fn match_image_at(t: &Vec<char>, start: usize) -> (r: Option<ImageMatch>)
    ensures
        match r {
            Some(m) => image_at(t@, start as int) == Some(
                (m.alt@, m.url@, if m.title is Some { Some(m.title->0@) } else { None }, m.end as int),
            ),
            None => image_at(t@, start as int) is None,
        },
{
    let n = t.len();
    if start > n || n - start < 4 || t[start] != '!' || t[start + 1] != '[' {
        return None;
    }
    let close = vec![']'];
    assert(close@ =~= seq![']']);
    let a = match text::find_pat(t, &close, start + 2) {
        Some(a) => a,
        None => {
            return None;
        },
    };
    proof {
        text::lemma_find_from_range(t@, close@, start + 2);
    }
    if a + 1 >= n || t[a + 1] != '(' {
        return None;
    }
    let url_start = a + 2;
    let mut ue = url_start;
    while ue < n && !(text::is_whitespace(t[ue]) || t[ue] == ')')
        invariant
            url_start <= ue <= n,
            n == t.len(),
            url_end_from(t@, url_start as int) == url_end_from(t@, ue as int),
        decreases n - ue,
    {
        ue = ue + 1;
    }
    let alt = text::slice(t, start + 2, a);
    let url = text::slice(t, url_start, ue);
    let mut cursor = ue;
    let mut title: Option<Vec<char>> = None;
    if ue < n && text::is_whitespace(t[ue]) {
        // Skip the blank run, character by character.
        let mut w: usize = 0;
        while ue + w < n && text::is_whitespace(t[ue + w])
            invariant
                ue < n,
                n == t.len(),
                ue + w <= n,
                ws_run(t@, ue as int) == w + ws_run(t@, ue + w),
            decreases n - ue - w,
        {
            w = w + 1;
        }
        assert(ws_run(t@, ue + w) == 0);
        cursor = ue + w;
        let after = text::suffix_from(t, cursor);
        if after.len() >= 2 && after[0] == '"' {
            let q = vec!['"'];
            assert(q@ =~= seq!['"']);
            let close_rel = match text::find_pat(&after, &q, 1) {
                Some(c) => c,
                None => {
                    return None;
                },
            };
            proof {
                text::lemma_find_from_range(after@, q@, 1);
            }
            title = Some(text::slice(&after, 1, close_rel));
            cursor = cursor + close_rel + 1;
        }
    }
    if cursor < n && t[cursor] == ')' {
        Some(ImageMatch { alt, url, title, end: cursor + 1 })
    } else {
        None
    }
}

/// Cut a URL to `max_chars` characters, adding `…` when cut.
fn truncate_for_marker(s: &Vec<char>, max_chars: usize) -> (r: Vec<char>)
    ensures
        r@ == truncated(s@, max_chars as nat),
{
    if s.len() <= max_chars {
        text::slice(s, 0, s.len())
    } else {
        let mut kept = text::slice(s, 0, max_chars);
        text::extend_str(&mut kept, "…");
        kept
    }
}

fn push_marker(out: &mut Vec<char>, alt: &Vec<char>, raw: &Vec<char>, title: &Option<Vec<char>>)
    ensures
        final(out)@ == old(out)@ + remote_marker(
            alt@,
            raw@,
            if title is Some { Some(title->0@) } else { None },
        ),
{
    let disp = truncate_for_marker(raw, 80);
    text::extend_str(out, "[🛰 ");
    text::extend(out, alt);
    text::extend_str(out, " — remote image, not loaded: ");
    text::extend(out, &disp);
    match title {
        Some(t) => {
            text::extend_str(out, " (title: \"");
            text::extend(out, t);
            text::extend_str(out, "\")");
        },
        None => {},
    }
    text::extend_str(out, "]");
    proof {
        let tv: Option<Seq<char>> = if title is Some { Some(title->0@) } else { None };
        assert(final(out)@ =~= old(out)@ + remote_marker(alt@, raw@, tv));
    }
}

/// Rewrite every `![alt](remote-url) ["title"]` to a plain-text marker
/// `[🛰 {alt} — remote image, not loaded: {url}]` (plus the title); local,
/// data and `file://` images pass through.
pub fn redact_remote_images(text: &str) -> (r: String)
    ensures
        redact_from(text@, 0) is Some,
        r@ == redact_from(text@, 0)->0,
{
    let t = text::chars_of(text);
    proof {
        lemma_redact_total(t@, 0);
    }
    let n = t.len();
    let mut out: Vec<char> = Vec::new();
    let mut i: usize = 0;
    while i < n
        invariant
            i <= n,
            n == t.len(),
            t@ == text@,
            redact_from(t@, i as int) is Some,
            redact_from(t@, 0) == Some(out@ + redact_from(t@, i as int)->0),
        decreases n - i,
    {
        let ghost rest_here = redact_from(t@, i as int)->0;
        match match_image_at(&t, i) {
            Some(m) => {
                let ghost mt: Option<Seq<char>> = if m.title is Some { Some(m.title->0@) } else { None };
                let url_str = text::string_of(&m.url);
                match classify_image_url(url_str.as_str()) {
                    ImageUrlClass::Remote(raw) => {
                        let rawv = text::chars_of(raw.as_str());
                        push_marker(&mut out, &m.alt, &rawv, &m.title);
                    },
                    _ => {
                        let src = text::slice(&t, i, m.end);
                        text::extend(&mut out, &src);
                    },
                }
                i = m.end;
            },
            None => {
                out.push(t[i]);
                i = i + 1;
            },
        }
        proof {
            lemma_redact_total(t@, i as int);
        }
    }
    text::string_of(&out)
}

/// Index past the image matched at `start`.
pub open spec fn image_end(t: Seq<char>, start: int) -> int {
    match image_at(t, start) {
        Some((alt, url, title, end)) => end,
        None => start,
    }
}

/// URL of the image matched at `start`.
pub open spec fn image_url(t: Seq<char>, start: int) -> Seq<char> {
    match image_at(t, start) {
        Some((alt, url, title, end)) => url,
        None => Seq::empty(),
    }
}

/// A matched image ends past its start.
pub proof fn lemma_image_end(t: Seq<char>, start: int)
    requires
        image_at(t, start) is Some,
    ensures
        start < image_end(t, start) <= t.len(),
{
    let (a, ue) = image_frame(t, start)->0;
    text::lemma_find_from_range(t, seq![']'], start + 2);
    assert(ue >= a + 2) by {
        lemma_url_end_from(t, a + 2);
    }
}

/// A URL ends at or after where it starts, and never past the text.
pub proof fn lemma_url_end_from(s: Seq<char>, i: int)
    requires
        0 <= i,
    ensures
        i <= url_end_from(s, i) <= s.len() || (i > s.len() && url_end_from(s, i) == s.len()),
    decreases s.len() - i,
{
    if i < s.len() && !(text::is_ws(s[i]) || s[i] == ')') {
        lemma_url_end_from(s, i + 1);
    }
}

/// Text whose images are all local, data or unsupported passes through
/// redaction unchanged.
pub proof fn lemma_redact_keeps_non_remote(t: Seq<char>, i: int)
    requires
        0 <= i <= t.len(),
        forall|k: int|
            i <= k < t.len() && #[trigger] image_at(t, k) is Some ==> !(url_class(image_url(t, k)) is Remote),
    ensures
        redact_from(t, i) == Some(t.subrange(i, t.len() as int)),
    decreases t.len() - i,
{
    if i < t.len() {
        match image_at(t, i) {
            Some((alt, url, title, end)) => {
                lemma_image_end(t, i);
                lemma_redact_keeps_non_remote(t, end);
                assert(t.subrange(i, end) + t.subrange(end, t.len() as int) =~= t.subrange(
                    i,
                    t.len() as int,
                ));
            },
            None => {
                lemma_redact_keeps_non_remote(t, i + 1);
                assert(seq![t[i]] + t.subrange(i + 1, t.len() as int) =~= t.subrange(
                    i,
                    t.len() as int,
                ));
            },
        }
    } else {
        assert(t.subrange(i, t.len() as int) =~= Seq::<char>::empty());
    }
}

/// Redaction is defined on every text: each step either copies one
/// character or moves past a whole image.
pub proof fn lemma_redact_total(t: Seq<char>, i: int)
    ensures
        redact_from(t, i) is Some,
    decreases t.len() - i,
{
    if 0 <= i < t.len() {
        match image_at(t, i) {
            Some((alt, url, title, end)) => {
                lemma_image_end(t, i);
                lemma_redact_total(t, end);
            },
            None => {
                lemma_redact_total(t, i + 1);
            },
        }
    }
}

proof fn lemma_all_text_bytes(head: Seq<u8>)
    requires
        forall|i: int|
            0 <= i < head.len() ==> #[trigger] head[i] >= 0x80 || head[i] == 9 || head[i] == 10
                || head[i] == 13 || (0x20 <= head[i] && head[i] <= 0x7e),
    ensures
        text_bytes(head) == head.len(),
    decreases head.len(),
{
    if head.len() > 0 {
        let d = head.drop_last();
        assert forall|i: int| 0 <= i < d.len() implies #[trigger] d[i] >= 0x80 || d[i] == 9 || d[i]
            == 10 || d[i] == 13 || (0x20 <= d[i] && d[i] <= 0x7e) by {
            assert(d[i] == head[i]);
        }
        lemma_all_text_bytes(d);
        assert(head.last() == head[head.len() - 1]);
    }
}

/// A head probe made only of bytes that occur in text — tab, newline,
/// carriage return, printable ASCII, and any byte >= 0x80 (the bytes of
/// multi-byte UTF-8 sequences, so non-ASCII text such as Cyrillic) — looks
/// like text, and the file is never classified as unsupported, whatever
/// its extension.
pub proof fn lemma_text_probe_is_text(ext: Seq<char>, head: Seq<u8>)
    requires
        head.len() == SNIFF_BYTES,
        forall|i: int|
            0 <= i < head.len() ==> #[trigger] head[i] >= 0x80 || head[i] == 9 || head[i] == 10
                || head[i] == 13 || (0x20 <= head[i] && head[i] <= 0x7e),
    ensures
        looks_like_text_spec(head),
        kind_for(ext, head) != PreviewKind::Unsupported,
{
    lemma_all_text_bytes(head);
    assert(head[0] != 0);
}

/// An all-zero probe (an empty or zero-filled file) never looks like
/// text.
pub proof fn lemma_zero_probe_not_text(head: Seq<u8>)
    requires
        forall|i: int| 0 <= i < head.len() ==> head[i] == 0,
    ensures
        !looks_like_text_spec(head),
{
}

} // verus!
