//! Finding descriptors: a depth-first walk through a directory tree that
//! reads every regular file whose name marks it as a descriptor, and
//! passes by symbolic links.
//!
//! The scanner decides and the caller touches the file system.
//! `Scanner::request` says what is needed next (a directory to open, the
//! next entry of the directory that is being listed, the text of a
//! file); the caller supplies it with `Scanner::supply`. The first
//! directory or file that cannot be read, and the first descriptor that
//! is malformed, ends the scan.

use vstd::prelude::*;
use crate::descriptor::{descriptor_of, parse_descriptor};
use crate::json::parsed;
use crate::model::{example_views, opt_text, ExampleSpec, ExampleView};
use crate::text::{chars_of, ends_with, is_suffix};

verus! {

/// What the name of a descriptor file ends with.
pub open spec fn descriptor_suffix() -> Seq<char> {
    ".score.json"@
}

/// Whether a file of this name is a descriptor: its name ends with
/// `.score.json`.
pub fn is_score_file(file_name: &str) -> (b: bool)
    ensures
        b == is_suffix(descriptor_suffix(), file_name@),
{
    let name = chars_of(file_name);
    let suffix = chars_of(".score.json");
    ends_with(&name, &suffix)
}

/// One entry of a directory, as the caller found it.
#[derive(Debug, Clone)]
pub struct DirEntry {
    /// The path of the entry.
    pub path: String,
    /// The last component of the path, where it has one that is text.
    pub file_name: Option<String>,
    /// Whether the entry itself is a symbolic link.
    pub is_symlink: bool,
    /// Whether the entry is a directory. Not looked at where the entry
    /// is a symbolic link.
    pub is_dir: bool,
}

/// What a `DirEntry` stands for.
pub ghost struct DirEntryView {
    pub path: Seq<char>,
    pub file_name: Option<Seq<char>>,
    pub is_symlink: bool,
    pub is_dir: bool,
}

impl View for DirEntry {
    type V = DirEntryView;

    open spec fn view(&self) -> DirEntryView {
        DirEntryView {
            path: self.path@,
            file_name: opt_text(self.file_name),
            is_symlink: self.is_symlink,
            is_dir: self.is_dir,
        }
    }
}

/// What the scan does with an entry.
#[derive(Debug, Clone, Copy, PartialEq, Eq, Structural)]
pub enum EntryKind {
    /// Passed by.
    Skip,
    /// A directory that is walked through.
    Descend,
    /// A descriptor that is read.
    Parse,
}

/// What the scan does with an entry: a symbolic link is passed by,
/// whatever it points to; any other directory is walked through; any
/// other entry is read if its name is that of a descriptor, and passed
/// by if not.
pub open spec fn kind_of(entry: DirEntryView) -> EntryKind {
    if entry.is_symlink {
        EntryKind::Skip
    } else if entry.is_dir {
        EntryKind::Descend
    } else if entry.file_name is Some && is_suffix(descriptor_suffix(), entry.file_name->Some_0) {
        EntryKind::Parse
    } else {
        EntryKind::Skip
    }
}

/// What the scan does with `entry`.
pub fn classify_entry(entry: &DirEntry) -> (kind: EntryKind)
    ensures
        kind == kind_of(entry@),
{
    if entry.is_symlink {
        EntryKind::Skip
    } else if entry.is_dir {
        EntryKind::Descend
    } else {
        match &entry.file_name {
            Some(name) => if is_score_file(name.as_str()) {
                EntryKind::Parse
            } else {
                EntryKind::Skip
            },
            None => EntryKind::Skip,
        }
    }
}

/// Why a scan failed.
#[derive(Debug, Clone)]
pub enum LoadError {
    /// The directory at `path` could not be listed.
    DirectoryUnreadable { path: String },
    /// The file at `path` could not be read as text.
    FileUnreadable { path: String },
    /// The file at `path` does not describe examples.
    MalformedDescriptor { path: String, detail: String },
}

/// What a `LoadError` stands for.
pub ghost enum LoadErrorView {
    DirectoryUnreadable { path: Seq<char> },
    FileUnreadable { path: Seq<char> },
    MalformedDescriptor { path: Seq<char>, detail: Seq<char> },
}

impl View for LoadError {
    type V = LoadErrorView;

    open spec fn view(&self) -> LoadErrorView {
        match self {
            LoadError::DirectoryUnreadable { path } => LoadErrorView::DirectoryUnreadable {
                path: path@,
            },
            LoadError::FileUnreadable { path } => LoadErrorView::FileUnreadable { path: path@ },
            LoadError::MalformedDescriptor { path, detail } => LoadErrorView::MalformedDescriptor {
                path: path@,
                detail: detail@,
            },
        }
    }
}

/// What the scanner needs next.
#[derive(Debug)]
pub enum Request<'a> {
    /// Open the directory at `path` for listing.
    OpenDir { path: &'a String },
    /// Give the next entry of the directory at `dir`, the one that was
    /// opened last and is not yet at its end.
    NextEntry { dir: &'a String },
    /// Give the text of the file at `path`.
    ReadFile { path: &'a String },
    /// The scan is complete.
    Done,
    /// The scan has failed.
    Failed(&'a LoadError),
}

/// What a `Request` stands for.
pub ghost enum RequestView {
    OpenDir { path: Seq<char> },
    NextEntry { dir: Seq<char> },
    ReadFile { path: Seq<char> },
    Done,
    Failed(LoadErrorView),
}

impl<'a> View for Request<'a> {
    type V = RequestView;

    open spec fn view(&self) -> RequestView {
        match self {
            Request::OpenDir { path } => RequestView::OpenDir { path: path@ },
            Request::NextEntry { dir } => RequestView::NextEntry { dir: dir@ },
            Request::ReadFile { path } => RequestView::ReadFile { path: path@ },
            Request::Done => RequestView::Done,
            Request::Failed(e) => RequestView::Failed(e@),
        }
    }
}

/// What the caller supplies.
#[derive(Debug, Clone)]
pub enum Answer {
    /// The directory is open.
    Opened,
    /// The directory cannot be opened.
    OpenFailed,
    /// The next entry of the directory.
    Entry(DirEntry),
    /// The directory has no further entry.
    EndOfDir,
    /// The next entry of the directory cannot be had.
    EntryFailed,
    /// The text of the file.
    Text(String),
    /// The file cannot be read as text.
    ReadFailed,
}

/// What an `Answer` stands for.
pub ghost enum AnswerView {
    Opened,
    OpenFailed,
    Entry(DirEntryView),
    EndOfDir,
    EntryFailed,
    Text(Seq<char>),
    ReadFailed,
}

impl View for Answer {
    type V = AnswerView;

    open spec fn view(&self) -> AnswerView {
        match self {
            Answer::Opened => AnswerView::Opened,
            Answer::OpenFailed => AnswerView::OpenFailed,
            Answer::Entry(e) => AnswerView::Entry(e@),
            Answer::EndOfDir => AnswerView::EndOfDir,
            Answer::EntryFailed => AnswerView::EntryFailed,
            Answer::Text(t) => AnswerView::Text(t@),
            Answer::ReadFailed => AnswerView::ReadFailed,
        }
    }
}

/// What a scan waits for.
pub ghost enum Pending {
    /// The directory at this path is to be opened.
    Open(Seq<char>),
    /// The next entry of the innermost open directory is to be given.
    Entry,
    /// The text of the file at this path is to be given.
    Text(Seq<char>),
    /// Nothing: the scan is complete.
    Done,
    /// Nothing: the scan has failed.
    Failed(LoadErrorView),
}

/// How far a scan has come.
pub ghost struct ScanState {
    /// The directories that are being listed, the outermost first.
    pub open: Seq<Seq<char>>,
    /// What the scan waits for.
    pub pending: Pending,
    /// The examples found so far, in the order they were found.
    pub found: Seq<ExampleView>,
}

/// The state in which the scan of the tree under `root` begins.
pub open spec fn begin(root: Seq<char>) -> ScanState {
    ScanState { open: Seq::empty(), pending: Pending::Open(root), found: Seq::empty() }
}

/// A state that a scan can be in: entries and files are asked for only
/// while a directory is open.
pub open spec fn sound(s: ScanState) -> bool {
    s.pending is Entry || s.pending is Text ==> s.open.len() > 0
}

/// What the scan needs in state `s`.
pub open spec fn request_of(s: ScanState) -> RequestView {
    match s.pending {
        Pending::Open(path) => RequestView::OpenDir { path },
        Pending::Entry => RequestView::NextEntry { dir: s.open.last() },
        Pending::Text(path) => RequestView::ReadFile { path },
        Pending::Done => RequestView::Done,
        Pending::Failed(e) => RequestView::Failed(e),
    }
}

/// The state after `answer` was supplied in state `s`. An answer to a
/// question that was not asked changes nothing.
pub open spec fn supply_of(s: ScanState, answer: AnswerView) -> ScanState {
    match (s.pending, answer) {
        (Pending::Open(path), AnswerView::Opened) => ScanState {
            open: s.open.push(path),
            pending: Pending::Entry,
            ..s
        },
        (Pending::Open(path), AnswerView::OpenFailed) => ScanState {
            pending: Pending::Failed(LoadErrorView::DirectoryUnreadable { path }),
            ..s
        },
        (Pending::Entry, AnswerView::Entry(entry)) => match kind_of(entry) {
            EntryKind::Skip => s,
            EntryKind::Descend => ScanState { pending: Pending::Open(entry.path), ..s },
            EntryKind::Parse => ScanState { pending: Pending::Text(entry.path), ..s },
        },
        (Pending::Entry, AnswerView::EndOfDir) => ScanState {
            open: s.open.drop_last(),
            pending: if s.open.len() > 1 {
                Pending::Entry
            } else {
                Pending::Done
            },
            ..s
        },
        (Pending::Entry, AnswerView::EntryFailed) => ScanState {
            pending: Pending::Failed(LoadErrorView::DirectoryUnreadable { path: s.open.last() }),
            ..s
        },
        (Pending::Text(path), AnswerView::Text(text)) => match descriptor_of(parsed(text)) {
            Ok(examples) => ScanState { pending: Pending::Entry, found: s.found + examples, ..s },
            Err(detail) => ScanState {
                pending: Pending::Failed(LoadErrorView::MalformedDescriptor { path, detail }),
                ..s
            },
        },
        (Pending::Text(path), AnswerView::ReadFailed) => ScanState {
            pending: Pending::Failed(LoadErrorView::FileUnreadable { path }),
            ..s
        },
        _ => s,
    }
}

/// The state after each of `answers` was supplied in turn, from `s`.
pub open spec fn scan(s: ScanState, answers: Seq<AnswerView>) -> ScanState
    decreases answers.len(),
{
    if answers.len() == 0 {
        s
    } else {
        supply_of(scan(s, answers.drop_last()), answers.last())
    }
}

/// The answer holds an entry that is read as a descriptor.
pub open spec fn offers_descriptor(answer: AnswerView) -> bool {
    answer is Entry && kind_of(answer->Entry_0) == EntryKind::Parse
}

/// A symbolic link is never a descriptor and never a directory to walk
/// through, whatever its name and whatever it points to: an entry that
/// is one leaves the scan exactly where it was.
pub proof fn lemma_symlink_passed_by(s: ScanState, entry: DirEntryView)
    requires
        entry.is_symlink,
    ensures
        kind_of(entry) == EntryKind::Skip,
        supply_of(s, AnswerView::Entry(entry)) == s,
{
}

/// An answer keeps a state sound.
pub proof fn lemma_supply_sound(s: ScanState, answer: AnswerView)
    requires
        sound(s),
    ensures
        sound(supply_of(s, answer)),
{
}

/// What was found stays found, in its place: an answer only ever adds
/// examples at the end, and only the text of a descriptor adds any.
pub proof fn lemma_found_grows(s: ScanState, answer: AnswerView)
    ensures
        supply_of(s, answer).found.len() >= s.found.len(),
        supply_of(s, answer).found.take(s.found.len() as int) == s.found,
        !(s.pending is Text && answer is Text) ==> supply_of(s, answer).found == s.found,
{
    assert(s.found.take(s.found.len() as int) == s.found);
    if s.pending is Text && answer is Text {
        match descriptor_of(parsed(answer->Text_0)) {
            Ok(examples) => {
                assert((s.found + examples).take(s.found.len() as int) == s.found);
            },
            Err(_) => {},
        }
    }
}

/// The text of a descriptor adds exactly the examples of its document,
/// in the order of the document.
pub proof fn lemma_text_adds_document(s: ScanState, path: Seq<char>, text: Seq<char>)
    requires
        s.pending == Pending::Text(path),
        descriptor_of(parsed(text)) is Ok,
    ensures
        supply_of(s, AnswerView::Text(text)).found == s.found + descriptor_of(parsed(text))->Ok_0,
        supply_of(s, AnswerView::Text(text)).pending is Entry,
{
}

/// A tree without descriptors yields no examples and no error of a
/// file: if none of the entries that the caller supplies is a
/// descriptor, the scan never asks for the text of a file, finds
/// nothing, and can fail only for a directory that cannot be listed.
pub proof fn lemma_no_descriptors_nothing_found(root: Seq<char>, answers: Seq<AnswerView>)
    requires
        forall|i: int| 0 <= i < answers.len() ==> !offers_descriptor(#[trigger] answers[i]),
    ensures
        scan(begin(root), answers).found.len() == 0,
        !(scan(begin(root), answers).pending is Text),
        scan(begin(root), answers).pending is Failed ==> scan(
            begin(root),
            answers,
        ).pending->Failed_0 is DirectoryUnreadable,
    decreases answers.len(),
{
    if answers.len() > 0 {
        assert forall|i: int| 0 <= i < answers.drop_last().len() implies !offers_descriptor(
            #[trigger] answers.drop_last()[i],
        ) by {
            assert(answers.drop_last()[i] == answers[i]);
        }
        lemma_no_descriptors_nothing_found(root, answers.drop_last());
        assert(!offers_descriptor(answers[answers.len() - 1]));
    }
}

/// A complete or failed scan stays as it is, whatever is supplied.
pub proof fn lemma_scan_end_is_final(s: ScanState, answers: Seq<AnswerView>)
    requires
        s.pending is Done || s.pending is Failed,
    ensures
        scan(s, answers) == s,
    decreases answers.len(),
{
    if answers.len() > 0 {
        lemma_scan_end_is_final(s, answers.drop_last());
    }
}

/// What the scanner waits for, as the scanner keeps it.
enum Waiting {
    Open(String),
    Entry,
    Text(String),
    Done,
    Failed(LoadError),
}

/// A scan in progress.
pub struct Scanner {
    open: Vec<String>,
    waiting: Waiting,
    found: Vec<ExampleSpec>,
}

impl Scanner {
    /// How far the scan has come.
    pub closed spec fn state(&self) -> ScanState {
        ScanState {
            open: self.open@.map_values(|p: String| p@),
            pending: match self.waiting {
                Waiting::Open(path) => Pending::Open(path@),
                Waiting::Entry => Pending::Entry,
                Waiting::Text(path) => Pending::Text(path@),
                Waiting::Done => Pending::Done,
                Waiting::Failed(e) => Pending::Failed(e@),
            },
            found: example_views(self.found@),
        }
    }

    #[verifier::type_invariant]
    spec fn well_formed(&self) -> bool {
        sound(self.state())
    }

    /// A scan of the tree under `root` that has not begun.
    pub fn new(root: String) -> (r: Scanner)
        ensures
            r.state() == begin(root@),
    {
        let r = Scanner { open: Vec::new(), waiting: Waiting::Open(root), found: Vec::new() };
        assert(r.state().open =~= Seq::<Seq<char>>::empty());
        assert(r.state().found =~= Seq::<ExampleView>::empty());
        r
    }

    /// What the scanner needs next.
    pub fn request(&self) -> (r: Request<'_>)
        ensures
            r@ == request_of(self.state()),
            sound(self.state()),
    {
        proof {
            use_type_invariant(self);
        }
        match &self.waiting {
            Waiting::Open(path) => Request::OpenDir { path },
            Waiting::Entry => {
                assert(self.open@.map_values(|p: String| p@).last() == self.open@.last()@);
                Request::NextEntry { dir: &self.open[self.open.len() - 1] }
            },
            Waiting::Text(path) => Request::ReadFile { path },
            Waiting::Done => Request::Done,
            Waiting::Failed(e) => Request::Failed(e),
        }
    }

    /// Takes what the caller supplies. An answer to a question that was
    /// not asked changes nothing.
    pub fn supply(&mut self, answer: Answer)
        ensures
            final(self).state() == supply_of(old(self).state(), answer@),
    {
        proof {
            use_type_invariant(&*self);
        }
        let ghost before = self.state();
        let mut taken = Scanner { open: Vec::new(), waiting: Waiting::Done, found: Vec::new() };
        std::mem::swap(self, &mut taken);
        let Scanner { mut open, waiting, mut found } = taken;
        let ghost had = found@;
        let next = match (waiting, answer) {
            (Waiting::Open(path), Answer::Opened) => {
                open.push(path);
                Waiting::Entry
            },
            (Waiting::Open(path), Answer::OpenFailed) => Waiting::Failed(
                LoadError::DirectoryUnreadable { path },
            ),
            (Waiting::Entry, Answer::Entry(entry)) => {
                match classify_entry(&entry) {
                    EntryKind::Skip => Waiting::Entry,
                    EntryKind::Descend => Waiting::Open(entry.path),
                    EntryKind::Parse => Waiting::Text(entry.path),
                }
            },
            (Waiting::Entry, Answer::EndOfDir) => {
                open.pop();
                if open.len() > 0 {
                    Waiting::Entry
                } else {
                    Waiting::Done
                }
            },
            (Waiting::Entry, Answer::EntryFailed) => {
                assert(open@.map_values(|p: String| p@).last() == open@.last()@);
                let path = open[open.len() - 1].clone();
                Waiting::Failed(LoadError::DirectoryUnreadable { path })
            },
            (Waiting::Text(path), Answer::Text(text)) => {
                match parse_descriptor(text.as_str()) {
                    Ok(mut examples) => {
                        let ghost added = example_views(examples@);
                        found.append(&mut examples);
                        assert(example_views(found@) =~= example_views(had) + added);
                        Waiting::Entry
                    },
                    Err(detail) => Waiting::Failed(LoadError::MalformedDescriptor { path, detail }),
                }
            },
            (Waiting::Text(path), Answer::ReadFailed) => Waiting::Failed(
                LoadError::FileUnreadable { path },
            ),
            (other, _) => other,
        };
        let r = Scanner { open, waiting: next, found };
        assert(r.state().open =~= supply_of(before, answer@).open);
        assert(r.state().found =~= supply_of(before, answer@).found);
        *self = r;
    }

    /// How the scan ended: the examples found, in the order they were
    /// found, or the failure. `None` while the scan needs something.
    pub fn finish(self) -> (r: Option<Result<Vec<ExampleSpec>, LoadError>>)
        ensures
            match r {
                None => !(self.state().pending is Done) && !(self.state().pending is Failed),
                Some(Ok(examples)) => self.state().pending is Done && example_views(examples@)
                    == self.state().found,
                Some(Err(e)) => self.state().pending == Pending::Failed(e@),
            },
    {
        match self.waiting {
            Waiting::Done => Some(Ok(self.found)),
            Waiting::Failed(e) => Some(Err(e)),
            _ => None,
        }
    }
}

} // verus!
