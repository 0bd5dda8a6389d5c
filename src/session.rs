use crate::document::{Document, DocumentView};
use vstd::prelude::*;

verus! {

/// The directory part of a path, as `std::path::Path::parent` gives it.
pub uninterp spec fn parent_dir_of(p: Seq<char>) -> Option<Seq<char>>;

pub open spec fn opt_view(o: Option<String>) -> Option<Seq<char>> {
    match o {
        Some(s) => Some(s@),
        None => None,
    }
}

/// Relies on `std::path::Path::parent`: the directory that holds `p`, or `None`
/// for a root or an empty path; the result depends on the text of `p` alone.
#[verifier::external_body]
fn parent_dir(p: &String) -> (r: Option<String>)
    ensures
        opt_view(r) == parent_dir_of(p@),
{
    match std::path::Path::new(p).parent() {
        Some(d) => Some(d.to_string_lossy().into_owned()),
        None => None,
    }
}

/// What the caller does next while saving.
#[derive(Debug)]
pub enum SaveStep {
    /// Ask for a file to save to, opening the picker in this directory if any.
    AskPath(Option<String>),
    /// Encode the document and write it to this path.
    Write(String),
    /// Nothing more: the user cancelled.
    Done,
}

pub ghost enum StepView {
    AskPath(Option<Seq<char>>),
    Write(Seq<char>),
    Done,
}

impl View for SaveStep {
    type V = StepView;

    open spec fn view(&self) -> StepView {
        match self {
            SaveStep::AskPath(d) => StepView::AskPath(opt_view(*d)),
            SaveStep::Write(p) => StepView::Write(p@),
            SaveStep::Done => StepView::Done,
        }
    }
}

/// The open document, the file it is saved to (if any) and the log of
/// recoverable errors, which only grows.
#[derive(Debug)]
pub struct Session {
    save_path: Option<String>,
    pub document: Document,
    errors: Vec<String>,
}

pub ghost struct SessionView {
    pub save_path: Option<Seq<char>>,
    pub document: DocumentView,
    pub errors: Seq<Seq<char>>,
}

impl View for Session {
    type V = SessionView;

    closed spec fn view(&self) -> SessionView {
        SessionView {
            save_path: opt_view(self.save_path),
            document: self.document@,
            errors: self.errors@.map_values(|e: String| e@),
        }
    }
}

pub open spec fn load_view(outcome: Result<Document, String>) -> Result<DocumentView, Seq<char>> {
    match outcome {
        Ok(d) => Ok(d@),
        Err(e) => Err(e@),
    }
}

pub open spec fn write_view(outcome: Result<(), String>) -> Result<(), Seq<char>> {
    match outcome {
        Ok(()) => Ok(()),
        Err(e) => Err(e@),
    }
}

impl SessionView {
    /// Where the save picker opens: beside the current file, else in `cwd`.
    pub open spec fn prompt_dir(self, cwd: Option<Seq<char>>) -> Option<Seq<char>> {
        match self.save_path {
            Some(p) => match parent_dir_of(p) {
                Some(d) => Some(d),
                None => cwd,
            },
            None => cwd,
        }
    }

    pub open spec fn save_step(self, cwd: Option<Seq<char>>) -> StepView {
        match self.save_path {
            Some(p) => StepView::Write(p),
            None => StepView::AskPath(self.prompt_dir(cwd)),
        }
    }

    pub open spec fn save_as_step(self, cwd: Option<Seq<char>>) -> StepView {
        StepView::AskPath(self.prompt_dir(cwd))
    }

    pub open spec fn after_choice(self, chosen: Option<Seq<char>>) -> SessionView {
        match chosen {
            Some(p) => SessionView { save_path: Some(p), ..self },
            None => self,
        }
    }

    pub open spec fn after_write(self, outcome: Result<(), Seq<char>>) -> SessionView {
        match outcome {
            Ok(()) => self,
            Err(e) => SessionView { errors: self.errors.push(e), ..self },
        }
    }

    pub open spec fn after_load(self, path: Seq<char>, outcome: Result<DocumentView, Seq<char>>) -> SessionView {
        match outcome {
            Ok(d) => SessionView { save_path: Some(path), document: d, ..self },
            Err(e) => SessionView { errors: self.errors.push(e), ..self },
        }
    }
}

pub open spec fn step_after_choice(chosen: Option<Seq<char>>) -> StepView {
    match chosen {
        Some(p) => StepView::Write(p),
        None => StepView::Done,
    }
}

impl Session {
    /// A session with an empty document, no file to save to and no errors.
    pub fn new() -> (r: Session)
        ensures
            r@.save_path is None,
            r@.document.groups.len() == 0,
            r@.document.ungrouped.len() == 0,
            r@.errors.len() == 0,
    {
        Session { save_path: None, document: Document::new(), errors: Vec::new() }
    }

    pub fn save_path(&self) -> (r: &Option<String>)
        ensures
            opt_view(*r) == self@.save_path,
    {
        &self.save_path
    }

    pub fn errors(&self) -> (r: &Vec<String>)
        ensures
            r@.map_values(|e: String| e@) == self@.errors,
    {
        &self.errors
    }

    /// Takes the result of reading and decoding `path`. On success the document
    /// is replaced and `path` becomes the save path; on failure the message is
    /// logged and nothing else changes.
    pub fn apply_load(&mut self, path: String, outcome: Result<Document, String>)
        ensures
            final(self)@ == old(self)@.after_load(path@, load_view(outcome)),
    {
        match outcome {
            Ok(d) => {
                self.document = d;
                self.save_path = Some(path);
            },
            Err(e) => {
                self.errors.push(e);
                assert(self@.errors =~= old(self)@.errors.push(e@));
            },
        }
    }

    /// The directory the save picker opens in, given the process's working
    /// directory where it is known.
    pub fn prompt_dir(&self, cwd: Option<String>) -> (r: Option<String>)
        ensures
            opt_view(r) == self@.prompt_dir(opt_view(cwd)),
    {
        match &self.save_path {
            Some(p) => match parent_dir(p) {
                Some(d) => Some(d),
                None => cwd,
            },
            None => cwd,
        }
    }

    /// First step of Save: write where the document belongs, or ask where.
    pub fn begin_save(&self, cwd: Option<String>) -> (r: SaveStep)
        ensures
            r@ == self@.save_step(opt_view(cwd)),
    {
        match &self.save_path {
            Some(p) => SaveStep::Write(p.clone()),
            None => SaveStep::AskPath(self.prompt_dir(cwd)),
        }
    }

    /// First step of Save As: always ask where.
    pub fn begin_save_as(&self, cwd: Option<String>) -> (r: SaveStep)
        ensures
            r@ == self@.save_as_step(opt_view(cwd)),
    {
        SaveStep::AskPath(self.prompt_dir(cwd))
    }

    /// Takes the answer of the save picker. A chosen path becomes the save path
    /// and is written next; a cancelled picker changes nothing and ends the save.
    pub fn path_chosen(&mut self, chosen: Option<String>) -> (r: SaveStep)
        ensures
            final(self)@ == old(self)@.after_choice(opt_view(chosen)),
            r@ == step_after_choice(opt_view(chosen)),
    {
        match chosen {
            Some(p) => {
                let w = p.clone();
                self.save_path = Some(p);
                SaveStep::Write(w)
            },
            None => SaveStep::Done,
        }
    }

    /// Takes the result of writing the file: a failure is logged, and the save
    /// path stays for the next attempt.
    pub fn write_finished(&mut self, outcome: Result<(), String>)
        ensures
            final(self)@ == old(self)@.after_write(write_view(outcome)),
    {
        match outcome {
            Ok(()) => {},
            Err(e) => {
                self.errors.push(e);
                assert(self@.errors =~= old(self)@.errors.push(e@));
            },
        }
    }
}

/// Saving with no save path, when the user cancels the picker, writes nothing
/// and leaves the session as it was: still without a save path, no new error.
pub proof fn law_cancelled_first_save(s: SessionView, cwd: Option<Seq<char>>)
    requires
        s.save_path is None,
    ensures
        s.save_step(cwd) is AskPath,
        step_after_choice(None) == StepView::Done,
        s.after_choice(None) == s,
        s.after_choice(None).save_path is None,
        s.after_choice(None).errors == s.errors,
{
}

/// Saving with a save path writes there at once; if the write fails, the save
/// path stays and exactly one error is logged.
pub proof fn law_failed_write_keeps_path(
    s: SessionView,
    p: Seq<char>,
    cwd: Option<Seq<char>>,
    msg: Seq<char>,
)
    requires
        s.save_path == Some(p),
    ensures
        s.save_step(cwd) == StepView::Write(p),
        s.after_write(Err(msg)).save_path == Some(p),
        s.after_write(Err(msg)).document == s.document,
        s.after_write(Err(msg)).errors == s.errors.push(msg),
        s.after_write(Err(msg)).errors.len() == s.errors.len() + 1,
{
}

/// Save As always asks for a path; cancelling it leaves the save path as it
/// was, bound or not, and writes nothing.
pub proof fn law_cancelled_save_as(s: SessionView, cwd: Option<Seq<char>>)
    ensures
        s.save_as_step(cwd) is AskPath,
        step_after_choice(None) == StepView::Done,
        s.after_choice(None).save_path == s.save_path,
{
}

/// A successful load replaces the whole document and binds the session to the
/// loaded file; a failed one keeps document and save path and logs one error.
pub proof fn law_load_replaces(
    s: SessionView,
    path: Seq<char>,
    d: DocumentView,
    msg: Seq<char>,
)
    ensures
        s.after_load(path, Ok(d)).document == d,
        s.after_load(path, Ok(d)).save_path == Some(path),
        s.after_load(path, Ok(d)).errors == s.errors,
        s.after_load(path, Err(msg)).document == s.document,
        s.after_load(path, Err(msg)).save_path == s.save_path,
        s.after_load(path, Err(msg)).errors == s.errors.push(msg),
{
}

/// After a load with no edit, Save writes to the loaded file, and the document
/// handed to the encoder is the loaded one, unchanged.
pub proof fn law_save_after_load(s: SessionView, path: Seq<char>, d: DocumentView, cwd: Option<Seq<char>>)
    ensures
        s.after_load(path, Ok(d)).save_step(cwd) == StepView::Write(path),
        s.after_load(path, Ok(d)).document == d,
{
}

} // verus!
