//! Diagnostics: the structured messages that every stage hands back.

use vstd::prelude::*;
use vstd::string::StringExecFns;
use crate::text::{copy_str, push_decimal, strings_view, decimal, lemma_strings_view_push};

verus! {

/// How serious a diagnostic is.
#[derive(Debug, Clone, Copy, PartialEq, Eq, Structural)]
pub enum ErrorKind {
    Error,
    Warning,
    Info,
}

/// A message of the compiler about a place in the source.
#[derive(Debug)]
pub struct CompilerError {
    kind: ErrorKind,
    message: String,
    notes: Vec<String>,
    helps: Vec<String>,
    line: usize,
    column: usize,
}

/// What a diagnostic says, as plain mathematical data.
pub struct CompilerErrorView {
    pub kind: ErrorKind,
    pub message: Seq<char>,
    pub notes: Seq<Seq<char>>,
    pub helps: Seq<Seq<char>>,
    pub line: usize,
    pub column: usize,
}

impl View for CompilerError {
    type V = CompilerErrorView;

    closed spec fn view(&self) -> CompilerErrorView {
        CompilerErrorView {
            kind: self.kind,
            message: self.message@,
            notes: strings_view(self.notes@),
            helps: strings_view(self.helps@),
            line: self.line,
            column: self.column,
        }
    }
}

/// A fresh diagnostic without notes or helps.
pub open spec fn diagnostic(
    message: Seq<char>,
    kind: ErrorKind,
    line: usize,
    column: usize,
) -> CompilerErrorView {
    CompilerErrorView { kind, message, notes: Seq::empty(), helps: Seq::empty(), line, column }
}

impl CompilerErrorView {
    /// The same diagnostic with one more note at the end of its notes.
    pub open spec fn with_note(self, note: Seq<char>) -> CompilerErrorView {
        CompilerErrorView { notes: self.notes.push(note), ..self }
    }

    /// The same diagnostic with one more help at the end of its helps.
    pub open spec fn with_help(self, help: Seq<char>) -> CompilerErrorView {
        CompilerErrorView { helps: self.helps.push(help), ..self }
    }
}

/// The word that introduces a diagnostic of the given kind.
pub open spec fn kind_tag(kind: ErrorKind) -> Seq<char> {
    match kind {
        ErrorKind::Error => "ERROR"@,
        ErrorKind::Warning => "BABALA"@,
        ErrorKind::Info => "INPORMASYON"@,
    }
}

/// The line that names the source file: the path as given and its canonical form.
pub open spec fn header_line(source_path: Seq<char>, canonical_path: Seq<char>) -> Seq<char> {
    "  [ "@ + source_path + " || "@ + canonical_path + " ]"@
}

/// The line that carries kind, position and message.
pub open spec fn message_line(e: CompilerErrorView) -> Seq<char> {
    "  "@ + kind_tag(e.kind) + "["@ + decimal(e.line as nat) + ":"@ + decimal(e.column as nat)
        + "]: "@ + e.message
}

pub open spec fn help_line(help: Seq<char>) -> Seq<char> {
    "  tulong: "@ + help
}

pub open spec fn note_line(note: Seq<char>) -> Seq<char> {
    "  tala: "@ + note
}

/// The lines in which a diagnostic is shown: the header, the message, every
/// help in the order given, then every note in the order given.
pub open spec fn rendered(
    e: CompilerErrorView,
    source_path: Seq<char>,
    canonical_path: Seq<char>,
) -> Seq<Seq<char>> {
    seq![header_line(source_path, canonical_path), message_line(e)] + e.helps.map_values(
        |h: Seq<char>| help_line(h),
    ) + e.notes.map_values(|n: Seq<char>| note_line(n))
}

impl CompilerError {
    pub fn new(message: &str, kind: ErrorKind, line: usize, column: usize) -> (e: Self)
        ensures
            e@ == diagnostic(message@, kind, line, column),
    {
        let e = Self {
            message: copy_str(message),
            kind,
            notes: Vec::new(),
            helps: Vec::new(),
            line,
            column,
        };
        assert(strings_view(e.notes@) =~= Seq::empty());
        assert(strings_view(e.helps@) =~= Seq::empty());
        e
    }

    pub fn add_note(self, note: &str) -> (e: Self)
        ensures
            e@ == self@.with_note(note@),
    {
        let mut e = self;
        e.notes.push(copy_str(note));
        assert(strings_view(e.notes@) =~= strings_view(self.notes@).push(note@));
        e
    }

    pub fn add_help(self, help: &str) -> (e: Self)
        ensures
            e@ == self@.with_help(help@),
    {
        let mut e = self;
        e.helps.push(copy_str(help));
        assert(strings_view(e.helps@) =~= strings_view(self.helps@).push(help@));
        e
    }

    pub fn kind(&self) -> (k: ErrorKind)
        ensures
            k == self@.kind,
    {
        self.kind
    }

    pub fn message(&self) -> (m: &str)
        ensures
            m@ == self@.message,
    {
        self.message.as_str()
    }

    pub fn line(&self) -> (l: usize)
        ensures
            l == self@.line,
    {
        self.line
    }

    pub fn column(&self) -> (c: usize)
        ensures
            c == self@.column,
    {
        self.column
    }

    pub fn notes(&self) -> (n: &Vec<String>)
        ensures
            strings_view(n@) == self@.notes,
    {
        &self.notes
    }

    pub fn helps(&self) -> (h: &Vec<String>)
        ensures
            strings_view(h@) == self@.helps,
    {
        &self.helps
    }

    /// The word that introduces this diagnostic.
    pub fn tag(&self) -> (t: &'static str)
        ensures
            t@ == kind_tag(self@.kind),
    {
        match self.kind {
            ErrorKind::Error => "ERROR",
            ErrorKind::Warning => "BABALA",
            ErrorKind::Info => "INPORMASYON",
        }
    }

    /// A copy of this diagnostic.
    pub fn duplicate(&self) -> (e: Self)
        ensures
            e@ == self@,
    {
        let mut notes: Vec<String> = Vec::new();
        let mut i: usize = 0;
        while i < self.notes.len()
            invariant
                0 <= i <= self.notes.len(),
                strings_view(notes@) == strings_view(self.notes@).take(i as int),
            decreases self.notes.len() - i,
        {
            let ghost prev = notes@;
            notes.push(self.notes[i].clone());
            proof {
                lemma_strings_view_push(prev, self.notes@[i as int]);
            }
            assert(strings_view(notes@) =~= strings_view(self.notes@).take(i + 1));
            i = i + 1;
        }
        assert(strings_view(self.notes@).take(self.notes.len() as int) =~= strings_view(
            self.notes@,
        ));
        let mut helps: Vec<String> = Vec::new();
        let mut j: usize = 0;
        while j < self.helps.len()
            invariant
                0 <= j <= self.helps.len(),
                strings_view(helps@) == strings_view(self.helps@).take(j as int),
            decreases self.helps.len() - j,
        {
            let ghost prev = helps@;
            helps.push(self.helps[j].clone());
            proof {
                lemma_strings_view_push(prev, self.helps@[j as int]);
            }
            assert(strings_view(helps@) =~= strings_view(self.helps@).take(j + 1));
            j = j + 1;
        }
        assert(strings_view(self.helps@).take(self.helps.len() as int) =~= strings_view(
            self.helps@,
        ));
        Self {
            kind: self.kind,
            message: self.message.clone(),
            notes,
            helps,
            line: self.line,
            column: self.column,
        }
    }

    /// The lines in which this diagnostic is shown for a source file at
    /// `source_path`, whose canonical form is `canonical_path`.
    pub fn render(&self, source_path: &str, canonical_path: &str) -> (lines: Vec<String>)
        ensures
            strings_view(lines@) == rendered(self@, source_path@, canonical_path@),
    {
        let mut lines: Vec<String> = Vec::new();
        let mut header = String::new();
        header.append("  [ ");
        header.append(source_path);
        header.append(" || ");
        header.append(canonical_path);
        header.append(" ]");
        lines.push(header);
        let mut main = String::new();
        main.append("  ");
        main.append(self.tag());
        main.append("[");
        push_decimal(&mut main, self.line);
        main.append(":");
        push_decimal(&mut main, self.column);
        main.append("]: ");
        main.append(self.message.as_str());
        lines.push(main);
        let ghost head = seq![header_line(source_path@, canonical_path@), message_line(self@)];
        assert(strings_view(lines@) =~= head);
        let ghost help_lines = self@.helps.map_values(|h: Seq<char>| help_line(h));
        let mut i: usize = 0;
        while i < self.helps.len()
            invariant
                0 <= i <= self.helps.len(),
                help_lines == self@.helps.map_values(|h: Seq<char>| help_line(h)),
                strings_view(lines@) == head + help_lines.take(i as int),
            decreases self.helps.len() - i,
        {
            let mut l = String::new();
            l.append("  tulong: ");
            l.append(self.helps[i].as_str());
            let ghost prev = lines@;
            lines.push(l);
            proof {
                lemma_strings_view_push(prev, l);
                assert(help_lines[i as int] == help_line(self@.helps[i as int]));
            }
            assert(strings_view(lines@) =~= head + help_lines.take(i + 1));
            i = i + 1;
        }
        assert(help_lines.take(self.helps.len() as int) =~= help_lines);
        let ghost note_lines = self@.notes.map_values(|n: Seq<char>| note_line(n));
        let mut j: usize = 0;
        while j < self.notes.len()
            invariant
                0 <= j <= self.notes.len(),
                note_lines == self@.notes.map_values(|n: Seq<char>| note_line(n)),
                strings_view(lines@) == head + help_lines + note_lines.take(j as int),
            decreases self.notes.len() - j,
        {
            let mut l = String::new();
            l.append("  tala: ");
            l.append(self.notes[j].as_str());
            let ghost prev = lines@;
            lines.push(l);
            proof {
                lemma_strings_view_push(prev, l);
                assert(note_lines[j as int] == note_line(self@.notes[j as int]));
            }
            assert(strings_view(lines@) =~= head + help_lines + note_lines.take(j + 1));
            j = j + 1;
        }
        assert(note_lines.take(self.notes.len() as int) =~= note_lines);
        lines
    }
}

/// The views of a sequence of diagnostics, in order.
pub open spec fn errors_view(v: Seq<CompilerError>) -> Seq<CompilerErrorView> {
    v.map_values(|e: CompilerError| e@)
}

/// Whether `r` is what `expected` says, seen through `view`.
pub open spec fn agrees<T, V>(
    r: Result<T, CompilerError>,
    expected: Result<V, CompilerErrorView>,
    view: spec_fn(T) -> V,
) -> bool {
    match r {
        Ok(v) => expected == Ok::<V, CompilerErrorView>(view(v)),
        Err(e) => expected == Err::<V, CompilerErrorView>(e@),
    }
}

} // verus!
