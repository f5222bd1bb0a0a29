//! Collected, leveled, optionally positioned problem reports.
//!
//! Every problem the toolchain can report is one variant of the closed
//! [`DiagnosticKind`] taxonomy; severities are total functions of the
//! variant, so nothing here is open-ended or dynamically dispatched.

use vstd::prelude::*;

use crate::position::{Position, Positioned};

verus! {

/// Severity of a diagnostic.
#[derive(Debug, Default, Clone, Copy, PartialEq, Eq, Structural)]
pub enum Level {
    #[default]
    Warn,
    Error,
}

impl Level {
    /// The human-readable severity label.
    pub fn name(&self) -> (r: String)
        ensures
            r@ == self.name_spec(),
    {
        match self {
            Level::Warn => "Warning".to_owned(),
            Level::Error => "Error".to_owned(),
        }
    }

    pub open spec fn name_spec(&self) -> Seq<char> {
        match self {
            Level::Warn => "Warning"@,
            Level::Error => "Error"@,
        }
    }
}

/// A problem found while turning token streams into syntax trees.
#[derive(Debug, Clone, Copy, PartialEq, Eq, Structural)]
pub enum GenerateErrorKind {
    /// The `element` keyword was not followed by a name.
    ExpectedElementName,
    /// An element header was not followed by a `{` block.
    ExpectedOpenBracket,
    /// A `#` marker was not followed by a digit run.
    ExpectedHexLiteral,
    /// A token that cannot start a statement; it is skipped.
    UnexpectedToken,
    /// A `}` with no matching `{`.
    UnmatchedCloseBracket,
    /// The input ended inside a `{` block.
    UnclosedBlock,
}

/// A problem found while walking a file's top-level statements.
#[derive(Debug, Clone, Copy, PartialEq, Eq, Structural)]
pub enum ParseError {
    UnexpectedBlock,
    UnexpectedIdent,
    UnexpectedValue,
}

/// A problem found while const-evaluating a literal node.
#[derive(Debug, Clone, Copy, PartialEq, Eq, Structural)]
pub enum EvalError {
    NotConst,
    InvalidHexDigit,
    InvalidHexColorLen,
}

/// A problem found while compiling an `element` block.
#[derive(Debug, Clone)]
pub enum ElementError {
    UnexpectedAstKind,
    VariableType { expected: String, found: String },
    DoubleDefineVariable,
    UnknownVariable,
    DoubleDefineElement(String),
    ElementLimitReached,
}

/// Spec-level shape of an [`ElementError`], with string payloads as
/// character sequences.
pub enum ElementErrorV {
    UnexpectedAstKind,
    VariableType { expected: Seq<char>, found: Seq<char> },
    DoubleDefineVariable,
    UnknownVariable,
    DoubleDefineElement(Seq<char>),
    ElementLimitReached,
}

impl ElementErrorV {
    /// The human-readable text of this problem.
    pub open spec fn description(self) -> Seq<char> {
        match self {
            ElementErrorV::UnexpectedAstKind =>
                "Element body should contain only properties, variables, and rules"@,
            ElementErrorV::VariableType { expected, found } => "Variable has type "@ + expected
                + ", but found value of type "@ + found,
            ElementErrorV::DoubleDefineVariable => "Variable defined twice"@,
            ElementErrorV::UnknownVariable => "Unknown variable"@,
            ElementErrorV::DoubleDefineElement(_) =>
                "Element defined twice; keeping first definition"@,
            ElementErrorV::ElementLimitReached => "Limit of 255 elements exceeded"@,
        }
    }
}

impl View for ElementError {
    type V = ElementErrorV;

    open spec fn view(&self) -> ElementErrorV {
        match self {
            ElementError::UnexpectedAstKind => ElementErrorV::UnexpectedAstKind,
            ElementError::VariableType { expected, found } => ElementErrorV::VariableType {
                expected: expected@,
                found: found@,
            },
            ElementError::DoubleDefineVariable => ElementErrorV::DoubleDefineVariable,
            ElementError::UnknownVariable => ElementErrorV::UnknownVariable,
            ElementError::DoubleDefineElement(name) => ElementErrorV::DoubleDefineElement(name@),
            ElementError::ElementLimitReached => ElementErrorV::ElementLimitReached,
        }
    }
}

/// A problem met while reading a set's files, reported by the I/O shell.
#[derive(Debug, Clone)]
pub enum ReadFilesError {
    ReadDirectory(String),
    OpenFile { name: String, e: String },
    ReadFile { name: String, e: String },
}

/// Spec-level shape of a [`ReadFilesError`].
pub enum ReadFilesErrorV {
    ReadDirectory(Seq<char>),
    OpenFile { name: Seq<char>, e: Seq<char> },
    ReadFile { name: Seq<char>, e: Seq<char> },
}

impl ReadFilesErrorV {
    /// The human-readable text of this problem.
    pub open spec fn description(self) -> Seq<char> {
        match self {
            ReadFilesErrorV::ReadDirectory(e) => "Unable to read set directory: "@ + e,
            ReadFilesErrorV::OpenFile { name, e } => "Unable to open file "@ + name + ": "@ + e
                + "; skipping"@,
            ReadFilesErrorV::ReadFile { name, e } => "Unable to read file "@ + name + ": "@ + e
                + "; skipping"@,
        }
    }
}

impl View for ReadFilesError {
    type V = ReadFilesErrorV;

    open spec fn view(&self) -> ReadFilesErrorV {
        match self {
            ReadFilesError::ReadDirectory(e) => ReadFilesErrorV::ReadDirectory(e@),
            ReadFilesError::OpenFile { name, e } => ReadFilesErrorV::OpenFile {
                name: name@,
                e: e@,
            },
            ReadFilesError::ReadFile { name, e } => ReadFilesErrorV::ReadFile {
                name: name@,
                e: e@,
            },
        }
    }
}

/// Every diagnostic the toolchain can emit, as one closed tagged union.
#[derive(Debug, Clone)]
pub enum DiagnosticKind {
    Generate(GenerateErrorKind),
    Parse(ParseError),
    Eval(EvalError),
    Element(ElementError),
    ReadFiles(ReadFilesError),
}

/// Spec-level shape of a [`DiagnosticKind`].
pub enum DiagView {
    Generate(GenerateErrorKind),
    Parse(ParseError),
    Eval(EvalError),
    Element(ElementErrorV),
    ReadFiles(ReadFilesErrorV),
}

impl View for DiagnosticKind {
    type V = DiagView;

    open spec fn view(&self) -> DiagView {
        match self {
            DiagnosticKind::Generate(k) => DiagView::Generate(*k),
            DiagnosticKind::Parse(k) => DiagView::Parse(*k),
            DiagnosticKind::Eval(k) => DiagView::Eval(*k),
            DiagnosticKind::Element(k) => DiagView::Element(k@),
            DiagnosticKind::ReadFiles(k) => DiagView::ReadFiles(k@),
        }
    }
}

impl DiagView {
    /// The human-readable text of this diagnostic.
    pub open spec fn description(self) -> Seq<char> {
        match self {
            DiagView::Generate(k) => k.description_spec(),
            DiagView::Parse(k) => k.description_spec(),
            DiagView::Eval(k) => k.description_spec(),
            DiagView::Element(k) => k.description(),
            DiagView::ReadFiles(k) => k.description(),
        }
    }

    /// Severity, as a total function of the variant.
    pub open spec fn level(self) -> Level {
        match self {
            DiagView::Generate(_) => Level::Error,
            DiagView::Parse(_) => Level::Error,
            DiagView::Eval(_) => Level::Error,
            DiagView::Element(k) => match k {
                ElementErrorV::UnexpectedAstKind => Level::Error,
                ElementErrorV::VariableType { .. } => Level::Error,
                ElementErrorV::DoubleDefineVariable => Level::Warn,
                ElementErrorV::UnknownVariable => Level::Warn,
                ElementErrorV::DoubleDefineElement(_) => Level::Warn,
                ElementErrorV::ElementLimitReached => Level::Warn,
            },
            DiagView::ReadFiles(k) => match k {
                ReadFilesErrorV::ReadDirectory(_) => Level::Error,
                ReadFilesErrorV::OpenFile { .. } => Level::Warn,
                ReadFilesErrorV::ReadFile { .. } => Level::Warn,
            },
        }
    }
}

/// A reported problem: its severity and its human-readable text.
pub trait Diagnostic {
    spec fn level_spec(&self) -> Level;

    spec fn description_spec(&self) -> Seq<char>;

    /// Severity of this diagnostic.
    fn level(&self) -> (l: Level)
        ensures
            l == self.level_spec(),
    ;

    /// Human-readable description of this diagnostic.
    fn description(&self) -> (d: String)
        ensures
            d@ == self.description_spec(),
    ;
}

impl Diagnostic for GenerateErrorKind {
    open spec fn level_spec(&self) -> Level {
        Level::Error
    }

    open spec fn description_spec(&self) -> Seq<char> {
        match self {
            GenerateErrorKind::ExpectedElementName => "Expected element name"@,
            GenerateErrorKind::ExpectedOpenBracket => "Expected `{`"@,
            GenerateErrorKind::ExpectedHexLiteral => "Expected hex digits after `#`"@,
            GenerateErrorKind::UnexpectedToken => "Unexpected token"@,
            GenerateErrorKind::UnmatchedCloseBracket => "Unmatched `}`"@,
            GenerateErrorKind::UnclosedBlock => "Unexpected end of input inside a block"@,
        }
    }

    fn level(&self) -> (l: Level)
        ensures
            l == self.level_spec(),
    {
        Level::Error
    }

    fn description(&self) -> (d: String)
        ensures
            d@ == self.description_spec(),
    {
        match self {
            GenerateErrorKind::ExpectedElementName => "Expected element name".to_owned(),
            GenerateErrorKind::ExpectedOpenBracket => "Expected `{`".to_owned(),
            GenerateErrorKind::ExpectedHexLiteral => "Expected hex digits after `#`".to_owned(),
            GenerateErrorKind::UnexpectedToken => "Unexpected token".to_owned(),
            GenerateErrorKind::UnmatchedCloseBracket => "Unmatched `}`".to_owned(),
            GenerateErrorKind::UnclosedBlock => "Unexpected end of input inside a block".to_owned(),
        }
    }
}

impl Diagnostic for ParseError {
    open spec fn level_spec(&self) -> Level {
        Level::Error
    }

    open spec fn description_spec(&self) -> Seq<char> {
        match self {
            ParseError::UnexpectedBlock => "Unexpected block"@,
            ParseError::UnexpectedIdent => "Unexpected identifier"@,
            ParseError::UnexpectedValue => "Unexpected value"@,
        }
    }

    fn level(&self) -> (l: Level)
        ensures
            l == self.level_spec(),
    {
        Level::Error
    }

    fn description(&self) -> (d: String)
        ensures
            d@ == self.description_spec(),
    {
        match self {
            ParseError::UnexpectedBlock => "Unexpected block".to_owned(),
            ParseError::UnexpectedIdent => "Unexpected identifier".to_owned(),
            ParseError::UnexpectedValue => "Unexpected value".to_owned(),
        }
    }
}

impl Diagnostic for EvalError {
    open spec fn level_spec(&self) -> Level {
        Level::Error
    }

    open spec fn description_spec(&self) -> Seq<char> {
        match self {
            EvalError::NotConst => "Cannot evaluate non-const expression in const context"@,
            EvalError::InvalidHexDigit => "Invalid hex digit (valid digits are 0-9, a-f, and A-F)"@,
            EvalError::InvalidHexColorLen
                => "Hex colors must be in the format of y, yy, rgb, rgba, rrggbb, or rrggbbaa"@,
        }
    }

    fn level(&self) -> (l: Level)
        ensures
            l == self.level_spec(),
    {
        Level::Error
    }

    fn description(&self) -> (d: String)
        ensures
            d@ == self.description_spec(),
    {
        match self {
            EvalError::NotConst => "Cannot evaluate non-const expression in const context"
                .to_owned(),
            EvalError::InvalidHexDigit => "Invalid hex digit (valid digits are 0-9, a-f, and A-F)"
                .to_owned(),
            EvalError::InvalidHexColorLen =>
                "Hex colors must be in the format of y, yy, rgb, rgba, rrggbb, or rrggbbaa"
                .to_owned(),
        }
    }
}

impl Diagnostic for ElementError {
    open spec fn level_spec(&self) -> Level {
        DiagView::Element(self@).level()
    }

    open spec fn description_spec(&self) -> Seq<char> {
        self@.description()
    }

    fn level(&self) -> (l: Level)
        ensures
            l == self.level_spec(),
    {
        match self {
            ElementError::DoubleDefineVariable
            | ElementError::UnknownVariable
            | ElementError::DoubleDefineElement(_)
            | ElementError::ElementLimitReached => Level::Warn,
            ElementError::UnexpectedAstKind | ElementError::VariableType { .. } => Level::Error,
        }
    }

    fn description(&self) -> (d: String)
        ensures
            d@ == self.description_spec(),
    {
        match self {
            ElementError::UnexpectedAstKind =>
                "Element body should contain only properties, variables, and rules".to_owned(),
            ElementError::VariableType { expected, found } => {
                let mut d = "Variable has type ".to_owned();
                d.append(expected.as_str());
                d.append(", but found value of type ");
                d.append(found.as_str());
                d
            },
            ElementError::DoubleDefineVariable => "Variable defined twice".to_owned(),
            ElementError::UnknownVariable => "Unknown variable".to_owned(),
            ElementError::DoubleDefineElement(_) =>
                "Element defined twice; keeping first definition".to_owned(),
            ElementError::ElementLimitReached => "Limit of 255 elements exceeded".to_owned(),
        }
    }
}

impl Diagnostic for ReadFilesError {
    open spec fn level_spec(&self) -> Level {
        DiagView::ReadFiles(self@).level()
    }

    open spec fn description_spec(&self) -> Seq<char> {
        self@.description()
    }

    fn level(&self) -> (l: Level)
        ensures
            l == self.level_spec(),
    {
        match self {
            ReadFilesError::OpenFile { .. } | ReadFilesError::ReadFile { .. } => Level::Warn,
            ReadFilesError::ReadDirectory(_) => Level::Error,
        }
    }

    fn description(&self) -> (d: String)
        ensures
            d@ == self.description_spec(),
    {
        match self {
            ReadFilesError::ReadDirectory(e) => {
                let mut d = "Unable to read set directory: ".to_owned();
                d.append(e.as_str());
                d
            },
            ReadFilesError::OpenFile { name, e } => {
                let mut d = "Unable to open file ".to_owned();
                d.append(name.as_str());
                d.append(": ");
                d.append(e.as_str());
                d.append("; skipping");
                d
            },
            ReadFilesError::ReadFile { name, e } => {
                let mut d = "Unable to read file ".to_owned();
                d.append(name.as_str());
                d.append(": ");
                d.append(e.as_str());
                d.append("; skipping");
                d
            },
        }
    }
}

impl Diagnostic for DiagnosticKind {
    open spec fn level_spec(&self) -> Level {
        self@.level()
    }

    open spec fn description_spec(&self) -> Seq<char> {
        self@.description()
    }

    fn level(&self) -> (l: Level)
        ensures
            l == self.level_spec(),
    {
        match self {
            DiagnosticKind::Generate(k) => k.level(),
            DiagnosticKind::Parse(k) => k.level(),
            DiagnosticKind::Eval(k) => k.level(),
            DiagnosticKind::Element(k) => k.level(),
            DiagnosticKind::ReadFiles(k) => k.level(),
        }
    }

    fn description(&self) -> (d: String)
        ensures
            d@ == self.description_spec(),
    {
        match self {
            DiagnosticKind::Generate(k) => k.description(),
            DiagnosticKind::Parse(k) => k.description(),
            DiagnosticKind::Eval(k) => k.description(),
            DiagnosticKind::Element(k) => k.description(),
            DiagnosticKind::ReadFiles(k) => k.description(),
        }
    }
}

/// The ordered bag of diagnostics collected during one load operation,
/// with a monotonic "some error was reported" flag.
#[derive(Debug)]
pub struct Diagnostics {
    diagnostics: Vec<(Option<Position>, DiagnosticKind)>,
    errored: bool,
}

impl View for Diagnostics {
    type V = Seq<(Option<Position>, DiagView)>;

    closed spec fn view(&self) -> Seq<(Option<Position>, DiagView)> {
        self.diagnostics@.map(|_i: int, e: (Option<Position>, DiagnosticKind)| (e.0, e.1@))
    }
}

impl Diagnostics {
    /// True exactly when some collected diagnostic has `Error` severity.
    pub open spec fn spec_has_errored(&self) -> bool {
        exists|i: int| 0 <= i < self@.len() && #[trigger] self@[i].1.level() == Level::Error
    }

    /// The errored flag agrees with the collected diagnostics.
    pub closed spec fn wf(&self) -> bool {
        self.errored == self.spec_has_errored()
    }

    /// A fresh, empty collection with the errored flag down.
    pub fn init() -> (r: Diagnostics)
        ensures
            r@ =~= Seq::<(Option<Position>, DiagView)>::empty(),
            r.wf(),
    {
        let r = Diagnostics { diagnostics: Vec::new(), errored: false };
        proof {
            assert(!r.spec_has_errored());
        }
        r
    }

    /// Appends a positioned diagnostic and raises the errored flag if its
    /// severity is `Error`.
    pub fn add(&mut self, position: Position, diagnostic: DiagnosticKind)
        requires
            old(self).wf(),
        ensures
            final(self).wf(),
            final(self)@ =~= old(self)@ + seq![(Some(position), diagnostic@)],
    {
        let level_is_error = matches!(diagnostic.level(), Level::Error);
        let ghost dv = diagnostic@;
        self.errored = self.errored || level_is_error;
        self.diagnostics.push((Some(position), diagnostic));
        proof {
            self.lemma_wf_after_push(*old(self), dv);
        }
    }

    /// Appends an already positioned diagnostic.
    pub fn add_positioned(&mut self, val: Positioned<DiagnosticKind>)
        requires
            old(self).wf(),
        ensures
            final(self).wf(),
            final(self)@ =~= old(self)@ + seq![(Some(val.position), val.object@)],
    {
        self.add(val.position, val.object);
    }

    /// Appends a diagnostic that has no source position.
    pub fn add_unpositioned(&mut self, diagnostic: DiagnosticKind)
        requires
            old(self).wf(),
        ensures
            final(self).wf(),
            final(self)@ =~= old(self)@ + seq![(None::<Position>, diagnostic@)],
    {
        let level_is_error = matches!(diagnostic.level(), Level::Error);
        let ghost dv = diagnostic@;
        self.errored = self.errored || level_is_error;
        self.diagnostics.push((None, diagnostic));
        proof {
            self.lemma_wf_after_push(*old(self), dv);
        }
    }

    /// After one entry is pushed and the errored flag is OR-ed with the
    /// entry's severity test, the flag still matches the collection.
    proof fn lemma_wf_after_push(&self, prev: Diagnostics, dv: DiagView)
        requires
            prev.wf(),
            self@.len() == prev@.len() + 1,
            forall|i: int| 0 <= i < prev@.len() ==> self@[i] == prev@[i],
            self@[prev@.len() as int].1 == dv,
            self.errored == (prev.errored || dv.level() == Level::Error),
        ensures
            self.wf(),
    {
        if self.errored {
            if prev.errored {
                let i = choose|i: int|
                    0 <= i < prev@.len() && #[trigger] prev@[i].1.level() == Level::Error;
                assert(self@[i].1.level() == Level::Error);
            } else {
                assert(self@[prev@.len() as int].1.level() == Level::Error);
            }
        } else {
            assert forall|i: int| 0 <= i < self@.len() implies #[trigger] self@[i].1.level()
                != Level::Error by {
                if i < prev@.len() {
                    assert(prev@[i].1.level() != Level::Error);
                }
            }
        }
    }

    /// True iff at least one `Error`-level diagnostic has been added.
    pub fn has_errored(&self) -> (r: bool)
        requires
            self.wf(),
        ensures
            r == self.spec_has_errored(),
    {
        self.errored
    }

    /// True iff nothing has been reported at all.
    pub fn is_empty(&self) -> (r: bool)
        ensures
            r == (self@.len() == 0),
    {
        self.diagnostics.len() == 0
    }

    /// How many diagnostics have been collected.
    pub fn len(&self) -> (r: usize)
        ensures
            r == self@.len(),
    {
        self.diagnostics.len()
    }

    /// The `index`-th collected diagnostic, in insertion order.
    pub fn get(&self, index: usize) -> (r: &(Option<Position>, DiagnosticKind))
        requires
            index < self@.len(),
        ensures
            (r.0, r.1@) == self@[index as int],
    {
        &self.diagnostics[index]
    }
}

} // verus!
