//! The problems found while reading a slideshow, and the collection that
//! gathers them with the source they were found in.

use vstd::prelude::*;

use crate::source::CharRange;
use crate::syntax::NodeKind;

verus! {

/// How serious a reported problem is.
#[derive(Debug, Clone, Copy, PartialEq, Eq, Structural)]
pub enum Severity {
    Warning,
    Error,
}

/// A problem found while reading a slideshow, with where it lies.
#[derive(Debug, Clone)]
pub enum ParseError {
    /// Reading the source failed.
    IoError,
    /// The source does not follow the grammar here.
    Syntax(CharRange, &'static str),
    /// A colour is not one CSS knows; `expected_none` where `none` would
    /// have done too.
    ColorSyntax { range: CharRange, expected_none: bool },
    /// Something is missing here.
    Missing(CharRange, &'static str),
    /// Something named here does not exist.
    NotFound(CharRange, &'static str),
    /// A viewbox is wrong here.
    Viewbox(CharRange, String),
    /// A node of an unexpected kind stands here.
    BadNode(CharRange, NodeKind, &'static str),
    /// A name too long to be stored inline.
    LongName(CharRange),
}

/// The severity a problem declares: a long name is only a warning; the
/// others declare none.
pub open spec fn severity_of(e: ParseError) -> Option<Severity> {
    match e {
        ParseError::LongName(_) => Some(Severity::Warning),
        _ => None,
    }
}

/// Whether a problem counts as an error: it declares no severity, or
/// declares it an error.
pub open spec fn is_error(e: ParseError) -> bool {
    severity_of(e) is None || severity_of(e) == Some(Severity::Error)
}

/// Where a problem lies, for those that lie somewhere (all but `IoError`).
pub open spec fn range_of(e: ParseError) -> Option<CharRange> {
    match e {
        ParseError::IoError => None,
        ParseError::Syntax(r, _) => Some(r),
        ParseError::ColorSyntax { range, .. } => Some(range),
        ParseError::Missing(r, _) => Some(r),
        ParseError::NotFound(r, _) => Some(r),
        ParseError::Viewbox(r, _) => Some(r),
        ParseError::BadNode(r, _, _) => Some(r),
        ParseError::LongName(r) => Some(r),
    }
}

impl ParseError {
    /// The severity the problem declares (see `severity_of`).
    pub fn severity(&self) -> (s: Option<Severity>)
        ensures
            s == severity_of(*self),
    {
        match self {
            ParseError::LongName(_) => Some(Severity::Warning),
            _ => None,
        }
    }

    /// Where the problem lies (see `range_of`).
    pub fn char_range(&self) -> (r: Option<&CharRange>)
        ensures
            r is None <==> range_of(*self) is None,
            r matches Some(c) ==> range_of(*self) == Some(*c),
    {
        match self {
            ParseError::IoError => None,
            ParseError::Syntax(r, _) => Some(r),
            ParseError::ColorSyntax { range, .. } => Some(range),
            ParseError::Missing(r, _) => Some(r),
            ParseError::NotFound(r, _) => Some(r),
            ParseError::Viewbox(r, _) => Some(r),
            ParseError::BadNode(r, _, _) => Some(r),
            ParseError::LongName(r) => Some(r),
        }
    }
}

/// The problems found in a source, in the order they were found, and the
/// source they were found in: the source given with the first problem is
/// kept.
pub struct ErrsWithSource<S> {
    pub errors: Vec<ParseError>,
    pub source: Option<S>,
}

impl<S> ErrsWithSource<S> {
    /// No problems yet, and no source.
    pub fn new() -> (r: Self)
        ensures
            r.errors@ == Seq::<ParseError>::empty(),
            r.source is None,
    {
        ErrsWithSource { errors: Vec::new(), source: None }
    }

    /// Adds a problem found in `source`; the source is kept only where it is
    /// the first one given.
    pub fn append_error(&mut self, error: ParseError, source: S)
        ensures
            final(self).errors@ == old(self).errors@.push(error),
            final(self).source == if old(self).source is Some {
                old(self).source
            } else {
                Some(source)
            },
    {
        self.errors.push(error);
        if self.source.is_none() {
            self.source = Some(source);
        }
    }

    /// Whether any problem found counts as an error; warnings alone do not.
    pub fn has_errors(&self) -> (b: bool)
        ensures
            b == exists|i: int| 0 <= i < self.errors@.len() && is_error(#[trigger] self.errors@[i]),
    {
        let mut found = false;
        let mut i: usize = 0;
        while i < self.errors.len()
            invariant
                i <= self.errors@.len(),
                found == exists|j: int| 0 <= j < i && is_error(#[trigger] self.errors@[j]),
            decreases self.errors@.len() - i,
        {
            let s = self.errors[i].severity();
            let counts = match s {
                None => true,
                Some(Severity::Error) => true,
                Some(Severity::Warning) => false,
            };
            if counts {
                found = true;
            }
            assert(is_error(self.errors@[i as int]) == counts);
            i = i + 1;
        }
        found
    }
}

} // verus!
