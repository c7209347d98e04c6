//! Diagnostics: severity, source location and message records collected
//! while resolving and lowering a compilation unit.

use vstd::prelude::*;

verus! {

/// A half-open span in the source text of one file.
#[derive(Clone, Copy, PartialEq, Eq, Structural, Debug)]
pub struct Loc {
    pub start: usize,
    pub end: usize,
}

/// Severity of a diagnostic. `Fatal` stops the pipeline; `Error` bars the
/// namespace from code generation but resolution keeps collecting.
#[derive(Clone, Copy, PartialEq, Eq, Structural, Debug)]
pub enum Level {
    Info,
    Warning,
    Error,
    Fatal,
}

/// One located diagnostic record.
#[derive(Clone, Debug)]
pub struct Diagnostic {
    pub level: Level,
    pub loc: Loc,
    pub message: String,
}

impl Diagnostic {
    /// True of diagnostics that bar the namespace from code generation.
    pub open spec fn is_error(self) -> bool {
        self.level == Level::Error || self.level == Level::Fatal
    }

    pub fn error(loc: Loc, message: String) -> (d: Diagnostic)
        ensures
            d.level == Level::Error,
            d.loc == loc,
            d.message == message,
    {
        Diagnostic { level: Level::Error, loc, message }
    }

    pub fn fatal(loc: Loc, message: String) -> (d: Diagnostic)
        ensures
            d.level == Level::Fatal,
            d.loc == loc,
            d.message == message,
    {
        Diagnostic { level: Level::Fatal, loc, message }
    }
}

/// True when some diagnostic in `ds` bars code generation.
pub open spec fn any_error(ds: Seq<Diagnostic>) -> bool {
    exists|i: int| 0 <= i < ds.len() && ds[i].is_error()
}

/// True when some diagnostic in `ds` is fatal.
pub open spec fn any_fatal(ds: Seq<Diagnostic>) -> bool {
    exists|i: int| 0 <= i < ds.len() && ds[i].level == Level::Fatal
}

/// Reports whether any collected diagnostic bars code generation.
pub fn has_error(ds: &Vec<Diagnostic>) -> (r: bool)
    ensures
        r == any_error(ds@),
{
    let mut i: usize = 0;
    while i < ds.len()
        invariant
            0 <= i <= ds@.len(),
            forall|j: int| 0 <= j < i ==> !ds@[j].is_error(),
        decreases ds@.len() - i,
    {
        if matches!(ds[i].level, Level::Error | Level::Fatal) {
            assert(ds@[i as int].is_error());
            return true;
        }
        i = i + 1;
    }
    false
}

} // verus!
