//! Diagnostics: what validation reports, with where and how severe.
use crate::ast::Span;
use vstd::std_specs::iter::IteratorSpec;
use vstd::prelude::*;

verus! {

/// The severity of a diagnostic.
#[derive(Debug, Clone, Copy, PartialEq, Eq, Hash, Structural)]
pub enum Severity {
    /// An error that prevents correct processing.
    Error,
    /// A warning that doesn't prevent processing but may indicate a problem.
    Warning,
}

/// A diagnostic message with location information.
#[derive(Debug, PartialEq, Eq, Hash)]
pub struct Diagnostic {
    /// The span where the diagnostic applies.
    pub span: Span,
    /// The severity of the diagnostic.
    pub severity: Severity,
    /// The diagnostic message.
    pub message: String,
    /// An optional suggestion for fixing the issue.
    pub suggestion: Option<String>,
}

/// The model of a diagnostic.
pub struct DiagV {
    pub span: Span,
    pub severity: Severity,
    pub message: Seq<char>,
    pub suggestion: Option<Seq<char>>,
}

impl View for Diagnostic {
    type V = DiagV;

    open spec fn view(&self) -> DiagV {
        DiagV {
            span: self.span,
            severity: self.severity,
            message: self.message@,
            suggestion: match self.suggestion {
                Some(s) => Some(s@),
                None => None,
            },
        }
    }
}

/// The model of a list of diagnostics.
pub open spec fn diags_view(v: Seq<Diagnostic>) -> Seq<DiagV> {
    Seq::new(v.len(), |i: int| v[i]@)
}

/// True when some diagnostic of the list is an error.
pub open spec fn any_error(d: Seq<DiagV>) -> bool {
    exists|i: int| 0 <= i < d.len() && (#[trigger] d[i]).severity == Severity::Error
}

/// A copy of a diagnostic.
pub fn clone_diagnostic(d: &Diagnostic) -> (r: Diagnostic)
    ensures
        r@ == d@,
{
    Diagnostic {
        span: d.span,
        severity: d.severity,
        message: d.message.clone(),
        suggestion: match &d.suggestion {
            Some(s) => Some(s.clone()),
            None => None,
        },
    }
}

/// A collection of diagnostics, in the order they were reported.
#[derive(Debug)]
pub struct DiagnosticSet {
    diagnostics: Vec<Diagnostic>,
}

impl View for DiagnosticSet {
    type V = Seq<DiagV>;

    closed spec fn view(&self) -> Seq<DiagV> {
        diags_view(self.diagnostics@)
    }
}

impl DiagnosticSet {
    /// Creates an empty set.
    pub fn new() -> (r: DiagnosticSet)
        ensures
            r@ == Seq::<DiagV>::empty(),
    {
        let r = DiagnosticSet { diagnostics: Vec::new() };
        proof {
            assert(diags_view(r.diagnostics@) =~= Seq::<DiagV>::empty());
        }
        r
    }

    /// The diagnostics, in order (what iterating over the set by value yields).
    pub fn into_vec(self) -> (r: Vec<Diagnostic>)
        ensures
            diags_view(r@) == self@,
    {
        self.diagnostics
    }

    /// Adds a diagnostic at the end.
    pub fn add(&mut self, diagnostic: Diagnostic)
        ensures
            final(self)@ == old(self)@.push(diagnostic@),
    {
        let ghost d = diagnostic@;
        self.diagnostics.push(diagnostic);
        proof {
            assert(diags_view(self.diagnostics@) =~= diags_view(old(self).diagnostics@).push(d));
        }
    }

    /// Adds all diagnostics of `other` at the end, in their order.
    pub fn extend(&mut self, other: DiagnosticSet)
        ensures
            final(self)@ == old(self)@ + other@,
    {
        let ghost start = self@;
        let ghost all = other@;
        let mut i: usize = 0;
        while i < other.diagnostics.len()
            invariant
                i <= other.diagnostics@.len(),
                all == diags_view(other.diagnostics@),
                self@ == start + all.take(i as int),
            decreases other.diagnostics@.len() - i,
        {
            self.add(clone_diagnostic(&other.diagnostics[i]));
            proof {
                assert(all.take(i + 1) =~= all.take(i as int).push(all[i as int]));
            }
            i = i + 1;
        }
        proof {
            assert(all.take(i as int) =~= all);
        }
    }

    /// The diagnostics, in order.
    pub fn iter(&self) -> (r: std::slice::Iter<'_, Diagnostic>)
        ensures
            diags_view(r.remaining().map_values(|d: &Diagnostic| *d)) == self@,
    {
        let s = self.diagnostics.as_slice();
        let r = s.iter();
        proof {
            vstd::std_specs::slice::axiom_spec_slice_iter(s);
            assert(r.remaining().map_values(|d: &Diagnostic| *d) =~= self.diagnostics@);
        }
        r
    }

    /// The diagnostics as a list, in order.
    pub fn as_slice(&self) -> (r: &[Diagnostic])
        ensures
            diags_view(r@) == self@,
    {
        self.diagnostics.as_slice()
    }

    /// True when some diagnostic is an error.
    pub fn has_errors(&self) -> (r: bool)
        ensures
            r == any_error(self@),
    {
        let ghost v = self@;
        let mut i: usize = 0;
        while i < self.diagnostics.len()
            invariant
                i <= self.diagnostics@.len(),
                v == diags_view(self.diagnostics@),
                forall|j: int| 0 <= j < i ==> (#[trigger] v[j]).severity != Severity::Error,
            decreases self.diagnostics@.len() - i,
        {
            match self.diagnostics[i].severity {
                Severity::Error => {
                    proof {
                        assert(v[i as int].severity == Severity::Error);
                    }
                    return true;
                },
                Severity::Warning => {},
            }
            i = i + 1;
        }
        false
    }

    /// The number of diagnostics.
    pub fn len(&self) -> (r: usize)
        ensures
            r == self@.len(),
    {
        self.diagnostics.len()
    }

    /// True when there are no diagnostics.
    pub fn is_empty(&self) -> (r: bool)
        ensures
            r == (self@.len() == 0),
    {
        self.diagnostics.len() == 0
    }
}

} // verus!
