//! Collection of the errors, warnings and lints found while checking.

use vstd::prelude::*;

use crate::check::errors::{CheckerError, ErrorView};

verus! {

/// Structure to hold compiler errors, warnings, and lints.
#[derive(Debug, PartialEq, Eq)]
pub struct ErrorCollector {
    errors: Vec<CheckerError>,
    warnings: Vec<CheckerError>,
    lints: Vec<CheckerError>,
}

/// The mathematical value of an `ErrorCollector`: three lists, in the order
/// the entries were added.
pub struct CollectorView {
    pub errors: Seq<ErrorView>,
    pub warnings: Seq<ErrorView>,
    pub lints: Seq<ErrorView>,
}

/// The views of a list of errors.
pub open spec fn errors_view(errors: Seq<CheckerError>) -> Seq<ErrorView> {
    errors.map_values(|e: CheckerError| e@)
}

impl View for ErrorCollector {
    type V = CollectorView;

    closed spec fn view(&self) -> CollectorView {
        CollectorView {
            errors: errors_view(self.errors@),
            warnings: errors_view(self.warnings@),
            lints: errors_view(self.lints@),
        }
    }
}

/// The collector with `e` added to its errors.
pub open spec fn with_error(c: CollectorView, e: ErrorView) -> CollectorView {
    CollectorView { errors: c.errors.push(e), ..c }
}

/// The collector with `w` added to its warnings.
pub open spec fn with_warning(c: CollectorView, w: ErrorView) -> CollectorView {
    CollectorView { warnings: c.warnings.push(w), ..c }
}

/// The collector with `l` added to its lints.
pub open spec fn with_lint(c: CollectorView, l: ErrorView) -> CollectorView {
    CollectorView { lints: c.lints.push(l), ..c }
}

impl ErrorCollector {
    /// An empty collector.
    pub fn new() -> (c: ErrorCollector)
        ensures
            c@.errors == Seq::<ErrorView>::empty(),
            c@.warnings == Seq::<ErrorView>::empty(),
            c@.lints == Seq::<ErrorView>::empty(),
    {
        let c = ErrorCollector { errors: Vec::new(), warnings: Vec::new(), lints: Vec::new() };
        assert(c@.errors =~= Seq::<ErrorView>::empty());
        assert(c@.warnings =~= Seq::<ErrorView>::empty());
        assert(c@.lints =~= Seq::<ErrorView>::empty());
        c
    }

    pub fn add_error(&mut self, err: CheckerError)
        ensures
            final(self)@ == with_error(old(self)@, err@),
    {
        self.errors.push(err);
        assert(final(self)@.errors =~= old(self)@.errors.push(err@));
    }

    pub fn add_warning(&mut self, warn: CheckerError)
        ensures
            final(self)@ == with_warning(old(self)@, warn@),
    {
        self.warnings.push(warn);
        assert(final(self)@.warnings =~= old(self)@.warnings.push(warn@));
    }

    pub fn add_lint(&mut self, lint: CheckerError)
        ensures
            final(self)@ == with_lint(old(self)@, lint@),
    {
        self.lints.push(lint);
        assert(final(self)@.lints =~= old(self)@.lints.push(lint@));
    }

    pub fn get_errors(&self) -> (e: &[CheckerError])
        ensures
            errors_view(e@) == self@.errors,
    {
        self.errors.as_slice()
    }

    pub fn get_warnings(&self) -> (w: &[CheckerError])
        ensures
            errors_view(w@) == self@.warnings,
    {
        self.warnings.as_slice()
    }

    pub fn get_lints(&self) -> (l: &[CheckerError])
        ensures
            errors_view(l@) == self@.lints,
    {
        self.lints.as_slice()
    }
}

impl Default for ErrorCollector {
    /// An empty collector.
    fn default() -> (c: ErrorCollector)
        ensures
            c@.errors == Seq::<ErrorView>::empty(),
            c@.warnings == Seq::<ErrorView>::empty(),
            c@.lints == Seq::<ErrorView>::empty(),
    {
        ErrorCollector::new()
    }
}

} // verus!
