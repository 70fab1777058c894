//! Runs type inference on the type graph to find the concrete types of
//! variables, reporting those it cannot find.

use vstd::prelude::*;

use crate::ast::ScopedId;
use crate::check::assoc::{assoc_contains, assoc_get};
use crate::check::collector::{CollectorView, ErrorCollector, with_error};
use crate::check::errors::{CheckerError, error_view, tokens_view};
use crate::check::text::concat3;
use crate::check::types::identify::type_graph::{TypeGraphView, first_concrete, reaches};
use crate::check::types::identify::type_graph::SourceView;
use crate::check::types::identify::TypeGraph;
use crate::lex::Token;

verus! {

/// A concrete type can be reached from the node `start`.
pub open spec fn reaches_concrete(g: TypeGraphView, start: int) -> bool {
    exists|k: int| #![trigger g.nodes[k]] 0 <= k < g.nodes.len() && reaches(g.edges, start, k) && g.nodes[k] is ConcreteType
}

/// `Could not determine type of {context} (conflicts)`
pub open spec fn msg_no_type(context: Seq<char>) -> Seq<char> {
    "Could not determine type of "@ + context + " (conflicts)"@
}

/// Finds the concrete types of the program's values in the type graph.
pub struct TypeConcretifier {
    errors: ErrorCollector,
}

impl TypeConcretifier {
    /// A concretifier reporting into `errors`.
    pub fn new(errors: ErrorCollector) -> (c: TypeConcretifier)
        ensures
            c.errors_view() == errors@,
    {
        TypeConcretifier { errors }
    }

    /// The errors found so far.
    pub closed spec fn errors_view(&self) -> CollectorView {
        self.errors@
    }

    /// The errors found, giving up the concretifier.
    pub fn into_errors(self) -> (e: ErrorCollector)
        ensures
            e@ == self.errors_view(),
    {
        self.errors
    }

    /// Infers the type of the variable `id`: whether a concrete type can
    /// be reached from its node. The first one a depth-first walk comes to
    /// is recorded by an edge from the variable's node. Where none can be
    /// reached, an error at `source` says what `context` could not be
    /// typed.
    pub fn infer_var(&mut self, graph: &mut TypeGraph, id: &ScopedId, source: &Token, context: &str) -> (found: bool)
        requires
            old(graph).wf(),
            assoc_contains(old(graph)@.variables, id@),
            old(graph)@.edges.len() < u32::MAX,
        ensures
            final(graph).wf(),
            found == reaches_concrete(old(graph)@, assoc_get(old(graph)@.variables, id@).unwrap()),
            match first_concrete(old(graph)@, assoc_get(old(graph)@.variables, id@).unwrap()) {
                Some(k) => found && final(graph)@ == (TypeGraphView {
                    edges: old(graph)@.edges.push(
                        (assoc_get(old(graph)@.variables, id@).unwrap(), k, SourceView::Inferred),
                    ),
                    ..old(graph)@
                }),
                None => !found && final(graph)@ == old(graph)@,
            },
            final(self).errors_view() == if found {
                old(self).errors_view()
            } else {
                with_error(old(self).errors_view(), error_view(source@, seq![], msg_no_type(context@)))
            },
    {
        let inferred = graph.infer_type_of_var(id);
        match inferred {
            Some(_) => true,
            None => {
                let text = concat3("Could not determine type of ", context, " (conflicts)");
                let refs: Vec<Token> = Vec::new();
                assert(tokens_view(refs@) =~= Seq::<crate::lex::TokenView>::empty());
                self.errors.add_error(CheckerError::new(source.clone(), refs, text));
                false
            },
        }
    }
}

} // verus!
