//! Type environment which collects type constraints for unification.

use vstd::prelude::*;

use crate::ast::ScopedId;
use crate::check::assoc::{assoc_get, assoc_set, find_key, lemma_find_key_is, lemma_find_key_none};
use crate::check::id::UniqueId;

verus! {

/// Represents a unique type.
#[derive(Debug, PartialEq, Eq, Clone, Copy, Hash, Structural)]
pub struct TypeId(u64);

impl TypeId {
    /// The numeric value of the id; `0` is the unassigned id.
    pub closed spec fn value(&self) -> u64 {
        self.0
    }

    /// The id with the given number, in specifications.
    pub closed spec fn of_value(value: u64) -> TypeId {
        TypeId(value)
    }

    /// An id is the id of its number.
    pub proof fn lemma_of_value(t: TypeId)
        ensures
            t == TypeId::of_value(t.value()),
            TypeId::of_value(t.value()).value() == t.value(),
    {
    }

    /// The id with the given number.
    pub fn new(value: u64) -> (t: TypeId)
        ensures
            t.value() == value,
    {
        TypeId(value)
    }

    /// The numeric value of the id.
    pub fn number(&self) -> (n: u64)
        ensures
            n == self.value(),
    {
        self.0
    }

    /// Produce the next TypeId.
    pub fn next(&self) -> (t: TypeId)
        requires
            self.value() < u64::MAX,
        ensures
            t.value() == self.value() + 1,
    {
        TypeId(self.0 + 1)
    }

    /// Increment this TypeId, returning the new id.
    pub fn increment(&mut self) -> (t: TypeId)
        requires
            old(self).value() < u64::MAX,
        ensures
            final(self).value() == old(self).value() + 1,
            t == *final(self),
    {
        self.0 += 1;
        *self
    }

    /// Whether this TypeId has been assigned yet: the id `0` has not.
    pub fn is_default(&self) -> (b: bool)
        ensures
            b == (self.value() == 0),
    {
        self.0 == 0
    }
}

impl Default for TypeId {
    /// The unassigned id `0`.
    fn default() -> (t: TypeId)
        ensures
            t.value() == 0,
    {
        TypeId(0)
    }
}

impl UniqueId for TypeId {
    open spec fn position(&self) -> int {
        self.value() as int
    }

    open spec fn last_position() -> int {
        u64::MAX as int
    }

    fn increment(&mut self) {
        TypeId::increment(self);
    }

    fn decrement(&mut self) {
        self.0 -= 1;
    }

    fn next(&self) -> (n: TypeId) {
        TypeId::next(self)
    }
}

/// A constraint that was found about types in a program.
#[derive(Debug, PartialEq, Eq)]
pub enum TypeConstraint {
    /// Two `TypeId`s must be the same type.
    TypesAreSame(TypeId, TypeId),
    /// A variable `ScopedId` has a known type.
    VarIdentKnownType(ScopedId, TypeId),
    /// Two identifiers have the same type.
    IdentsSameType(ScopedId, ScopedId),
    /// The identifier corresponds to a declared fn with named params.
    DeclaredFn(ScopedId, Vec<ScopedId>),
    /// The return type of an identifier is known.
    FnReturnType(ScopedId, TypeId),
    /// The return type of an identified fn is unit.
    FnReturnsUnit(ScopedId),
    /// The type of an expression is that of the return type of a fn.
    TypeIsFnReturned(TypeId, ScopedId),
    /// A value of the given type is passed to the named parameter of a fn.
    ValueForFnArg(ScopedId, ScopedId, TypeId),
}

/// The mathematical value of a `TypeConstraint`: identifiers by the views
/// of their `ScopedId`s and types by their ids.
pub enum ConstraintView {
    TypesAreSame(u64, u64),
    VarIdentKnownType(Seq<usize>, u64),
    IdentsSameType(Seq<usize>, Seq<usize>),
    DeclaredFn(Seq<usize>, Seq<Seq<usize>>),
    FnReturnType(Seq<usize>, u64),
    FnReturnsUnit(Seq<usize>),
    TypeIsFnReturned(u64, Seq<usize>),
    ValueForFnArg(Seq<usize>, Seq<usize>, u64),
}

/// The view of a constraint.
pub open spec fn constraint_view(c: TypeConstraint) -> ConstraintView {
    match c {
        TypeConstraint::TypesAreSame(a, b) => ConstraintView::TypesAreSame(a.value(), b.value()),
        TypeConstraint::VarIdentKnownType(v, t) => ConstraintView::VarIdentKnownType(v@, t.value()),
        TypeConstraint::IdentsSameType(a, b) => ConstraintView::IdentsSameType(a@, b@),
        TypeConstraint::DeclaredFn(f, ps) => ConstraintView::DeclaredFn(f@, ps@.map_values(|p: ScopedId| p@)),
        TypeConstraint::FnReturnType(f, t) => ConstraintView::FnReturnType(f@, t.value()),
        TypeConstraint::FnReturnsUnit(f) => ConstraintView::FnReturnsUnit(f@),
        TypeConstraint::TypeIsFnReturned(t, f) => ConstraintView::TypeIsFnReturned(t.value(), f@),
        TypeConstraint::ValueForFnArg(f, p, t) => ConstraintView::ValueForFnArg(f@, p@, t.value()),
    }
}

/// The views of a list of constraints with their sources.
pub open spec fn constraints_view(cs: Seq<(TypeConstraint, ConstraintSource)>) -> Seq<(ConstraintView, ConstraintSource)> {
    cs.map_values(|c: (TypeConstraint, ConstraintSource)| (constraint_view(c.0), c.1))
}

/// The type of the variable `var` given by the first constraint, from
/// position `i` on, that gives it one.
pub open spec fn var_type_from(cs: Seq<(ConstraintView, ConstraintSource)>, var: Seq<usize>, i: int) -> Option<u64>
    decreases cs.len() - i,
{
    if i < 0 || i >= cs.len() {
        None
    } else {
        match cs[i].0 {
            ConstraintView::VarIdentKnownType(v, t) => if v == var {
                Some(t)
            } else {
                var_type_from(cs, var, i + 1)
            },
            _ => var_type_from(cs, var, i + 1),
        }
    }
}

/// Source of a type constraint.
#[derive(Debug, PartialEq, Eq, Clone, Copy, Hash, Structural)]
pub enum ConstraintSource {
    /// The constraint source is unknown
    Unknown,
    /// This type constraint was a result of a fn signature
    FnSignature,
    /// This type constraint was a result of an inline fn sigature
    InlineFnSignature,
    /// The variable is declared as the parameter of a funcion.
    ParamDecl,
    /// A variable was declared with an explicit type.
    ExplicitVarDecl,
    /// A variable was declared with a value.
    VarDeclValue,
    /// A value was assigned to a variable.
    VarAssignment,
    /// An operand of an arithmetic or comparison operator.
    NumericOperator,
    /// An operand of `==` or `!=`.
    EqualityOperator,
    /// The type of a value was inferred because of a fn call.
    CalledFnReturnType,
    /// The value is the conditional of an `if` block or expression.
    IfConditionalBool,
    /// The value must match another branch of an `if`.
    IfBranchesSame,
    /// The value was used in a `return` statement.
    ExplicitReturnMatch,
    /// The value was used in an implicit return expression.
    ImplicitReturnMatch,
}

/// Collects type constraints for type inference, given the `ScopedId`s of
/// the symbol and item passes.
#[derive(Debug, PartialEq, Eq)]
pub struct TypeEnvironment {
    /// Known type variables, with the `ScopedId` of their definition.
    known_types: Vec<(TypeId, ScopedId)>,
    /// `TypeId`s of given type identifiers.
    known_type_defs: Vec<(ScopedId, TypeId)>,
    /// Bounds on types, with their sources.
    constraints: Vec<(TypeConstraint, ConstraintSource)>,
    /// Current `TypeId` for creating new relations.
    curr_type_id: TypeId,
}

/// The mathematical value of a type environment.
pub struct EnvironmentView {
    pub known_types: Seq<(u64, Seq<usize>)>,
    pub known_type_defs: Seq<(Seq<usize>, u64)>,
    pub constraints: Seq<(TypeConstraint, ConstraintSource)>,
    pub curr_type_id: u64,
}

impl EnvironmentView {
    /// Every `TypeId` the environment knows, of a type variable or of a type
    /// definition, was handed out already: none is above the current id.
    pub open spec fn wf(self) -> bool {
        &&& forall|j: int| 0 <= j < self.known_types.len() ==> #[trigger] self.known_types[j].0 <= self.curr_type_id
        &&& forall|j: int| 0 <= j < self.known_type_defs.len() ==> #[trigger] self.known_type_defs[j].1
            <= self.curr_type_id
    }

    /// The environment knows the `TypeId` `id`, of a type variable or of a
    /// type definition.
    pub open spec fn knows_id(self, id: u64) -> bool {
        ||| exists|j: int| 0 <= j < self.known_types.len() && #[trigger] self.known_types[j].0 == id
        ||| exists|j: int| 0 <= j < self.known_type_defs.len() && #[trigger] self.known_type_defs[j].1 == id
    }
}

impl TypeEnvironment {
    /// Every id the environment knows was handed out already.
    #[verifier::type_invariant]
    spec fn ids_handed_out(&self) -> bool {
        &&& forall|j: int| 0 <= j < self.known_types@.len() ==> #[trigger] self.known_types@[j].0.value() <= self.curr_type_id.value()
        &&& forall|j: int| 0 <= j < self.known_type_defs@.len() ==> #[trigger] self.known_type_defs@[j].1.value()
            <= self.curr_type_id.value()
    }

    /// The type invariant, stated over the view.
    proof fn lemma_view_wf(&self)
        requires
            self.ids_handed_out(),
        ensures
            self@.wf(),
    {
        assert forall|j: int| 0 <= j < self@.known_types.len() implies #[trigger] self@.known_types[j].0 <= self@.curr_type_id by {
            assert(self@.known_types[j].0 == self.known_types@[j].0.value());
        }
        assert forall|j: int| 0 <= j < self@.known_type_defs.len() implies #[trigger] self@.known_type_defs[j].1 <= self@.curr_type_id by {
            assert(self@.known_type_defs[j].1 == self.known_type_defs@[j].1.value());
        }
    }
}

impl View for TypeEnvironment {
    type V = EnvironmentView;

    closed spec fn view(&self) -> EnvironmentView {
        EnvironmentView {
            known_types: self.known_types@.map_values(|e: (TypeId, ScopedId)| (e.0.value(), e.1@)),
            known_type_defs: self.known_type_defs@.map_values(|e: (ScopedId, TypeId)| (e.0@, e.1.value())),
            constraints: self.constraints@,
            curr_type_id: self.curr_type_id.value(),
        }
    }
}

impl TypeEnvironment {
    /// Creates a new `TypeEnvironment` defining the two standard types
    /// (`float` and `bool`): the type names with `ScopedId`s `[1]` and `[2]`
    /// get `TypeId`s `1` and `2`.
    pub fn new() -> (env: TypeEnvironment)
        ensures
            env@.known_type_defs == seq![(seq![1usize], 1u64), (seq![2usize], 2u64)],
            env@.known_types == seq![(1u64, seq![1usize]), (2u64, seq![2usize])],
            env@.constraints.len() == 0,
            env@.curr_type_id == 2,
            env@.wf(),
    {
        let mut scope_id = ScopedId::default();
        let mut type_id = TypeId::default();
        let mut known_type_defs: Vec<(ScopedId, TypeId)> = Vec::new();
        let mut known_types: Vec<(TypeId, ScopedId)> = Vec::new();
        let mut i: usize = 0;
        while i < 2
            invariant
                i <= 2,
                scope_id@ == seq![i as usize],
                type_id.value() == i,
                known_type_defs@.len() == i,
                known_types@.len() == i,
                forall|j: int| 0 <= j < i ==> #[trigger] known_type_defs@[j].0@ == seq![(j + 1) as usize]
                    && known_type_defs@[j].1.value() == j + 1,
                forall|j: int| 0 <= j < i ==> #[trigger] known_types@[j].1@ == seq![(j + 1) as usize]
                    && known_types@[j].0.value() == j + 1,
            decreases 2 - i,
        {
            scope_id.increment();
            TypeId::increment(&mut type_id);
            let def_id = scope_id.clone();
            let type_scope = scope_id.clone();
            assert(def_id@ == seq![(i + 1) as usize] && type_scope@ == seq![(i + 1) as usize]);
            known_type_defs.push((def_id, type_id));
            let ghost prev = known_types@;
            known_types.push((type_id, type_scope));
            assert forall|j: int| 0 <= j < i + 1 implies #[trigger] known_types@[j].1@ == seq![(j + 1) as usize]
                && known_types@[j].0.value() == j + 1 by {
                if j < i {
                    assert(known_types@[j] == prev[j]);
                }
            }
            i += 1;
        }
        assert forall|j: int| 0 <= j < known_types@.len() implies #[trigger] known_types@[j].0.value() <= type_id.value() by {
            assert(known_types@[j].1@ == seq![(j + 1) as usize]);
        }
        assert forall|j: int| 0 <= j < known_type_defs@.len() implies #[trigger] known_type_defs@[j].1.value() <= type_id.value() by {
            assert(known_type_defs@[j].0@ == seq![(j + 1) as usize]);
        }
        let env = TypeEnvironment {
            known_types,
            known_type_defs,
            constraints: Vec::new(),
            curr_type_id: type_id,
        };
        assert(env@.known_type_defs =~= seq![(seq![1usize], 1u64), (seq![2usize], 2u64)]);
        assert(env@.known_types =~= seq![(1u64, seq![1usize]), (2u64, seq![2usize])]);
        env
    }

    /// Get a new fresh `TypeId` from the environment: one above every id
    /// handed out before, so one that the environment does not know yet.
    pub fn declare_new_type(&mut self) -> (t: TypeId)
        requires
            old(self)@.curr_type_id < u64::MAX,
        ensures
            final(self)@ == (EnvironmentView { curr_type_id: (old(self)@.curr_type_id + 1) as u64, ..old(self)@ }),
            t.value() == final(self)@.curr_type_id,
            !old(self)@.knows_id(t.value()),
    {
        proof {
            use_type_invariant(&*self);
            self.lemma_view_wf();
        }
        let ghost before = self@;
        self.curr_type_id = self.curr_type_id.next();
        proof {
            assert(self@ == (EnvironmentView { curr_type_id: (before.curr_type_id + 1) as u64, ..before }));
            law_declared_type_is_fresh(before, 0);
        }
        self.curr_type_id
    }

    /// Declare a new `TypeId` for a given var identifier, with a constraint
    /// (of unknown source) that the variable has that type.
    pub fn declare_var_new_type(&mut self, var_id: ScopedId) -> (t: TypeId)
        requires
            old(self)@.curr_type_id < u64::MAX,
        ensures
            t.value() == old(self)@.curr_type_id + 1,
            final(self)@ == (EnvironmentView {
                curr_type_id: (old(self)@.curr_type_id + 1) as u64,
                constraints: old(self)@.constraints.push(
                    (TypeConstraint::VarIdentKnownType(var_id, t), ConstraintSource::Unknown),
                ),
                ..old(self)@
            }),
            !old(self)@.knows_id(t.value()),
    {
        let type_id = self.declare_new_type();
        self.push_entry((TypeConstraint::VarIdentKnownType(var_id, type_id), ConstraintSource::Unknown));
        type_id
    }

    /// Declare a new `TypeId` for a given type identifier.
    pub fn declare_new_type_def(&mut self, type_ident: ScopedId) -> (t: TypeId)
        requires
            old(self)@.curr_type_id < u64::MAX,
        ensures
            t.value() == old(self)@.curr_type_id + 1,
            final(self)@ == (EnvironmentView {
                curr_type_id: (old(self)@.curr_type_id + 1) as u64,
                known_type_defs: assoc_set(old(self)@.known_type_defs, type_ident@, t.value()),
                ..old(self)@
            }),
            !old(self)@.knows_id(t.value()),
    {
        let type_id = self.declare_new_type();
        proof {
            use_type_invariant(&*self);
            self.lemma_view_wf();
        }
        let ghost k = type_ident@;
        let ghost before = self@.known_type_defs;
        let found = self.def_position(&type_ident);
        let mut defs: Vec<(ScopedId, TypeId)> = Vec::new();
        std::mem::swap(&mut defs, &mut self.known_type_defs);
        assert(defs@.map_values(|e: (ScopedId, TypeId)| (e.0@, e.1.value())) == before);
        match found {
            Some(j) => {
                defs.set(j, (type_ident, type_id));
            },
            None => {
                defs.push((type_ident, type_id));
            },
        }
        let ghost after = defs@.map_values(|e: (ScopedId, TypeId)| (e.0@, e.1.value()));
        match found {
            Some(j) => {
                assert(after =~= before.update(j as int, (k, type_id.value())));
            },
            None => {
                assert(after =~= before.push((k, type_id.value())));
            },
        }
        assert forall|i: int| 0 <= i < defs@.len() implies #[trigger] defs@[i].1.value() <= self.curr_type_id.value() by {
            assert(after[i] == (defs@[i].0@, defs@[i].1.value()));
            if after[i] != (k, type_id.value()) {
                assert(after[i] == before[i]);
            }
        }
        std::mem::swap(&mut defs, &mut self.known_type_defs);
        assert(self@.known_type_defs == after);
        type_id
    }

    /// Appends a constraint with its source.
    fn push_entry(&mut self, entry: (TypeConstraint, ConstraintSource))
        ensures
            final(self)@ == (EnvironmentView { constraints: old(self)@.constraints.push(entry), ..old(self)@ }),
    {
        proof { use_type_invariant(&*self); }
        let mut cs: Vec<(TypeConstraint, ConstraintSource)> = Vec::new();
        std::mem::swap(&mut cs, &mut self.constraints);
        cs.push(entry);
        std::mem::swap(&mut cs, &mut self.constraints);
        assert(self@.constraints =~= old(self)@.constraints.push(entry));
    }

    /// The position of the definition of a type identifier.
    fn def_position(&self, type_ident: &ScopedId) -> (r: Option<usize>)
        ensures
            match r {
                Some(j) => j < self@.known_type_defs.len() && find_key(self@.known_type_defs, type_ident@) == Some(
                    j as int,
                ),
                None => find_key(self@.known_type_defs, type_ident@) is None,
            },
            self@.known_type_defs.len() == self.known_type_defs@.len(),
    {
        let ghost defs = self@.known_type_defs;
        let n = self.known_type_defs.len();
        let mut i: usize = 0;
        while i < n
            invariant
                n == self.known_type_defs@.len(),
                defs == self@.known_type_defs,
                i <= n,
                forall|m: int| 0 <= m < i ==> defs[m].0 != type_ident@,
            decreases n - i,
        {
            if self.known_type_defs[i].0.same_as(type_ident) {
                proof { lemma_find_key_is(defs, type_ident@, i as int); }
                return Some(i);
            }
            i += 1;
        }
        proof { lemma_find_key_none(defs, type_ident@); }
        None
    }

    /// The `TypeId` given to a type identifier.
    pub fn get_type_def(&self, type_ident: &ScopedId) -> (t: Option<TypeId>)
        ensures
            match t {
                Some(t) => assoc_get(self@.known_type_defs, type_ident@) == Some(t.value()),
                None => assoc_get(self@.known_type_defs, type_ident@) is None,
            },
    {
        match self.def_position(type_ident) {
            Some(j) => Some(self.known_type_defs[j].1),
            None => None,
        }
    }

    /// The type of a variable: the first one a constraint gives it.
    pub fn get_type_id_of_var(&self, var: &ScopedId) -> (t: Option<TypeId>)
        ensures
            match t {
                Some(t) => var_type_from(constraints_view(self@.constraints), var@, 0) == Some(t.value()),
                None => var_type_from(constraints_view(self@.constraints), var@, 0) is None,
            },
    {
        let ghost cs = constraints_view(self@.constraints);
        let n = self.constraints.len();
        let mut i: usize = 0;
        while i < n
            invariant
                n == self.constraints@.len(),
                cs == constraints_view(self@.constraints),
                i <= n,
                var_type_from(cs, var@, 0) == var_type_from(cs, var@, i as int),
            decreases n - i,
        {
            assert(cs[i as int] == (constraint_view(self.constraints@[i as int].0), self.constraints@[i as int].1));
            match &self.constraints[i].0 {
                TypeConstraint::VarIdentKnownType(v, t) => {
                    if v.same_as(var) {
                        return Some(*t);
                    }
                },
                _ => {},
            }
            i += 1;
        }
        None
    }

    /// The constraints collected so far, in order, with their sources.
    pub fn constraints(&self) -> (c: &[(TypeConstraint, ConstraintSource)])
        ensures
            c@ == self@.constraints,
    {
        self.constraints.as_slice()
    }

    /// Add a new `TypeConstraint` to the type environment.
    pub fn add_constraint(&mut self, constraint: TypeConstraint, source: ConstraintSource)
        ensures
            final(self)@ == (EnvironmentView {
                constraints: old(self)@.constraints.push((constraint, source)),
                ..old(self)@
            }),
    {
        let ghost before = self@;
        self.push_entry((constraint, source));
        assert(self@.known_types == before.known_types);
        assert(self@.known_type_defs == before.known_type_defs);
    }
}

/// Ids handed out by `declare_new_type` are fresh: in an environment whose
/// known ids were all handed out by it, the next id is none of them, nor any
/// id handed out before it; and the environment after the call keeps that
/// property.
pub proof fn law_declared_type_is_fresh(env: EnvironmentView, earlier: u64)
    requires
        env.wf(),
        env.curr_type_id < u64::MAX,
        earlier <= env.curr_type_id,
    ensures
        !env.knows_id((env.curr_type_id + 1) as u64),
        earlier != env.curr_type_id + 1,
        (EnvironmentView { curr_type_id: (env.curr_type_id + 1) as u64, ..env }).wf(),
{
}

} // verus!
