//! Collects type constraints from the signatures of items.
//!
//! For a block function `fn foo(x: Type, y: Type) -> RetType` the collector
//! records that `foo` is a declared function with the parameters `x` and
//! `y`, that each parameter has the type its type name was given, and that
//! `foo` returns the type of `RetType`.

use vstd::prelude::*;

use crate::ast::{BlockFnDeclaration, Identifier, Item, ScopedId, TypeExpression, Unit};
use crate::check::assoc::assoc_get;
use crate::check::scope::scope::spec_default_index;
use crate::check::types::environment::{
    ConstraintSource, TypeConstraint, TypeEnvironment, TypeId,
};

verus! {

/// Collects type information from item signatures into a
/// `TypeEnvironment`.
#[derive(Debug, PartialEq, Eq)]
pub struct ItemTypeCollector {
    /// `TypeId` obtained by visiting a type.
    current_id: TypeId,
    /// `ScopedId` of the item being collected.
    current_scope: ScopedId,
}

/// The type id held after visiting the type expression `t`, when `prev`
/// was held before: an unnamed type name gives `0`, a named one the id
/// its definition was given; anything else leaves `prev`.
pub open spec fn visited_type_id(defs: Seq<(Seq<usize>, u64)>, t: TypeExpression, prev: u64) -> u64 {
    match t {
        TypeExpression::Named(n) => if n.ident.id@ == spec_default_index() {
            0
        } else {
            match assoc_get(defs, n.ident.id@) {
                Some(v) => v,
                None => prev,
            }
        },
        _ => prev,
    }
}

/// The type id held after visiting the types of the first `k` parameters.
pub open spec fn param_type_id(defs: Seq<(Seq<usize>, u64)>, params: Seq<(Identifier, TypeExpression)>, prev: u64, k: int) -> u64
    decreases k,
{
    if k <= 0 {
        prev
    } else {
        visited_type_id(defs, params[k - 1].1, param_type_id(defs, params, prev, k - 1))
    }
}

/// The type id held after collecting function `f`.
pub open spec fn fn_return_type_id(defs: Seq<(Seq<usize>, u64)>, f: BlockFnDeclaration, prev: u64) -> u64 {
    visited_type_id(defs, f.ret_ty, param_type_id(defs, f.params@, prev, f.params@.len() as int))
}

/// How many constraints collecting `f` adds: one for the signature, one
/// for each parameter and one for the return type.
pub open spec fn fn_constraint_count(f: BlockFnDeclaration) -> int {
    (f.params@.len() + 2) as int
}

/// The constraints of `f`, collected with `prev` held, stand in `cs` from
/// position `start` on.
pub open spec fn fn_constraints_at(
    cs: Seq<(TypeConstraint, ConstraintSource)>,
    start: int,
    defs: Seq<(Seq<usize>, u64)>,
    f: BlockFnDeclaration,
    prev: u64,
) -> bool {
    let n = f.params@.len() as int;
    &&& 0 <= start
    &&& start + n + 2 <= cs.len()
    &&& cs[start].1 == ConstraintSource::FnSignature
    &&& cs[start].0 matches TypeConstraint::DeclaredFn(id, ps) && id@ == f.ident.id@ && ps@.len() == n
        && forall|j: int| 0 <= j < n ==> #[trigger] ps@[j]@ == f.params@[j].0.id@
    &&& forall|j: int|
        0 <= j < n ==> (#[trigger] cs[start + 1 + j]).1 == ConstraintSource::ParamDecl && (cs[start + 1
            + j].0 matches TypeConstraint::VarIdentKnownType(p, t) && p@ == f.params@[j].0.id@
            && t.value() == param_type_id(defs, f.params@, prev, j + 1))
    &&& cs[start + n + 1].1 == ConstraintSource::FnSignature
    &&& cs[start + n + 1].0 matches TypeConstraint::FnReturnType(id, t) && id@ == f.ident.id@ && t.value()
        == fn_return_type_id(defs, f, prev)
}

/// The type id held after collecting `items` with `prev` held.
pub open spec fn items_type_id(defs: Seq<(Seq<usize>, u64)>, items: Seq<Item>, prev: u64) -> u64
    decreases items.len(),
{
    if items.len() == 0 {
        prev
    } else {
        let before = items_type_id(defs, items.drop_last(), prev);
        match items.last() {
            Item::BlockFnDeclaration(f) => fn_return_type_id(defs, f, before),
            Item::Typedef(_) => before,
        }
    }
}

/// The number of constraints collected from `items`.
pub open spec fn items_constraint_count(items: Seq<Item>) -> int
    decreases items.len(),
{
    if items.len() == 0 {
        0
    } else {
        items_constraint_count(items.drop_last()) + match items.last() {
            Item::BlockFnDeclaration(f) => fn_constraint_count(f),
            Item::Typedef(_) => 0,
        }
    }
}

/// The constraints of `items`, collected with `prev` held, stand in `cs`
/// from position `start` on, one function after the other.
pub open spec fn items_constraints_at(
    cs: Seq<(TypeConstraint, ConstraintSource)>,
    start: int,
    defs: Seq<(Seq<usize>, u64)>,
    items: Seq<Item>,
    prev: u64,
) -> bool
    decreases items.len(),
{
    if items.len() == 0 {
        true
    } else {
        let pos = start + items_constraint_count(items.drop_last());
        &&& items_constraints_at(cs, start, defs, items.drop_last(), prev)
        &&& match items.last() {
            Item::BlockFnDeclaration(f) => fn_constraints_at(
                cs,
                pos,
                defs,
                f,
                items_type_id(defs, items.drop_last(), prev),
            ),
            Item::Typedef(_) => true,
        }
    }
}

proof fn lemma_items_constraint_count(items: Seq<Item>)
    ensures
        items_constraint_count(items) >= 0,
    decreases items.len(),
{
    if items.len() > 0 {
        lemma_items_constraint_count(items.drop_last());
    }
}

/// The constraints agree on `start` and every later position that
/// `items` speaks of.
proof fn lemma_items_constraints_prefix(
    cs: Seq<(TypeConstraint, ConstraintSource)>,
    more: Seq<(TypeConstraint, ConstraintSource)>,
    start: int,
    defs: Seq<(Seq<usize>, u64)>,
    items: Seq<Item>,
    prev: u64,
)
    requires
        items_constraints_at(cs, start, defs, items, prev),
        cs.len() <= more.len(),
        forall|i: int| 0 <= i < cs.len() ==> more[i] == cs[i],
    ensures
        items_constraints_at(more, start, defs, items, prev),
    decreases items.len(),
{
    if items.len() > 0 {
        lemma_items_constraints_prefix(cs, more, start, defs, items.drop_last(), prev);
        let pos = start + items_constraint_count(items.drop_last());
        match items.last() {
            Item::BlockFnDeclaration(f) => {
                let n = f.params@.len() as int;
                assert(more[pos] == cs[pos]);
                assert(more[pos + n + 1] == cs[pos + n + 1]);
                assert forall|j: int| 0 <= j < n implies #[trigger] more[pos + 1 + j] == cs[pos + 1 + j] by {}
            },
            Item::Typedef(_) => {},
        }
    }
}

impl ItemTypeCollector {
    /// The type id the collector holds.
    pub closed spec fn current(&self) -> u64 {
        self.current_id.value()
    }

    /// A collector holding the type id `0`.
    pub fn new() -> (c: ItemTypeCollector)
        ensures
            c.current() == 0,
    {
        ItemTypeCollector { current_id: TypeId::default(), current_scope: ScopedId::default() }
    }

    /// Visits a type name, holding the id its definition was given.
    fn visit_type_expression(&mut self, environment: &TypeEnvironment, t: &TypeExpression)
        requires
            !(t is Function),
        ensures
            final(self).current() == visited_type_id(environment@.known_type_defs, *t, old(self).current()),
    {
        match t {
            TypeExpression::Named(named) => {
                let scoped_id = &named.ident.id;
                if scoped_id.is_default() {
                    self.current_id = TypeId::default();
                    return;
                }
                match environment.get_type_def(scoped_id) {
                    Some(type_id) => {
                        self.current_id = type_id;
                    },
                    None => {},
                }
            },
            _ => {},
        }
    }

    /// Collects the constraints of a function's signature: the declared
    /// function with its parameters, the type of each parameter, and the
    /// return type. Function types in a signature are not handled.
    pub fn visit_block_fn_decl(&mut self, environment: &mut TypeEnvironment, block_fn: &BlockFnDeclaration)
        requires
            !(block_fn.ret_ty is Function),
            forall|i: int|
                0 <= i < block_fn.params@.len() ==> !(#[trigger] block_fn.params@[i].1 is Function),
        ensures
            final(environment)@.known_types == old(environment)@.known_types,
            final(environment)@.known_type_defs == old(environment)@.known_type_defs,
            final(environment)@.curr_type_id == old(environment)@.curr_type_id,
            final(environment)@.constraints.len() == old(environment)@.constraints.len()
                + fn_constraint_count(*block_fn),
            forall|i: int|
                0 <= i < old(environment)@.constraints.len() ==> final(environment)@.constraints[i]
                    == old(environment)@.constraints[i],
            fn_constraints_at(
                final(environment)@.constraints,
                old(environment)@.constraints.len() as int,
                old(environment)@.known_type_defs,
                *block_fn,
                old(self).current(),
            ),
            final(self).current() == fn_return_type_id(old(environment)@.known_type_defs, *block_fn, old(self).current()),
    {
        let ghost env0 = environment@;
        let ghost start = env0.constraints.len() as int;
        let ghost prev = self.current();
        let fn_scope_id = block_fn.ident.id.clone();
        self.current_scope = fn_scope_id.clone();
        let n = block_fn.params.len();
        let mut param_ids: Vec<ScopedId> = Vec::new();
        let mut i: usize = 0;
        while i < n
            invariant
                n == block_fn.params@.len(),
                i <= n,
                param_ids@.len() == i,
                forall|j: int| 0 <= j < i ==> #[trigger] param_ids@[j]@ == block_fn.params@[j].0.id@,
            decreases n - i,
        {
            param_ids.push(block_fn.params[i].0.id.clone());
            i += 1;
        }
        environment.add_constraint(
            TypeConstraint::DeclaredFn(fn_scope_id.clone(), param_ids),
            ConstraintSource::FnSignature,
        );
        let ghost c1 = environment@.constraints;
        assert(c1[start].0 matches TypeConstraint::DeclaredFn(id, ps) && id@ == block_fn.ident.id@
            && ps@.len() == n && forall|j: int| 0 <= j < n ==> #[trigger] ps@[j]@ == block_fn.params@[j].0.id@);
        let mut k: usize = 0;
        while k < n
            invariant
                n == block_fn.params@.len(),
                k <= n,
                forall|j: int|
                    0 <= j < block_fn.params@.len() ==> !(#[trigger] block_fn.params@[j].1 is Function),
                environment@.known_types == env0.known_types,
                environment@.known_type_defs == env0.known_type_defs,
                environment@.curr_type_id == env0.curr_type_id,
                environment@.constraints.len() == start + 1 + k,
                c1.len() == start + 1,
                c1[start].1 == ConstraintSource::FnSignature,
                c1[start].0 matches TypeConstraint::DeclaredFn(id, ps) && id@ == block_fn.ident.id@
                    && ps@.len() == n && forall|j: int| 0 <= j < n ==> #[trigger] ps@[j]@ == block_fn.params@[j].0.id@,
                forall|m: int| 0 <= m < start ==> c1[m] == env0.constraints[m],
                forall|m: int| 0 <= m < start + 1 ==> environment@.constraints[m] == c1[m],
                fn_scope_id@ == block_fn.ident.id@,
                self.current() == param_type_id(env0.known_type_defs, block_fn.params@, prev, k as int),
                forall|j: int|
                    0 <= j < k ==> (#[trigger] environment@.constraints[start + 1 + j]).1
                        == ConstraintSource::ParamDecl && (environment@.constraints[start + 1
                        + j].0 matches TypeConstraint::VarIdentKnownType(p, t) && p@
                        == block_fn.params@[j].0.id@ && t.value() == param_type_id(
                        env0.known_type_defs,
                        block_fn.params@,
                        prev,
                        j + 1,
                    )),
            decreases n - k,
        {
            self.visit_type_expression(environment, &block_fn.params[k].1);
            let param_type = self.current_id;
            environment.add_constraint(
                TypeConstraint::VarIdentKnownType(block_fn.params[k].0.id.clone(), param_type),
                ConstraintSource::ParamDecl,
            );
            k += 1;
        }
        self.visit_type_expression(environment, &block_fn.ret_ty);
        let return_type = self.current_id;
        let ghost c2 = environment@.constraints;
        environment.add_constraint(
            TypeConstraint::FnReturnType(fn_scope_id, return_type),
            ConstraintSource::FnSignature,
        );
        assert forall|i: int| 0 <= i < start implies environment@.constraints[i] == env0.constraints[i] by {
            assert(environment@.constraints[i] == c2[i]);
            assert(c2[i] == c1[i]);
        }
    }

    /// Collects the constraints of the signatures of a unit's functions,
    /// in order. Type definitions are not collected.
    pub fn visit_unit(&mut self, environment: &mut TypeEnvironment, unit: &Unit)
        requires
            forall|i: int|
                0 <= i < unit.items@.len() ==> (#[trigger] unit.items@[i] matches Item::BlockFnDeclaration(f)
                    ==> !(f.ret_ty is Function) && forall|j: int|
                    0 <= j < f.params@.len() ==> !(#[trigger] f.params@[j].1 is Function)),
        ensures
            final(environment)@.known_types == old(environment)@.known_types,
            final(environment)@.known_type_defs == old(environment)@.known_type_defs,
            final(environment)@.curr_type_id == old(environment)@.curr_type_id,
            final(environment)@.constraints.len() == old(environment)@.constraints.len()
                + items_constraint_count(unit.items@),
            forall|i: int|
                0 <= i < old(environment)@.constraints.len() ==> final(environment)@.constraints[i]
                    == old(environment)@.constraints[i],
            items_constraints_at(
                final(environment)@.constraints,
                old(environment)@.constraints.len() as int,
                old(environment)@.known_type_defs,
                unit.items@,
                old(self).current(),
            ),
            final(self).current() == items_type_id(old(environment)@.known_type_defs, unit.items@, old(self).current()),
    {
        let ghost env0 = environment@;
        let ghost start = env0.constraints.len() as int;
        let ghost prev = self.current();
        let ghost items = unit.items@;
        let n = unit.items.len();
        let mut k: usize = 0;
        assert(items.take(0) =~= Seq::<Item>::empty());
        while k < n
            invariant
                n == items.len(),
                items == unit.items@,
                k <= n,
                forall|i: int|
                    0 <= i < items.len() ==> (#[trigger] items[i] matches Item::BlockFnDeclaration(f)
                        ==> !(f.ret_ty is Function) && forall|j: int|
                        0 <= j < f.params@.len() ==> !(#[trigger] f.params@[j].1 is Function)),
                environment@.known_types == env0.known_types,
                environment@.known_type_defs == env0.known_type_defs,
                environment@.curr_type_id == env0.curr_type_id,
                environment@.constraints.len() == start + items_constraint_count(items.take(k as int)),
                forall|i: int| 0 <= i < start ==> environment@.constraints[i] == env0.constraints[i],
                items_constraints_at(environment@.constraints, start, env0.known_type_defs, items.take(k as int), prev),
                self.current() == items_type_id(env0.known_type_defs, items.take(k as int), prev),
            decreases n - k,
        {
            let ghost before = environment@.constraints;
            proof {
                lemma_items_constraint_count(items.take(k as int));
            }
            assert(items.take(k + 1).drop_last() =~= items.take(k as int));
            match &unit.items[k] {
                Item::BlockFnDeclaration(f) => {
                    self.visit_block_fn_decl(environment, f);
                    assert forall|i: int| 0 <= i < start implies environment@.constraints[i] == env0.constraints[i] by {
                        assert(environment@.constraints[i] == before[i]);
                    }
                    proof {
                        lemma_items_constraints_prefix(before, environment@.constraints, start, env0.known_type_defs, items.take(k as int), prev);
                    }
                },
                Item::Typedef(_) => {},
            }
            k += 1;
        }
        assert(items.take(n as int) =~= items);
    }
}

} // verus!
