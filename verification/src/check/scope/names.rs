//! Naming the items that can be used in expressions: functions, and their
//! parameters under the names `{function}:{parameter}`.

use vstd::prelude::*;

use crate::ast::{BlockFnDeclaration, Item, ScopedId, Unit};
use crate::check::collector::{CollectorView, ErrorCollector};
use crate::check::errors::{error_view, tokens_view, CheckerError, ErrorView};
use crate::check::scope::scope::spec_incremented;
use crate::check::scope::types::NameScopeBuilder;
use crate::check::symbol::checking::msg_fn_already_declared;
use crate::check::symbol::table_builder::{define_innermost, scopes_lookup, ScopeView};
use crate::check::text::concat3;

verus! {

/// Identifies the names of functions and of their parameters, giving each
/// a `ScopedId` one past the previous.
#[derive(Debug, PartialEq, Eq, Clone)]
pub struct ItemVarIdentifier {
    current_id: ScopedId,
}

/// Where naming stands: the scopes of names defined so far, the last id
/// given, and the errors reported.
pub ghost struct VarNaming {
    pub scopes: Seq<ScopeView<Seq<usize>>>,
    pub current: Seq<usize>,
    pub errors: Seq<ErrorView>,
}

/// Where naming a function's parameters stands: the scopes of names, the
/// errors, and how many parameters were given ids.
pub ghost struct ParamNaming {
    pub scopes: Seq<ScopeView<Seq<usize>>>,
    pub errors: Seq<ErrorView>,
    pub named: int,
}

/// The name under which a parameter is defined: `{function}:{parameter}`.
pub open spec fn param_key(fn_name: Seq<char>, param_name: Seq<char>) -> Seq<char> {
    fn_name + ":"@ + param_name
}

/// `Parameter {param} of function {function} is already declared`
pub open spec fn msg_param_already_declared(param_name: Seq<char>, fn_name: Seq<char>) -> Seq<char> {
    "Parameter "@ + param_name + " of function "@ + fn_name + " is already declared"@
}

/// Naming the parameters of `f` from the `i`th on, the previous one having
/// the id `pid`: each gets the next id under its key, until a key that is
/// already defined, which is reported at the function and ends the naming.
pub open spec fn name_params(
    scopes: Seq<ScopeView<Seq<usize>>>,
    errors: Seq<ErrorView>,
    f: BlockFnDeclaration,
    i: int,
    pid: Seq<usize>,
) -> ParamNaming
    decreases f.params@.len() - i,
{
    if i < 0 || i >= f.params@.len() {
        ParamNaming { scopes, errors, named: i }
    } else {
        let fn_name = f.ident.token.text@;
        let p = f.params@[i].0.token.text@;
        let key = param_key(fn_name, p);
        if scopes_lookup(scopes, key) is Some {
            ParamNaming {
                scopes,
                errors: errors.push(
                    error_view(f.ident.token@, Seq::empty(), msg_param_already_declared(p, fn_name)),
                ),
                named: i,
            }
        } else {
            name_params(
                define_innermost(scopes, key, spec_incremented(pid)),
                errors,
                f,
                i + 1,
                spec_incremented(pid),
            )
        }
    }
}

/// The id a function gets when it is named after `current`.
pub open spec fn fn_id(current: Seq<usize>) -> Seq<usize> {
    spec_incremented(current)
}

/// Whether `f`'s name is new in `st`, so that `f` gets named.
pub open spec fn fn_name_is_new(st: VarNaming, f: BlockFnDeclaration) -> bool {
    scopes_lookup(st.scopes, f.ident.token.text@) is None
}

/// Naming the parameters of `f` once `f` itself was named.
pub open spec fn fn_params_naming(st: VarNaming, f: BlockFnDeclaration) -> ParamNaming {
    let id = fn_id(st.current);
    name_params(define_innermost(st.scopes, f.ident.token.text@, id), st.errors, f, 0, id.push(0))
}

/// Naming one function: a name already defined is reported; otherwise the
/// function gets the next id and its parameters are named.
pub open spec fn fn_var_step(st: VarNaming, f: BlockFnDeclaration) -> VarNaming {
    if !fn_name_is_new(st, f) {
        VarNaming {
            errors: st.errors.push(
                error_view(f.ident.token@, Seq::empty(), msg_fn_already_declared(f.ident.token.text@)),
            ),
            ..st
        }
    } else {
        let p = fn_params_naming(st, f);
        VarNaming { scopes: p.scopes, current: fn_id(st.current), errors: p.errors }
    }
}

/// `new` is the function `old` with the ids that naming in state `st`
/// gives it and its parameters, and nothing else changed.
pub open spec fn fn_var_named(st: VarNaming, old: BlockFnDeclaration, new: BlockFnDeclaration) -> bool {
    &&& new.ident.token == old.ident.token
    &&& new.ret_ty == old.ret_ty
    &&& new.explicit_ret_ty == old.explicit_ret_ty
    &&& new.block == old.block
    &&& new.span == old.span
    &&& new.params@.len() == old.params@.len()
    &&& forall|j: int|
        0 <= j < old.params@.len() ==> #[trigger] new.params@[j].1 == old.params@[j].1
            && new.params@[j].0.token == old.params@[j].0.token
    &&& if fn_name_is_new(st, old) {
        let id = fn_id(st.current);
        let named = fn_params_naming(st, old).named;
        &&& new.ident.id@ == id
        &&& forall|j: int|
            0 <= j < old.params@.len() ==> if j < named {
                (#[trigger] new.params@[j]).0.id@ == id.push((j + 1) as usize)
            } else {
                new.params@[j].0.id == old.params@[j].0.id
            }
    } else {
        &&& new.ident.id == old.ident.id
        &&& forall|j: int| 0 <= j < old.params@.len() ==> #[trigger] new.params@[j].0.id == old.params@[j].0.id
    }
}

/// Naming items in order from state `st`.
pub open spec fn items_var_naming(st: VarNaming, items: Seq<Item>) -> VarNaming
    decreases items.len(),
{
    if items.len() == 0 {
        st
    } else {
        let before = items_var_naming(st, items.drop_last());
        match items.last() {
            Item::BlockFnDeclaration(f) => fn_var_step(before, f),
            Item::Typedef(_) => before,
        }
    }
}

/// `new` is the item `old` named in state `st`.
pub open spec fn item_var_named(st: VarNaming, old: Item, new: Item) -> bool {
    match old {
        Item::BlockFnDeclaration(f) => new matches Item::BlockFnDeclaration(g) && fn_var_named(st, f, g),
        Item::Typedef(_) => new == old,
    }
}

/// Naming parameters keeps at least one scope, and names no more than
/// there are.
proof fn lemma_name_params(
    scopes: Seq<ScopeView<Seq<usize>>>,
    errors: Seq<ErrorView>,
    f: BlockFnDeclaration,
    i: int,
    pid: Seq<usize>,
)
    requires
        0 <= i <= f.params@.len(),
        scopes.len() > 0,
    ensures
        name_params(scopes, errors, f, i, pid).scopes.len() == scopes.len(),
        i <= name_params(scopes, errors, f, i, pid).named <= f.params@.len(),
    decreases f.params@.len() - i,
{
    if i < f.params@.len() {
        let key = param_key(f.ident.token.text@, f.params@[i].0.token.text@);
        if scopes_lookup(scopes, key) is None {
            lemma_name_params(
                define_innermost(scopes, key, spec_incremented(pid)),
                errors,
                f,
                i + 1,
                spec_incremented(pid),
            );
        }
    }
}

proof fn lemma_naming_step(st: VarNaming, items: Seq<Item>, m: int)
    requires
        0 <= m < items.len(),
    ensures
        items_var_naming(st, items.take(m + 1)) == match items[m] {
            Item::BlockFnDeclaration(f) => fn_var_step(items_var_naming(st, items.take(m)), f),
            Item::Typedef(_) => items_var_naming(st, items.take(m)),
        },
{
    assert(items.take(m + 1).drop_last() =~= items.take(m));
    assert(items.take(m + 1).last() == items[m]);
}

/// Naming moves the last id forward only: the index keeps its length, its
/// last position grows by one for each function named and never shrinks.
proof fn lemma_naming_moves_forward(st: VarNaming, items: Seq<Item>, k: int, m: int)
    requires
        st.current.len() > 0,
        st.current.last() + items.len() <= usize::MAX,
        0 <= k <= m <= items.len(),
    ensures
        items_var_naming(st, items.take(m)).current.len() == st.current.len(),
        items_var_naming(st, items.take(k)).current.last() <= items_var_naming(st, items.take(m)).current.last(),
        items_var_naming(st, items.take(m)).current.last() <= st.current.last() + m,
        k < m && (items[k] matches Item::BlockFnDeclaration(f) && fn_name_is_new(
            items_var_naming(st, items.take(k)),
            f,
        )) ==> items_var_naming(st, items.take(k)).current.last() + 1 <= items_var_naming(
            st,
            items.take(m),
        ).current.last(),
    decreases m,
{
    if m == 0 {
        assert(items.take(0) =~= Seq::<Item>::empty());
    } else {
        lemma_naming_moves_forward(st, items, m - 1, m - 1);
        lemma_naming_step(st, items, m - 1);
        if k < m {
            lemma_naming_moves_forward(st, items, k, m - 1);
        }
    }
}

/// The functions that naming gives ids get different ids.
pub proof fn law_named_functions_get_distinct_ids(st: VarNaming, items: Seq<Item>, i: int, j: int)
    requires
        st.current.len() > 0,
        st.current.last() + items.len() <= usize::MAX,
        0 <= i < j < items.len(),
        items[i] matches Item::BlockFnDeclaration(f) && fn_name_is_new(items_var_naming(st, items.take(i)), f),
        items[j] matches Item::BlockFnDeclaration(g) && fn_name_is_new(items_var_naming(st, items.take(j)), g),
    ensures
        fn_id(items_var_naming(st, items.take(i)).current) != fn_id(items_var_naming(st, items.take(j)).current),
{
    lemma_naming_moves_forward(st, items, i, j);
    lemma_naming_moves_forward(st, items, i, i);
    let a = items_var_naming(st, items.take(i)).current;
    let c = items_var_naming(st, items.take(j)).current;
    assert(fn_id(a)[a.len() - 1] == a.last() + 1);
    assert(fn_id(c)[c.len() - 1] == c.last() + 1);
}

impl ItemVarIdentifier {
    /// The last id given.
    pub closed spec fn current(&self) -> Seq<usize> {
        self.current_id@
    }

    /// A pass whose first function gets the id after `scoped_id`.
    pub fn new(scoped_id: ScopedId) -> (p: ItemVarIdentifier)
        ensures
            p.current() == scoped_id@,
    {
        ItemVarIdentifier { current_id: scoped_id }
    }

    /// The last id given.
    pub fn into_last_id(self) -> (id: ScopedId)
        ensures
            id@ == self.current(),
    {
        self.current_id
    }

    /// Names a function and its parameters.
    pub fn visit_block_fn_decl(
        &mut self,
        errors: &mut ErrorCollector,
        builder: &mut NameScopeBuilder,
        block_fn: &mut BlockFnDeclaration,
    )
        requires
            old(builder)@.len() > 0,
            old(self).current().len() > 0,
            old(self).current().last() < usize::MAX,
        ensures
            ({
                let st = VarNaming {
                    scopes: old(builder)@,
                    current: old(self).current(),
                    errors: old(errors)@.errors,
                };
                let after = fn_var_step(st, *old(block_fn));
                &&& final(builder)@ == after.scopes
                &&& final(self).current() == after.current
                &&& final(errors)@ == (CollectorView { errors: after.errors, ..old(errors)@ })
                &&& fn_var_named(st, *old(block_fn), *final(block_fn))
            }),
    {
        let ghost st = VarNaming { scopes: builder@, current: self.current(), errors: errors@.errors };
        let ghost f0 = *block_fn;
        let fn_name = block_fn.ident.token.text.clone();
        if builder.get(&fn_name).is_some() {
            let text = concat3("Function ", fn_name.as_str(), " is already declared");
            let refs: Vec<crate::lex::Token> = Vec::new();
            let err = CheckerError::new(block_fn.ident.token.clone(), refs, text);
            proof {
                reveal_strlit("Function ");
                reveal_strlit(" is already declared");
                assert(tokens_view(refs@) =~= Seq::empty());
            }
            errors.add_error(err);
            return;
        }
        self.current_id.increment();
        let new_id = self.current_id.clone();
        builder.define_local(fn_name.clone(), new_id.clone());
        block_fn.ident.id = new_id;
        let mut param_id = self.current_id.pushed();
        let ghost b1 = builder@;
        let ghost e1 = errors@;
        let ghost pid1 = param_id@;
        let ghost ids = self.current_id@;
        proof {
            lemma_name_params(b1, e1.errors, f0, 0, pid1);
        }
        let n = block_fn.params.len();
        let mut k: usize = 0;
        while k < n
            invariant_except_break
                n == block_fn.params@.len(),
                n == f0.params@.len(),
                k <= n,
                builder@.len() > 0,
                ids == fn_id(st.current),
                self.current() == ids,
                b1 == define_innermost(st.scopes, f0.ident.token.text@, ids),
                pid1 == ids.push(0),
                fn_name@ == f0.ident.token.text@,
                param_id@ == ids.push(k as usize),
                name_params(builder@, errors@.errors, f0, k as int, param_id@) == name_params(b1, e1.errors, f0, 0, pid1),
                errors@.warnings == e1.warnings,
                errors@.lints == e1.lints,
                e1 == old(errors)@,
                st.errors == e1.errors,
                fn_name_is_new(st, f0),
                block_fn.ident.token == f0.ident.token,
                block_fn.ident.id@ == ids,
                block_fn.ret_ty == f0.ret_ty,
                block_fn.explicit_ret_ty == f0.explicit_ret_ty,
                block_fn.block == f0.block,
                block_fn.span == f0.span,
                forall|j: int|
                    0 <= j < n ==> (#[trigger] block_fn.params@[j]).1 == f0.params@[j].1
                        && block_fn.params@[j].0.token == f0.params@[j].0.token,
                forall|j: int| 0 <= j < k ==> (#[trigger] block_fn.params@[j]).0.id@ == ids.push((j + 1) as usize),
                forall|j: int| k <= j < n ==> (#[trigger] block_fn.params@[j]).0.id == f0.params@[j].0.id,
            ensures
                builder@ == fn_var_step(st, f0).scopes,
                self.current() == fn_var_step(st, f0).current,
                errors@ == (CollectorView { errors: fn_var_step(st, f0).errors, ..old(errors)@ }),
                fn_var_named(st, f0, *block_fn),
            decreases n - k,
        {
            let key = concat3(fn_name.as_str(), ":", block_fn.params[k].0.token.text.as_str());
            proof {
                assert(block_fn.params@[k as int].0.token == f0.params@[k as int].0.token);
            }
            let ghost eb = errors@;
            if builder.get(key.as_str()).is_some() {
                let mut text = concat3("Parameter ", block_fn.params[k].0.token.text.as_str(), " of function ");
                text.append(fn_name.as_str());
                text.append(" is already declared");
                assert(text@ =~= msg_param_already_declared(f0.params@[k as int].0.token.text@, f0.ident.token.text@));
                assert(key@ == param_key(f0.ident.token.text@, f0.params@[k as int].0.token.text@));
                let refs: Vec<crate::lex::Token> = Vec::new();
                let err = CheckerError::new(block_fn.ident.token.clone(), refs, text);
                proof {
                    reveal_strlit("Parameter ");
                    reveal_strlit(" of function ");
                    reveal_strlit(" is already declared");
                    assert(tokens_view(refs@) =~= Seq::empty());
                }
                errors.add_error(err);
                proof {
                    assert(err@ == error_view(f0.ident.token@, Seq::empty(), msg_param_already_declared(f0.params@[k as int].0.token.text@, f0.ident.token.text@)));
                    assert(name_params(builder@, eb.errors, f0, k as int, param_id@).errors == eb.errors.push(err@));
                    assert(errors@ == (CollectorView { errors: fn_var_step(st, f0).errors, ..old(errors)@ }));
                }
                break;
            }
            param_id.increment();
            builder.define_local(key, param_id.clone());
            block_fn.params[k].0.id = param_id.clone();
            k += 1;
        }
    }

    /// Names the functions of a unit, in order.
    pub fn visit_unit(&mut self, errors: &mut ErrorCollector, builder: &mut NameScopeBuilder, unit: &mut Unit)
        requires
            old(builder)@.len() > 0,
            old(self).current().len() > 0,
            old(self).current().last() + old(unit).items@.len() <= usize::MAX,
        ensures
            ({
                let st = VarNaming {
                    scopes: old(builder)@,
                    current: old(self).current(),
                    errors: old(errors)@.errors,
                };
                let after = items_var_naming(st, old(unit).items@);
                &&& final(builder)@ == after.scopes
                &&& final(self).current() == after.current
                &&& final(errors)@ == (CollectorView { errors: after.errors, ..old(errors)@ })
                &&& final(unit).span == old(unit).span
                &&& final(unit).items@.len() == old(unit).items@.len()
                &&& forall|j: int|
                    0 <= j < old(unit).items@.len() ==> #[trigger] item_var_named(
                        items_var_naming(st, old(unit).items@.take(j)),
                        old(unit).items@[j],
                        final(unit).items@[j],
                    )
            }),
    {
        let ghost st = VarNaming { scopes: builder@, current: self.current(), errors: errors@.errors };
        let ghost items0 = unit.items@;
        let n = unit.items.len();
        let mut k: usize = 0;
        assert(items0.take(0) =~= Seq::<Item>::empty());
        while k < n
            invariant
                n == unit.items@.len(),
                n == items0.len(),
                items0 == old(unit).items@,
                unit.span == old(unit).span,
                k <= n,
                st.scopes == old(builder)@,
                st.current == old(self).current(),
                st.errors == old(errors)@.errors,
                builder@ == items_var_naming(st, items0.take(k as int)).scopes,
                self.current() == items_var_naming(st, items0.take(k as int)).current,
                errors@ == (CollectorView { errors: items_var_naming(st, items0.take(k as int)).errors, ..old(errors)@ }),
                builder@.len() > 0,
                self.current().len() == st.current.len(),
                st.current.len() > 0,
                self.current().last() <= st.current.last() + k,
                st.current.last() + n <= usize::MAX,
                forall|j: int| k <= j < n ==> unit.items@[j] == items0[j],
                forall|j: int|
                    0 <= j < k ==> #[trigger] item_var_named(
                        items_var_naming(st, items0.take(j)),
                        items0[j],
                        unit.items@[j],
                    ),
            decreases n - k,
        {
            let ghost before = unit.items@;
            let ghost pre = items_var_naming(st, items0.take(k as int));
            assert(items0.take(k + 1).drop_last() =~= items0.take(k as int));
            match &mut unit.items[k] {
                Item::BlockFnDeclaration(f) => {
                    proof {
                        let f0 = *f;
                        if fn_name_is_new(pre, f0) {
                            lemma_name_params(
                                define_innermost(pre.scopes, f0.ident.token.text@, fn_id(pre.current)),
                                pre.errors,
                                f0,
                                0,
                                fn_id(pre.current).push(0),
                            );
                        }
                    }
                    self.visit_block_fn_decl(errors, builder, f);
                },
                Item::Typedef(_) => {},
            }
            assert forall|j: int|
                0 <= j < k + 1 implies #[trigger] item_var_named(
                items_var_naming(st, items0.take(j)),
                items0[j],
                unit.items@[j],
            ) by {
                if j < k {
                    assert(unit.items@[j] == before[j]);
                }
            }
            k += 1;
        }
        assert(items0.take(n as int) =~= items0);
    }
}

} // verus!
