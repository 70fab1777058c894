//! Concrete type definitions.

use vstd::prelude::*;

use crate::ast::{Primitive, ScopedId};

verus! {

/// A fully qualified type.
#[derive(Debug, PartialEq, Eq)]
pub enum ConcreteType {
    Primitive(Primitive),
    Function(FnType),
}

/// The type signature of a function.
#[derive(Debug, PartialEq, Eq)]
pub struct FnType {
    pub ident: ScopedId,
    pub args: Vec<(String, ConcreteType)>,
    pub ret: Box<ConcreteType>,
}

/// The mathematical value of a `ConcreteType`.
pub enum ConcreteTypeView {
    Primitive(Primitive),
    Function(Seq<usize>, Seq<(Seq<char>, ConcreteTypeView)>, Box<ConcreteTypeView>),
}

/// The view of a concrete type.
pub open spec fn concrete_view(t: ConcreteType) -> ConcreteTypeView
    decreases t,
{
    match t {
        ConcreteType::Primitive(p) => ConcreteTypeView::Primitive(p),
        ConcreteType::Function(f) => ConcreteTypeView::Function(
            f.ident@,
            concrete_args_view(f.args@),
            Box::new(concrete_view(*f.ret)),
        ),
    }
}

/// The view of a function type's arguments.
pub open spec fn concrete_args_view(args: Seq<(String, ConcreteType)>) -> Seq<(Seq<char>, ConcreteTypeView)>
    decreases args,
{
    if args.len() == 0 {
        Seq::empty()
    } else {
        concrete_args_view(args.drop_last()).push((args.last().0@, concrete_view(args.last().1)))
    }
}

proof fn lemma_concrete_args_view(args: Seq<(String, ConcreteType)>)
    ensures
        concrete_args_view(args).len() == args.len(),
        forall|i: int|
            0 <= i < args.len() ==> #[trigger] concrete_args_view(args)[i] == (
                args[i].0@,
                concrete_view(args[i].1),
            ),
    decreases args.len(),
{
    if args.len() > 0 {
        lemma_concrete_args_view(args.drop_last());
        assert forall|i: int| 0 <= i < args.len() implies #[trigger] concrete_args_view(args)[i]
            == (args[i].0@, concrete_view(args[i].1)) by {
            if i < args.len() - 1 {
                assert(args.drop_last()[i] == args[i]);
            }
        }
    }
}

impl View for ConcreteType {
    type V = ConcreteTypeView;

    open spec fn view(&self) -> ConcreteTypeView {
        concrete_view(*self)
    }
}

impl ConcreteType {
    /// Whether two concrete types are the same type.
    pub fn same_as(&self, other: &ConcreteType) -> (b: bool)
        ensures
            b == (self@ == other@),
        decreases self,
    {
        match (self, other) {
            (ConcreteType::Primitive(p), ConcreteType::Primitive(q)) => *p == *q,
            (ConcreteType::Function(f), ConcreteType::Function(g)) => {
                proof {
                    lemma_concrete_args_view(f.args@);
                    lemma_concrete_args_view(g.args@);
                }
                if !f.ident.same_as(&g.ident) {
                    return false;
                }
                let n = f.args.len();
                if n != g.args.len() {
                    return false;
                }
                let mut i: usize = 0;
                while i < n
                    invariant
                        *self == ConcreteType::Function(*f),
                        *other == ConcreteType::Function(*g),
                        n == f.args@.len(),
                        n == g.args@.len(),
                        i <= n,
                        forall|j: int|
                            0 <= j < i ==> #[trigger] concrete_args_view(f.args@)[j]
                                == concrete_args_view(g.args@)[j],
                        concrete_args_view(f.args@).len() == n,
                        concrete_args_view(g.args@).len() == n,
                        forall|j: int|
                            0 <= j < n ==> #[trigger] concrete_args_view(f.args@)[j] == (
                                f.args@[j].0@,
                                concrete_view(f.args@[j].1),
                            ),
                        forall|j: int|
                            0 <= j < n ==> #[trigger] concrete_args_view(g.args@)[j] == (
                                g.args@[j].0@,
                                concrete_view(g.args@[j].1),
                            ),
                    decreases n - i,
                {
                    if f.args[i].0 != g.args[i].0 {
                        assert(f.args@[i as int].0@ != g.args@[i as int].0@);
                        assert(concrete_args_view(f.args@)[i as int] != concrete_args_view(
                            g.args@,
                        )[i as int]);
                        return false;
                    }
                    proof {
                        assert(decreases_to!(*self => f.args@[i as int].1));
                    }
                    if !f.args[i].1.same_as(&g.args[i].1) {
                        assert(concrete_args_view(f.args@)[i as int] != concrete_args_view(
                            g.args@,
                        )[i as int]);
                        return false;
                    }
                    i += 1;
                }
                assert(concrete_args_view(f.args@) =~= concrete_args_view(g.args@));
                (*f.ret).same_as(&*g.ret)
            },
            _ => false,
        }
    }
}

impl ConcreteType {
    /// A copy of this type.
    fn duplicate(&self) -> (c: ConcreteType)
        ensures
            c@ == self@,
        decreases self,
    {
        match self {
            ConcreteType::Primitive(p) => ConcreteType::Primitive(*p),
            ConcreteType::Function(f) => {
                proof {
                    lemma_concrete_args_view(f.args@);
                }
                let n = f.args.len();
                let mut args: Vec<(String, ConcreteType)> = Vec::new();
                let mut i: usize = 0;
                while i < n
                    invariant
                        *self == ConcreteType::Function(*f),
                        n == f.args@.len(),
                        i <= n,
                        args@.len() == i,
                        concrete_args_view(f.args@).len() == n,
                        forall|j: int|
                            0 <= j < n ==> #[trigger] concrete_args_view(f.args@)[j] == (
                                f.args@[j].0@,
                                concrete_view(f.args@[j].1),
                            ),
                        forall|j: int|
                            0 <= j < i ==> #[trigger] args@[j].0@ == f.args@[j].0@ && concrete_view(
                                args@[j].1,
                            ) == concrete_view(f.args@[j].1),
                    decreases n - i,
                {
                    let name = f.args[i].0.clone();
                    proof {
                        assert(*self == ConcreteType::Function(*f));
                        assert(self->Function_0 == *f);
                        assert(decreases_to!(*self => self->Function_0));
                        assert(decreases_to!(*self => f.args@[i as int].1));
                    }
                    let ty = f.args[i].1.duplicate();
                    args.push((name, ty));
                    i += 1;
                }
                proof {
                    lemma_concrete_args_view(args@);
                    assert(concrete_args_view(args@) =~= concrete_args_view(f.args@));
                }
                let ret = (*f.ret).duplicate();
                ConcreteType::Function(FnType { ident: f.ident.clone(), args, ret: Box::new(ret) })
            },
        }
    }
}

impl Clone for ConcreteType {
    fn clone(&self) -> (c: ConcreteType)
        ensures
            c@ == self@,
    {
        self.duplicate()
    }
}

} // verus!
