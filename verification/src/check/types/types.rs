//! Types in protosnirk.
//!
//! These represent concrete pieces of information about the types of
//! protosnirk values.

use vstd::prelude::*;

verus! {

/// Representation of types in protosnirk.
#[derive(Debug, PartialEq, Eq)]
pub enum Type {
    /// `()`
    Empty,
    /// Standard number type for now
    Float,
    /// Values of `true` or `false`.
    Boolean,
    /// Function - only used in declarations
    Fn(FnType),
}

/// Type representation of functions in protosnirk
#[derive(Debug, PartialEq, Eq)]
pub struct FnType {
    /// Return type of the function
    pub return_type: Box<Type>,
    /// Argument names and types. Both order and names are important.
    pub args: Vec<(String, Type)>,
}

/// The mathematical value of a `Type`.
pub enum TypeView {
    Empty,
    Float,
    Boolean,
    Fn(Box<TypeView>, Seq<(Seq<char>, TypeView)>),
}

/// The view of a type.
pub open spec fn type_view(t: Type) -> TypeView
    decreases t,
{
    match t {
        Type::Empty => TypeView::Empty,
        Type::Float => TypeView::Float,
        Type::Boolean => TypeView::Boolean,
        Type::Fn(f) => TypeView::Fn(Box::new(type_view(*f.return_type)), args_view(f.args@)),
    }
}

/// The view of a function's argument list.
pub open spec fn args_view(args: Seq<(String, Type)>) -> Seq<(Seq<char>, TypeView)>
    decreases args,
{
    if args.len() == 0 {
        Seq::empty()
    } else {
        args_view(args.drop_last()).push((args.last().0@, type_view(args.last().1)))
    }
}

impl Type {
    /// The function type inside a `Fn` type.
    pub fn expect_fn(self) -> (f: FnType)
        requires
            self is Fn,
        ensures
            self == Type::Fn(f),
    {
        match self {
            Type::Fn(inner) => inner,
            _ => vstd::pervasive::unreached(),
        }
    }
}

impl FnType {
    /// The function type with the given return type and arguments.
    pub fn new(return_type: Box<Type>, args: Vec<(String, Type)>) -> (f: FnType)
        ensures
            f.return_type == return_type,
            f.args == args,
    {
        FnType { return_type, args }
    }

    /// The return type.
    pub fn get_return(&self) -> (t: &Type)
        ensures
            t == &*self.return_type,
    {
        &self.return_type
    }

    /// The arguments, in order.
    pub fn get_args(&self) -> (a: &[(String, Type)])
        ensures
            a@ == self.args@,
    {
        self.args.as_slice()
    }

    /// The position and type of the first argument called `name`.
    pub fn get_arg(&self, name: &str) -> (r: Option<(usize, &Type)>)
        ensures
            match r {
                Some((ix, t)) => ix < self.args@.len() && self.args@[ix as int].0@ == name@ && t
                    == &self.args@[ix as int].1 && forall|j: int|
                    0 <= j < ix ==> self.args@[j].0@ != name@,
                None => forall|j: int| 0 <= j < self.args@.len() ==> self.args@[j].0@ != name@,
            },
    {
        let key = name.to_owned();
        let n = self.args.len();
        let mut ix: usize = 0;
        while ix < n
            invariant
                n == self.args@.len(),
                ix <= n,
                key@ == name@,
                forall|j: int| 0 <= j < ix ==> self.args@[j].0@ != name@,
            decreases n - ix,
        {
            if self.args[ix].0 == key {
                return Some((ix, &self.args[ix].1));
            }
            ix += 1;
        }
        None
    }
}

/// A function's argument list has one entry for each argument.
pub proof fn lemma_args_view_len(args: Seq<(String, Type)>)
    ensures
        args_view(args).len() == args.len(),
    decreases args.len(),
{
    if args.len() > 0 {
        lemma_args_view_len(args.drop_last());
    }
}

/// Each entry of a function's argument list is the view of that argument.
pub proof fn lemma_args_view_index(args: Seq<(String, Type)>, j: int)
    requires
        0 <= j < args.len(),
    ensures
        args_view(args).len() == args.len(),
        args_view(args)[j] == (args[j].0@, type_view(args[j].1)),
    decreases args.len(),
{
    lemma_args_view_len(args);
    if j < args.len() - 1 {
        lemma_args_view_index(args.drop_last(), j);
    }
}

impl View for Type {
    type V = TypeView;

    open spec fn view(&self) -> TypeView {
        type_view(*self)
    }
}

} // verus!
