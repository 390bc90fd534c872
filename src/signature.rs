//! A plain model of a function signature: what dispatch planning reads of
//! the generic function and what it writes into the generated one.
use vstd::prelude::*;

verus! {

/// The type of a function argument.
pub enum ArgType {
    /// `&T` or `&mut T`, with the text of `T`.
    Ref { mutable: bool, target: String },
    /// `*mut W`, a raw pointer to the handle type `W`.
    MutPtr { target: String },
    /// Any other type, as its text.
    Other { text: String },
}

/// One argument of a function.
pub enum FnArg {
    /// A `self` receiver.
    Receiver,
    /// A typed argument; `pat` is the bound name when the pattern is a plain identifier.
    Typed { pat: Option<String>, ty: ArgType },
}

/// The parts of a function signature that dispatch planning uses.
pub struct Signature {
    /// The function's name.
    pub ident: String,
    /// The arguments, in order.
    pub inputs: Vec<FnArg>,
    /// The return type as text (empty for `()`).
    pub output: String,
}

/// Mathematical value of an `ArgType`.
pub enum ArgTypeView {
    Ref { mutable: bool, target: Seq<char> },
    MutPtr { target: Seq<char> },
    Other { text: Seq<char> },
}

/// Mathematical value of a `FnArg`.
pub enum FnArgView {
    Receiver,
    Typed { pat: Option<Seq<char>>, ty: ArgTypeView },
}

/// Mathematical value of a `Signature`.
pub struct SignatureView {
    pub ident: Seq<char>,
    pub inputs: Seq<FnArgView>,
    pub output: Seq<char>,
}

impl View for ArgType {
    type V = ArgTypeView;

    open spec fn view(&self) -> ArgTypeView {
        match self {
            ArgType::Ref { mutable, target } => ArgTypeView::Ref { mutable: *mutable, target: target@ },
            ArgType::MutPtr { target } => ArgTypeView::MutPtr { target: target@ },
            ArgType::Other { text } => ArgTypeView::Other { text: text@ },
        }
    }
}

impl View for FnArg {
    type V = FnArgView;

    open spec fn view(&self) -> FnArgView {
        match self {
            FnArg::Receiver => FnArgView::Receiver,
            FnArg::Typed { pat, ty } => FnArgView::Typed {
                pat: match pat {
                    Some(p) => Some(p@),
                    None => None,
                },
                ty: ty@,
            },
        }
    }
}

/// The views of a sequence of arguments.
pub open spec fn args_view(v: Seq<FnArg>) -> Seq<FnArgView> {
    v.map_values(|a: FnArg| a@)
}

impl View for Signature {
    type V = SignatureView;

    open spec fn view(&self) -> SignatureView {
        SignatureView { ident: self.ident@, inputs: args_view(self.inputs@), output: self.output@ }
    }
}

/// Why an argument cannot take part in dispatch.
#[derive(Debug, Clone, Copy, PartialEq, Eq, Structural)]
pub enum ArgError {
    /// The argument is a `self` receiver.
    Untyped,
    /// The argument's pattern is not a plain identifier.
    NotIdent,
    /// The argument's type is not a reference.
    NotReference,
}

/// The name bound by an argument, if its pattern is a plain identifier.
pub open spec fn arg_ident(a: FnArgView) -> Result<Seq<char>, ArgError> {
    match a {
        FnArgView::Receiver => Err(ArgError::Untyped),
        FnArgView::Typed { pat, ty } => match pat {
            Some(p) => Ok(p),
            None => Err(ArgError::NotIdent),
        },
    }
}

/// Whether an argument is a mutable reference.
pub open spec fn arg_mutability(a: FnArgView) -> Result<bool, ArgError> {
    match a {
        FnArgView::Receiver => Err(ArgError::Untyped),
        FnArgView::Typed { pat, ty } => match ty {
            ArgTypeView::Ref { mutable, target } => Ok(mutable),
            _ => Err(ArgError::NotReference),
        },
    }
}

/// The name bound by an argument.
pub fn get_function_arg_ident(arg: &FnArg) -> (r: Result<String, ArgError>)
    ensures
        match (r, arg_ident(arg@)) {
            (Ok(s), Ok(t)) => s@ == t,
            (Err(e), Err(f)) => e == f,
            _ => false,
        },
{
    match arg {
        FnArg::Receiver => Err(ArgError::Untyped),
        FnArg::Typed { pat, ty } => match pat {
            Some(p) => Ok(p.clone()),
            None => Err(ArgError::NotIdent),
        },
    }
}

/// Whether an argument is a mutable reference; other types are refused.
pub fn function_arg_is_mutable(arg: &FnArg) -> (r: Result<bool, ArgError>)
    ensures
        r == arg_mutability(arg@),
{
    match arg {
        FnArg::Receiver => Err(ArgError::Untyped),
        FnArg::Typed { pat, ty } => match ty {
            ArgType::Ref { mutable, target } => Ok(*mutable),
            _ => Err(ArgError::NotReference),
        },
    }
}

/// The argument `var_name: *mut ptr_type`.
pub open spec fn ptr_argument(var_name: Seq<char>, ptr_type: Seq<char>) -> FnArgView {
    FnArgView::Typed { pat: Some(var_name), ty: ArgTypeView::MutPtr { target: ptr_type } }
}

/// Build the argument `var_name: *mut ptr_type`.
pub fn create_ptr_argument(var_name: &str, ptr_type: &str) -> (r: FnArg)
    ensures
        r@ == ptr_argument(var_name@, ptr_type@),
{
    FnArg::Typed {
        pat: Some(String::from_str(var_name)),
        ty: ArgType::MutPtr { target: String::from_str(ptr_type) },
    }
}

/// The parts joined with `sep` between neighbours.
pub open spec fn join(parts: Seq<Seq<char>>, sep: Seq<char>) -> Seq<char>
    decreases parts.len(),
{
    if parts.len() == 0 {
        Seq::empty()
    } else if parts.len() == 1 {
        parts[0]
    } else {
        join(parts.drop_last(), sep) + sep + parts.last()
    }
}

/// The first argument, from index `i` on, whose pattern binds no plain name.
pub open spec fn first_unnamed(inputs: Seq<FnArgView>, i: int) -> Option<(int, ArgError)>
    decreases inputs.len() - i,
{
    if i >= inputs.len() || i < 0 {
        None
    } else {
        match arg_ident(inputs[i]) {
            Err(e) => Some((i, e)),
            Ok(_) => first_unnamed(inputs, i + 1),
        }
    }
}

/// The names bound by the arguments, in order.
pub open spec fn arg_names(inputs: Seq<FnArgView>) -> Seq<Seq<char>> {
    inputs.map_values(|a: FnArgView| arg_ident(a)->Ok_0)
}

/// The call `name(a, b, ...)` that passes every argument on by name.
pub open spec fn call_text(sig: SignatureView) -> Seq<char> {
    sig.ident + "("@ + join(arg_names(sig.inputs), ", "@) + ")"@
}

/// The call expression that forwards every argument of `sig` to the function
/// of the same name, or the first argument that binds no plain name.
pub fn create_function_call(sig: &Signature) -> (r: Result<String, (usize, ArgError)>)
    ensures
        match first_unnamed(sig@.inputs, 0) {
            None => r is Ok && r->Ok_0@ == call_text(sig@),
            Some((i, e)) => r == Err::<String, (usize, ArgError)>((i as usize, e)),
        },
{
    let ghost inputs = sig@.inputs;
    let n = sig.inputs.len();
    let mut args = String::new();
    let mut i: usize = 0;
    while i < n
        invariant
            n == sig.inputs@.len(),
            inputs == sig@.inputs,
            i <= n,
            first_unnamed(inputs, 0) == first_unnamed(inputs, i as int),
            forall|k: int| 0 <= k < i ==> arg_ident(#[trigger] inputs[k]) is Ok,
            args@ == join(arg_names(inputs).take(i as int), ", "@),
        decreases n - i,
    {
        assert(inputs[i as int] == sig.inputs@[i as int]@);
        let name = match get_function_arg_ident(&sig.inputs[i]) {
            Ok(name) => name,
            Err(e) => {
                return Err((i, e));
            },
        };
        proof {
            let t = arg_names(inputs).take(i + 1);
            assert(t.drop_last() =~= arg_names(inputs).take(i as int));
        }
        if i > 0 {
            args.append(", ");
        }
        args.append(name.as_str());
        i = i + 1;
    }
    assert(arg_names(inputs).take(n as int) =~= arg_names(inputs));
    let mut call = sig.ident.clone();
    call.append("(");
    call.append(args.as_str());
    call.append(")");
    Ok(call)
}

} // verus!
