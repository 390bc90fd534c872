//! Planning of dispatch functions: validation of a declaration, the rewritten
//! signature, the ladder of concrete shapes and the first-match chain.
use vstd::prelude::*;
use crate::product::{
    cartesian_product, count_product, lemma_grid_index, lemma_grid_unique, lemma_product_distinct,
    lemma_product_elem_len, lemma_product_len, nested, no_duplicates, product,
};
use crate::signature::{
    arg_ident, arg_mutability, args_view, call_text, create_function_call,
    create_ptr_argument, first_unnamed, function_arg_is_mutable, get_function_arg_ident, join,
    ptr_argument, ArgError, ArgType, FnArg, FnArgView, Signature, SignatureView,
};
use crate::template::{placeholder, placeholder_of, replace_all, replace_str, replace_templates_with_types, resolve, strs};

verus! {

/// A generic parameter slot and the concrete types it may stand for.
pub struct GenType {
    /// The slot's name; `{{name}}` in a template stands for it.
    pub name: String,
    /// The candidate types, in order; each may name earlier slots.
    pub replace_with: Vec<String>,
}

/// An argument of the generic function that arrives as a handle.
pub struct Field {
    /// The argument's position.
    pub arg: usize,
    /// The slot's name; `{{name}}` in a later field template stands for it.
    pub name: String,
    /// The handle type the argument arrives as.
    pub wrapper: String,
    /// Whether the argument is a mutable reference.
    pub mutable: bool,
    /// The candidate type templates, in order.
    pub replace_with: Vec<String>,
}

/// A dispatch declaration.
pub struct ConcretiseTypeArgs {
    /// The generic parameter slots, in order.
    pub gen_type: Vec<GenType>,
    /// The handle-bearing arguments, in order.
    pub field: Vec<Field>,
}

/// A declaration that cannot be turned into a dispatch function.
#[derive(Debug, Clone, Copy, PartialEq, Eq, Structural)]
pub enum DeclError {
    /// Two slots share a name.
    DuplicateName,
    /// A field names an argument position the function does not have.
    MissingArgument { arg: usize },
    /// An argument cannot take part in the call or the dispatch.
    BadArgument { arg: usize, reason: ArgError },
    /// A field's mutability differs from that of the argument's reference.
    MutabilityMismatch { arg: usize },
}

/// The names of the generic parameter slots.
pub open spec fn gen_names(args: ConcretiseTypeArgs) -> Seq<Seq<char>> {
    args.gen_type@.map_values(|g: GenType| g.name@)
}

/// The names of the field slots.
pub open spec fn field_names(args: ConcretiseTypeArgs) -> Seq<Seq<char>> {
    args.field@.map_values(|f: Field| f.name@)
}

/// The candidates of each generic parameter slot.
pub open spec fn gen_lists(args: ConcretiseTypeArgs) -> Seq<Seq<Seq<char>>> {
    args.gen_type@.map_values(|g: GenType| strs(g.replace_with@))
}

/// The candidate templates of each field slot.
pub open spec fn field_lists(args: ConcretiseTypeArgs) -> Seq<Seq<Seq<char>>> {
    args.field@.map_values(|f: Field| strs(f.replace_with@))
}

/// No two elements are equal.
pub open spec fn distinct(s: Seq<Seq<char>>) -> bool {
    forall|i: int, j: int| 0 <= i < j < s.len() ==> s[i] != s[j]
}

/// What is wrong with one field, given the function's arguments.
pub open spec fn field_error(f: Field, inputs: Seq<FnArgView>) -> Option<DeclError> {
    if f.arg >= inputs.len() {
        Some(DeclError::MissingArgument { arg: f.arg })
    } else {
        match arg_ident(inputs[f.arg as int]) {
            Err(e) => Some(DeclError::BadArgument { arg: f.arg, reason: e }),
            Ok(_) => match arg_mutability(inputs[f.arg as int]) {
                Err(e) => Some(DeclError::BadArgument { arg: f.arg, reason: e }),
                Ok(m) => if m != f.mutable {
                    Some(DeclError::MutabilityMismatch { arg: f.arg })
                } else {
                    None
                },
            },
        }
    }
}

/// The error of the first faulty field from index `i` on.
pub open spec fn first_field_error(fields: Seq<Field>, inputs: Seq<FnArgView>, i: int) -> Option<
    DeclError,
>
    decreases fields.len() - i,
{
    if i >= fields.len() || i < 0 {
        None
    } else {
        match field_error(fields[i], inputs) {
            Some(e) => Some(e),
            None => first_field_error(fields, inputs, i + 1),
        }
    }
}

/// What is wrong with a declaration, checked in this order: slot names,
/// then each field, then the names of all the function's arguments.
pub open spec fn decl_error(args: ConcretiseTypeArgs, sig: SignatureView) -> Option<DeclError> {
    if !distinct(gen_names(args) + field_names(args)) {
        Some(DeclError::DuplicateName)
    } else {
        match first_field_error(args.field@, sig.inputs, 0) {
            Some(e) => Some(e),
            None => match first_unnamed(sig.inputs, 0) {
                Some((i, e)) => Some(DeclError::BadArgument { arg: i as usize, reason: e }),
                None => None,
            },
        }
    }
}

/// Whether `names` holds two equal strings.
fn has_duplicate(names: &Vec<String>) -> (r: bool)
    ensures
        r == !distinct(strs(names@)),
{
    let n = names.len();
    let mut i: usize = 0;
    while i < n
        invariant
            n == names@.len(),
            i <= n,
            forall|a: int, b: int| 0 <= a < i && a < b < n ==> names@[a]@ != names@[b]@,
        decreases n - i,
    {
        let mut j: usize = i + 1;
        while j < n
            invariant
                n == names@.len(),
                i < n,
                i < j <= n,
                forall|a: int, b: int| 0 <= a < i && a < b < n ==> names@[a]@ != names@[b]@,
                forall|b: int| i < b < j ==> names@[i as int]@ != names@[b]@,
            decreases n - j,
        {
            if names[i] == names[j] {
                assert(strs(names@)[i as int] == strs(names@)[j as int]);
                return true;
            }
            j = j + 1;
        }
        i = i + 1;
    }
    false
}

/// Check a dispatch declaration against the function it is for.
pub fn check_declaration(args: &ConcretiseTypeArgs, sig: &Signature) -> (r: Result<(), DeclError>)
    ensures
        match decl_error(*args, sig@) {
            None => r is Ok,
            Some(e) => r == Err::<(), DeclError>(e),
        },
{
    let mut names: Vec<String> = Vec::new();
    let mut i: usize = 0;
    while i < args.gen_type.len()
        invariant
            i <= args.gen_type@.len(),
            strs(names@) == gen_names(*args).take(i as int),
        decreases args.gen_type@.len() - i,
    {
        let ghost prev = names@;
        let name = args.gen_type[i].name.clone();
        names.push(name);
        assert(strs(names@) =~= strs(prev).push(name@));
        assert(gen_names(*args).take(i + 1) =~= gen_names(*args).take(i as int).push(name@));
        i = i + 1;
    }
    let mut i: usize = 0;
    while i < args.field.len()
        invariant
            i <= args.field@.len(),
            strs(names@) == gen_names(*args) + field_names(*args).take(i as int),
        decreases args.field@.len() - i,
    {
        let ghost prev = names@;
        let name = args.field[i].name.clone();
        names.push(name);
        assert(strs(names@) =~= strs(prev).push(name@));
        assert(gen_names(*args) + field_names(*args).take(i + 1) =~= (gen_names(*args)
            + field_names(*args).take(i as int)).push(name@));
        i = i + 1;
    }
    assert(gen_names(*args).take(args.gen_type@.len() as int) =~= gen_names(*args));
    assert(field_names(*args).take(args.field@.len() as int) =~= field_names(*args));
    if has_duplicate(&names) {
        return Err(DeclError::DuplicateName);
    }
    let ghost inputs = sig@.inputs;
    let n = sig.inputs.len();
    let mut i: usize = 0;
    while i < args.field.len()
        invariant
            i <= args.field@.len(),
            n == sig.inputs@.len(),
            inputs == sig@.inputs,
            distinct(gen_names(*args) + field_names(*args)),
            first_field_error(args.field@, inputs, 0) == first_field_error(
                args.field@,
                inputs,
                i as int,
            ),
        decreases args.field@.len() - i,
    {
        let f = &args.field[i];
        if f.arg >= n {
            return Err(DeclError::MissingArgument { arg: f.arg });
        }
        assert(inputs[f.arg as int] == sig.inputs@[f.arg as int]@);
        match get_function_arg_ident(&sig.inputs[f.arg]) {
            Err(e) => {
                return Err(DeclError::BadArgument { arg: f.arg, reason: e });
            },
            Ok(_) => {},
        }
        match function_arg_is_mutable(&sig.inputs[f.arg]) {
            Err(e) => {
                return Err(DeclError::BadArgument { arg: f.arg, reason: e });
            },
            Ok(m) => {
                if m != f.mutable {
                    return Err(DeclError::MutabilityMismatch { arg: f.arg });
                }
            },
        }
        i = i + 1;
    }
    match create_function_call(sig) {
        Err((i, e)) => Err(DeclError::BadArgument { arg: i, reason: e }),
        Ok(_) => Ok(()),
    }
}

/// The arguments after the first `k` fields have been turned into handle pointers.
pub open spec fn new_inputs(fields: Seq<Field>, inputs: Seq<FnArgView>, k: nat) -> Seq<FnArgView>
    decreases k,
{
    if k == 0 {
        inputs
    } else {
        let f = fields[k - 1];
        new_inputs(fields, inputs, (k - 1) as nat).update(
            f.arg as int,
            ptr_argument(arg_ident(inputs[f.arg as int])->Ok_0, f.wrapper@),
        )
    }
}

/// The signature of the generated function: the same name, arguments and
/// result, but every handle-bearing argument a pointer to its handle type.
pub open spec fn new_signature(args: ConcretiseTypeArgs, sig: SignatureView) -> SignatureView {
    SignatureView {
        ident: sig.ident,
        inputs: new_inputs(args.field@, sig.inputs, args.field@.len()),
        output: sig.output,
    }
}

/// No field from index `i` on is faulty.
proof fn lemma_no_field_error(fields: Seq<Field>, inputs: Seq<FnArgView>, i: int)
    requires
        0 <= i,
        first_field_error(fields, inputs, i) is None,
    ensures
        forall|j: int| i <= j < fields.len() ==> #[trigger] field_error(fields[j], inputs) is None,
    decreases fields.len() - i,
{
    if i < fields.len() {
        lemma_no_field_error(fields, inputs, i + 1);
    }
}

proof fn lemma_new_inputs_len(fields: Seq<Field>, inputs: Seq<FnArgView>, k: nat)
    requires
        k <= fields.len(),
        forall|j: int| 0 <= j < k ==> #[trigger] fields[j].arg < inputs.len(),
    ensures
        new_inputs(fields, inputs, k).len() == inputs.len(),
    decreases k,
{
    if k > 0 {
        lemma_new_inputs_len(fields, inputs, (k - 1) as nat);
    }
}

fn clone_arg(a: &FnArg) -> (r: FnArg)
    ensures
        r@ == a@,
{
    match a {
        FnArg::Receiver => FnArg::Receiver,
        FnArg::Typed { pat, ty } => {
            let pat = match pat {
                Some(p) => Some(p.clone()),
                None => None,
            };
            let ty = match ty {
                ArgType::Ref { mutable, target } => ArgType::Ref {
                    mutable: *mutable,
                    target: target.clone(),
                },
                ArgType::MutPtr { target } => ArgType::MutPtr { target: target.clone() },
                ArgType::Other { text } => ArgType::Other { text: text.clone() },
            };
            FnArg::Typed { pat, ty }
        },
    }
}

/// Build the signature of the generated function.
pub fn create_signature(args: &ConcretiseTypeArgs, old_signature: &Signature) -> (r: Signature)
    requires
        first_field_error(args.field@, old_signature@.inputs, 0) is None,
    ensures
        r@ == new_signature(*args, old_signature@),
{
    let ghost inputs = old_signature@.inputs;
    let mut new_args: Vec<FnArg> = Vec::new();
    let mut i: usize = 0;
    while i < old_signature.inputs.len()
        invariant
            i <= old_signature.inputs@.len(),
            inputs == old_signature@.inputs,
            args_view(new_args@) == inputs.take(i as int),
        decreases old_signature.inputs@.len() - i,
    {
        let ghost prev = new_args@;
        let a = clone_arg(&old_signature.inputs[i]);
        new_args.push(a);
        assert(args_view(new_args@) =~= args_view(prev).push(a@));
        assert(inputs.take(i + 1) =~= inputs.take(i as int).push(a@));
        i = i + 1;
    }
    assert(inputs.take(inputs.len() as int) =~= inputs);
    proof {
        lemma_no_field_error(args.field@, inputs, 0);
    }
    let mut k: usize = 0;
    while k < args.field.len()
        invariant
            k <= args.field@.len(),
            inputs == old_signature@.inputs,
            forall|j: int|
                0 <= j < args.field@.len() ==> #[trigger] field_error(args.field@[j], inputs) is None,
            args_view(new_args@) == new_inputs(args.field@, inputs, k as nat),
            new_args@.len() == inputs.len(),
        decreases args.field@.len() - k,
    {
        let f = &args.field[k];
        assert(field_error(args.field@[k as int], inputs) is None);
        assert(inputs[f.arg as int] == old_signature.inputs@[f.arg as int]@);
        let ident = match get_function_arg_ident(&old_signature.inputs[f.arg]) {
            Ok(ident) => ident,
            Err(_) => {
                proof {
                    assert(false);
                }
                String::new()
            },
        };
        let ghost prev = new_args@;
        let a = create_ptr_argument(ident.as_str(), f.wrapper.as_str());
        new_args.set(f.arg, a);
        assert(args_view(new_args@) =~= args_view(prev).update(f.arg as int, a@));
        k = k + 1;
    }
    proof {
        assert forall|j: int| 0 <= j < args.field@.len() implies #[trigger] args.field@[j].arg
            < inputs.len() by {
            assert(field_error(args.field@[j], inputs) is None);
        }
        lemma_new_inputs_len(args.field@, inputs, args.field@.len());
    }
    Signature {
        ident: old_signature.ident.clone(),
        inputs: new_args,
        output: old_signature.output.clone(),
    }
}

/// A template with the placeholders of the first `k` generic slots replaced, in order.
pub open spec fn fill_gen(s: Seq<char>, keys: Seq<Seq<char>>, vals: Seq<Seq<char>>, k: nat) -> Seq<
    char,
>
    decreases k,
{
    if k == 0 {
        s
    } else {
        replace_all(fill_gen(s, keys, vals, (k - 1) as nat), placeholder(keys[k - 1]), vals[k - 1])
    }
}

/// The concrete field types for one selection `g` of generic candidates and
/// one selection `f` of field templates: the generic slots are resolved in
/// order, filled into every field template, then the field slots are resolved.
pub open spec fn shape(args: ConcretiseTypeArgs, g: Seq<Seq<char>>, f: Seq<Seq<char>>) -> Seq<
    Seq<char>,
> {
    let keys = gen_names(args);
    let vals = resolve(keys, g);
    resolve(field_names(args), f.map_values(|t: Seq<char>| fill_gen(t, keys, vals, keys.len())))
}

/// The dispatch ladder: one shape for each generic selection (outer, in
/// enumeration order) and each field selection (inner, in enumeration order).
pub open spec fn ladder(args: ConcretiseTypeArgs) -> Seq<Seq<Seq<char>>> {
    let gs = product(gen_lists(args));
    let fs = product(field_lists(args));
    Seq::new(
        gs.len() * fs.len(),
        |k: int| shape(args, gs[k / fs.len() as int], fs[k % fs.len() as int]),
    )
}

/// The name of the argument that field `i` binds.
pub open spec fn handle_ident(args: ConcretiseTypeArgs, inputs: Seq<FnArgView>, i: int) -> Seq<
    char,
> {
    arg_ident(inputs[args.field@[i].arg as int])->Ok_0
}

/// The pattern `Some(id)`.
pub open spec fn some_part(id: Seq<char>) -> Seq<char> {
    "Some("@ + id + ")"@
}

/// The checked downcast of the erased value `id` to `ty`.
pub open spec fn downcast_part(id: Seq<char>, mutable: bool, ty: Seq<char>) -> Seq<char> {
    id + (if mutable {
        ".downcast_mut::<"@
    } else {
        ".downcast_ref::<"@
    }) + ty + ">()"@
}

/// The `if let` that downcasts every handle-bearing argument at once to `types`.
pub open spec fn condition_text(
    args: ConcretiseTypeArgs,
    types: Seq<Seq<char>>,
    inputs: Seq<FnArgView>,
) -> Seq<char> {
    let n = args.field@.len();
    let lefts = Seq::new(n, |i: int| some_part(handle_ident(args, inputs, i)));
    let rights = Seq::new(
        n,
        |i: int| downcast_part(handle_ident(args, inputs, i), args.field@[i].mutable, types[i]),
    );
    if n == 1 {
        "if let "@ + join(lefts, ", "@) + " = "@ + join(rights, ", "@)
    } else {
        "if let ("@ + join(lefts, ", "@) + ") = ("@ + join(rights, ", "@) + ")"@
    }
}

/// One guarded attempt of the chain: on a match, make `call`; else go on.
pub open spec fn arm_text(
    args: ConcretiseTypeArgs,
    types: Seq<Seq<char>>,
    inputs: Seq<FnArgView>,
    call: Seq<char>,
) -> Seq<char> {
    condition_text(args, types, inputs) + " { "@ + call + " } else"@
}

/// Build one guarded attempt of the dispatch chain for the concrete field types.
pub fn create_if_let_condition(
    args: &ConcretiseTypeArgs,
    concrete_field_types: &[String],
    sig: &Signature,
    call: &str,
) -> (r: String)
    requires
        first_field_error(args.field@, sig@.inputs, 0) is None,
        concrete_field_types@.len() == args.field@.len(),
    ensures
        r@ == arm_text(*args, strs(concrete_field_types@), sig@.inputs, call@),
{
    let ghost inputs = sig@.inputs;
    let ghost types = strs(concrete_field_types@);
    let n = args.field.len();
    let ghost lefts = Seq::new(n as nat, |i: int| some_part(handle_ident(*args, inputs, i)));
    let ghost rights = Seq::new(
        n as nat,
        |i: int| downcast_part(handle_ident(*args, inputs, i), args.field@[i].mutable, types[i]),
    );
    proof {
        lemma_no_field_error(args.field@, inputs, 0);
    }
    let mut left = String::new();
    let mut right = String::new();
    let mut i: usize = 0;
    while i < n
        invariant
            n == args.field@.len(),
            n == concrete_field_types@.len(),
            i <= n,
            inputs == sig@.inputs,
            types == strs(concrete_field_types@),
            lefts == Seq::new(n as nat, |i: int| some_part(handle_ident(*args, inputs, i))),
            rights == Seq::new(
                n as nat,
                |i: int| downcast_part(handle_ident(*args, inputs, i), args.field@[i].mutable, types[i]),
            ),
            forall|j: int| 0 <= j < n ==> #[trigger] field_error(args.field@[j], inputs) is None,
            left@ == join(lefts.take(i as int), ", "@),
            right@ == join(rights.take(i as int), ", "@),
        decreases n - i,
    {
        let f = &args.field[i];
        assert(field_error(args.field@[i as int], inputs) is None);
        assert(inputs[f.arg as int] == sig.inputs@[f.arg as int]@);
        let ident = match get_function_arg_ident(&sig.inputs[f.arg]) {
            Ok(ident) => ident,
            Err(_) => {
                proof {
                    assert(false);
                }
                String::new()
            },
        };
        let mutability = match function_arg_is_mutable(&sig.inputs[f.arg]) {
            Ok(m) => m,
            Err(_) => {
                proof {
                    assert(false);
                }
                false
            },
        };
        let ghost left0 = left@;
        let ghost right0 = right@;
        if i > 0 {
            left.append(", ");
            right.append(", ");
        }
        let ghost left1 = left@;
        let ghost right1 = right@;
        left.append("Some(");
        left.append(ident.as_str());
        left.append(")");
        right.append(ident.as_str());
        if mutability {
            right.append(".downcast_mut::<");
        } else {
            right.append(".downcast_ref::<");
        }
        right.append(concrete_field_types[i].as_str());
        right.append(">()");
        proof {
            assert(left@ =~= left1 + lefts[i as int]);
            assert(right@ =~= right1 + rights[i as int]);
            assert(lefts.take(i + 1).drop_last() =~= lefts.take(i as int));
            assert(rights.take(i + 1).drop_last() =~= rights.take(i as int));
            if i == 0 {
                assert(left@ =~= join(lefts.take(1), ", "@));
                assert(right@ =~= join(rights.take(1), ", "@));
            } else {
                assert(left@ =~= join(lefts.take(i + 1), ", "@));
                assert(right@ =~= join(rights.take(i + 1), ", "@));
            }
        }
        i = i + 1;
    }
    assert(lefts.take(n as int) =~= lefts);
    assert(rights.take(n as int) =~= rights);
    let mut condition = String::new();
    if n == 1 {
        condition.append("if let ");
        condition.append(left.as_str());
        condition.append(" = ");
        condition.append(right.as_str());
    } else {
        condition.append("if let (");
        condition.append(left.as_str());
        condition.append(") = (");
        condition.append(right.as_str());
        condition.append(")");
    }
    assert(condition@ =~= condition_text(*args, types, inputs));
    condition.append(" { ");
    condition.append(call);
    condition.append(" } else");
    assert(condition@ =~= arm_text(*args, types, inputs, call@));
    condition
}

/// What the generated dispatch function is made of.
pub struct DispatchPlan {
    /// The signature of the generated function.
    pub signature: Signature,
    /// The handle-bearing arguments, in field order.
    pub handles: Vec<String>,
    /// The dispatch ladder: the concrete field types of each attempt, in order.
    pub shapes: Vec<Vec<String>>,
    /// The guarded attempts of the first-match chain, one per shape.
    pub arms: Vec<String>,
}

/// The names of the handle-bearing arguments, in field order.
pub open spec fn handle_idents(args: ConcretiseTypeArgs, inputs: Seq<FnArgView>) -> Seq<Seq<char>> {
    Seq::new(args.field@.len(), |i: int| handle_ident(args, inputs, i))
}

/// The guarded attempts for the whole ladder.
pub open spec fn ladder_arms(args: ConcretiseTypeArgs, sig: SignatureView) -> Seq<Seq<char>> {
    let l = ladder(args);
    Seq::new(l.len(), |k: int| arm_text(args, l[k], sig.inputs, call_text(sig)))
}

/// The plan owed for a valid declaration.
pub open spec fn plan_of(p: DispatchPlan, args: ConcretiseTypeArgs, sig: SignatureView) -> bool {
    &&& p.signature@ == new_signature(args, sig)
    &&& strs(p.handles@) == handle_idents(args, sig.inputs)
    &&& nested(p.shapes@) == ladder(args)
    &&& strs(p.arms@) == ladder_arms(args, sig)
}

fn clone_strings(v: &Vec<String>) -> (r: Vec<String>)
    ensures
        strs(r@) == strs(v@),
{
    let mut r: Vec<String> = Vec::new();
    let mut i: usize = 0;
    while i < v.len()
        invariant
            i <= v@.len(),
            strs(r@) == strs(v@).take(i as int),
        decreases v@.len() - i,
    {
        let ghost prev = r@;
        let s = v[i].clone();
        r.push(s);
        assert(strs(r@) =~= strs(prev).push(s@));
        assert(strs(v@).take(i + 1) =~= strs(v@).take(i as int).push(s@));
        i = i + 1;
    }
    assert(strs(v@).take(v@.len() as int) =~= strs(v@));
    r
}

/// Replace the placeholders of the generic slots in a field template, slot by slot.
fn fill_generics(t: &String, keys: &Vec<String>, vals: &Vec<String>) -> (r: String)
    requires
        keys@.len() == vals@.len(),
    ensures
        r@ == fill_gen(t@, strs(keys@), strs(vals@), keys@.len()),
{
    let mut out = t.clone();
    let mut q: usize = 0;
    while q < keys.len()
        invariant
            q <= keys@.len(),
            keys@.len() == vals@.len(),
            out@ == fill_gen(t@, strs(keys@), strs(vals@), q as nat),
        decreases keys@.len() - q,
    {
        let pat = placeholder_of(keys[q].as_str());
        proof {
            reveal_strlit("{{");
            assert(pat@.len() > 0);
        }
        out = replace_str(out.as_str(), pat.as_str(), vals[q].as_str());
        q = q + 1;
    }
    out
}

/// Plan the dispatch function for a generic function: check the declaration,
/// rewrite the signature and build one guarded attempt per ladder shape.
pub fn concretise_type_impl(args: &ConcretiseTypeArgs, sig: &Signature) -> (r: Result<
    DispatchPlan,
    DeclError,
>)
    ensures
        match decl_error(*args, sig@) {
            None => r is Ok && plan_of(r->Ok_0, *args, sig@),
            Some(e) => r is Err && r->Err_0 == e,
        },
{
    match check_declaration(args, sig) {
        Err(e) => {
            return Err(e);
        },
        Ok(()) => {},
    }
    let ghost inputs = sig@.inputs;
    let new_signature = create_signature(args, sig);
    let call = match create_function_call(sig) {
        Ok(call) => call,
        Err(_) => {
            proof {
                assert(false);
            }
            String::new()
        },
    };
    proof {
        lemma_no_field_error(args.field@, inputs, 0);
    }
    // The handle-bearing arguments and the slot names.
    let mut handles: Vec<String> = Vec::new();
    let mut field_keys: Vec<String> = Vec::new();
    let mut field_cands: Vec<Vec<String>> = Vec::new();
    let mut i: usize = 0;
    while i < args.field.len()
        invariant
            i <= args.field@.len(),
            inputs == sig@.inputs,
            forall|j: int|
                0 <= j < args.field@.len() ==> #[trigger] field_error(args.field@[j], inputs) is None,
            strs(handles@) == handle_idents(*args, inputs).take(i as int),
            strs(field_keys@) == field_names(*args).take(i as int),
            nested(field_cands@) == field_lists(*args).take(i as int),
        decreases args.field@.len() - i,
    {
        let f = &args.field[i];
        assert(field_error(args.field@[i as int], inputs) is None);
        assert(inputs[f.arg as int] == sig.inputs@[f.arg as int]@);
        let ident = match get_function_arg_ident(&sig.inputs[f.arg]) {
            Ok(ident) => ident,
            Err(_) => {
                proof {
                    assert(false);
                }
                String::new()
            },
        };
        let ghost (h0, k0, c0) = (handles@, field_keys@, field_cands@);
        handles.push(ident);
        let key = f.name.clone();
        field_keys.push(key);
        let cands = clone_strings(&f.replace_with);
        field_cands.push(cands);
        assert(strs(handles@) =~= strs(h0).push(ident@));
        assert(strs(field_keys@) =~= strs(k0).push(key@));
        assert(nested(field_cands@) =~= nested(c0).push(strs(cands@)));
        assert(handle_idents(*args, inputs).take(i + 1) =~= handle_idents(*args, inputs).take(
            i as int,
        ).push(ident@));
        assert(field_names(*args).take(i + 1) =~= field_names(*args).take(i as int).push(key@));
        assert(field_lists(*args).take(i + 1) =~= field_lists(*args).take(i as int).push(
            strs(cands@),
        ));
        i = i + 1;
    }
    assert(handle_idents(*args, inputs).take(args.field@.len() as int) =~= handle_idents(
        *args,
        inputs,
    ));
    assert(field_names(*args).take(args.field@.len() as int) =~= field_names(*args));
    assert(field_lists(*args).take(args.field@.len() as int) =~= field_lists(*args));
    let mut gen_keys: Vec<String> = Vec::new();
    let mut gen_cands: Vec<Vec<String>> = Vec::new();
    let mut i: usize = 0;
    while i < args.gen_type.len()
        invariant
            i <= args.gen_type@.len(),
            strs(gen_keys@) == gen_names(*args).take(i as int),
            nested(gen_cands@) == gen_lists(*args).take(i as int),
        decreases args.gen_type@.len() - i,
    {
        let g = &args.gen_type[i];
        let ghost (k0, c0) = (gen_keys@, gen_cands@);
        let key = g.name.clone();
        gen_keys.push(key);
        let cands = clone_strings(&g.replace_with);
        gen_cands.push(cands);
        assert(strs(gen_keys@) =~= strs(k0).push(key@));
        assert(nested(gen_cands@) =~= nested(c0).push(strs(cands@)));
        assert(gen_names(*args).take(i + 1) =~= gen_names(*args).take(i as int).push(key@));
        assert(gen_lists(*args).take(i + 1) =~= gen_lists(*args).take(i as int).push(
            strs(cands@),
        ));
        i = i + 1;
    }
    assert(gen_names(*args).take(args.gen_type@.len() as int) =~= gen_names(*args));
    assert(gen_lists(*args).take(args.gen_type@.len() as int) =~= gen_lists(*args));
    // Walk the generic selections, and within each the field selections.
    let gen_combos = cartesian_product(&gen_cands);
    let field_combos = cartesian_product(&field_cands);
    let ghost gs = product(gen_lists(*args));
    let ghost fs = product(field_lists(*args));
    let ghost l = ladder(*args);
    let ghost la = ladder_arms(*args, sig@);
    proof {
        lemma_product_elem_len(gen_lists(*args));
        lemma_product_elem_len(field_lists(*args));
    }
    let gl = gen_combos.len();
    let fl = field_combos.len();
    let mut shapes: Vec<Vec<String>> = Vec::new();
    let mut arms: Vec<String> = Vec::new();
    let mut a: usize = 0;
    while a < gl
        invariant
            a <= gl,
            gl == gs.len(),
            fl == fs.len(),
            nested(gen_combos@) == gs,
            nested(field_combos@) == fs,
            gs == product(gen_lists(*args)),
            fs == product(field_lists(*args)),
            l == ladder(*args),
            la == ladder_arms(*args, sig@),
            inputs == sig@.inputs,
            call@ == call_text(sig@),
            first_field_error(args.field@, inputs, 0) is None,
            strs(gen_keys@) == gen_names(*args),
            strs(field_keys@) == field_names(*args),
            forall|k: int| 0 <= k < gs.len() ==> #[trigger] gs[k].len() == gen_lists(*args).len(),
            forall|k: int| 0 <= k < fs.len() ==> #[trigger] fs[k].len() == field_lists(*args).len(),
            nested(shapes@) == l.take(a * fl),
            strs(arms@) == la.take(a * fl),
        decreases gl - a,
    {
        assert(nested(gen_combos@)[a as int] == gs[a as int]);
        assert(gs[a as int].len() == gen_lists(*args).len());
        assert(gen_keys@.len() == strs(gen_keys@).len());
        assert(gen_combos@[a as int]@.len() == strs(gen_combos@[a as int]@).len());
        let complete_gen_types = replace_templates_with_types(
            gen_keys.as_slice(),
            gen_combos[a].as_slice(),
        );
        let mut b: usize = 0;
        while b < fl
            invariant
                a < gl,
                b <= fl,
                gl == gs.len(),
                fl == fs.len(),
                nested(gen_combos@) == gs,
                nested(field_combos@) == fs,
                gs == product(gen_lists(*args)),
                fs == product(field_lists(*args)),
                l == ladder(*args),
                la == ladder_arms(*args, sig@),
                inputs == sig@.inputs,
                call@ == call_text(sig@),
                first_field_error(args.field@, inputs, 0) is None,
                strs(gen_keys@) == gen_names(*args),
                strs(field_keys@) == field_names(*args),
                strs(complete_gen_types@) == resolve(gen_names(*args), gs[a as int]),
                gs[a as int].len() == gen_lists(*args).len(),
                forall|k: int| 0 <= k < fs.len() ==> #[trigger] fs[k].len() == field_lists(*args).len(),
                nested(shapes@) == l.take(a * fl + b),
                strs(arms@) == la.take(a * fl + b),
            decreases fl - b,
        {
            assert(nested(field_combos@)[b as int] == fs[b as int]);
            let combo = &field_combos[b];
            let ghost keys = gen_names(*args);
            let ghost vals = resolve(keys, gs[a as int]);
            proof {
                crate::template::lemma_resolve_len(keys, gs[a as int]);
            }
            let mut filled: Vec<String> = Vec::new();
            let mut q: usize = 0;
            while q < combo.len()
                invariant
                    q <= combo@.len(),
                    strs(gen_keys@) == keys,
                    strs(complete_gen_types@) == vals,
                    keys.len() == vals.len(),
                    strs(filled@) == strs(combo@).map_values(
                        |t: Seq<char>| fill_gen(t, keys, vals, keys.len()),
                    ).take(q as int),
                decreases combo@.len() - q,
            {
                let ghost prev = filled@;
                let t = fill_generics(&combo[q], &gen_keys, &complete_gen_types);
                filled.push(t);
                assert(strs(filled@) =~= strs(prev).push(t@));
                assert(strs(combo@).map_values(|t: Seq<char>| fill_gen(t, keys, vals, keys.len())).take(
                    q + 1,
                ) =~= strs(combo@).map_values(
                    |t: Seq<char>| fill_gen(t, keys, vals, keys.len()),
                ).take(q as int).push(t@));
                q = q + 1;
            }
            assert(strs(filled@) =~= fs[b as int].map_values(
                |t: Seq<char>| fill_gen(t, keys, vals, keys.len()),
            ));
            assert(fs[b as int].len() == field_lists(*args).len());
            assert(field_keys@.len() == strs(field_keys@).len());
            assert(combo@.len() == strs(combo@).len());
            assert(filled@.len() == strs(filled@).len());
            let complete_field_types = replace_templates_with_types(
                field_keys.as_slice(),
                filled.as_slice(),
            );
            proof {
                crate::template::lemma_resolve_len(field_names(*args), strs(filled@));
            }
            let arm = create_if_let_condition(
                args,
                complete_field_types.as_slice(),
                sig,
                call.as_str(),
            );
            let ghost k = a * fl + b;
            proof {
                assert(k < gl * fl) by (nonlinear_arith)
                    requires
                        k == a * fl + b,
                        a < gl,
                        b < fl,
                ;
                vstd::arithmetic::div_mod::lemma_fundamental_div_mod_converse(
                    k,
                    fl as int,
                    a as int,
                    b as int,
                );
                assert(l[k] == shape(*args, gs[a as int], fs[b as int]));
            }
            let ghost (s0, r0) = (shapes@, arms@);
            shapes.push(complete_field_types);
            arms.push(arm);
            assert(nested(shapes@) =~= nested(s0).push(strs(complete_field_types@)));
            assert(strs(arms@) =~= strs(r0).push(arm@));
            assert(l.take(k + 1) =~= l.take(k).push(l[k]));
            assert(la.take(k + 1) =~= la.take(k).push(la[k]));
            b = b + 1;
        }
        assert(a * fl + fl == (a + 1) * fl) by (nonlinear_arith);
        a = a + 1;
    }
    assert(l.take(gl * fl) =~= l);
    assert(la.take(gl * fl) =~= la);
    Ok(DispatchPlan { signature: new_signature, handles, shapes, arms })
}

/// The ladder holds one shape for each generic selection and each field
/// selection: the product of all the candidate counts.
pub proof fn lemma_ladder_size(args: ConcretiseTypeArgs)
    ensures
        ladder(args).len() == count_product(gen_lists(args)) * count_product(field_lists(args)),
        forall|k: int|
            0 <= k < ladder(args).len() ==> #[trigger] ladder(args)[k] == shape(
                args,
                product(gen_lists(args))[k / product(field_lists(args)).len() as int],
                product(field_lists(args))[k % product(field_lists(args)).len() as int],
            ),
{
    lemma_product_len(gen_lists(args));
    lemma_product_len(field_lists(args));
}

/// No two attempts of the ladder come from the same pair of selections
/// unless a candidate list repeats a candidate.
pub proof fn lemma_ladder_selections_distinct(args: ConcretiseTypeArgs, k1: int, k2: int)
    requires
        forall|i: int| 0 <= i < gen_lists(args).len() ==> no_duplicates(#[trigger] gen_lists(args)[i]),
        forall|i: int|
            0 <= i < field_lists(args).len() ==> no_duplicates(#[trigger] field_lists(args)[i]),
        0 <= k1 < k2 < ladder(args).len(),
    ensures
        ({
            let gs = product(gen_lists(args));
            let fs = product(field_lists(args));
            gs[k1 / fs.len() as int] != gs[k2 / fs.len() as int] || fs[k1 % fs.len() as int]
                != fs[k2 % fs.len() as int]
        }),
{
    let gs = product(gen_lists(args));
    let fs = product(field_lists(args));
    lemma_product_distinct(gen_lists(args));
    lemma_product_distinct(field_lists(args));
    lemma_grid_index(k1, gs.len() as int, fs.len() as int);
    lemma_grid_index(k2, gs.len() as int, fs.len() as int);
    let (q1, r1) = (k1 / fs.len() as int, k1 % fs.len() as int);
    let (q2, r2) = (k2 / fs.len() as int, k2 % fs.len() as int);
    if q1 == q2 && r1 == r2 {
        lemma_grid_unique(k1, k2, fs.len() as int);
    } else if q1 != q2 {
        if q1 < q2 {
            assert(gs[q1] != gs[q2]);
        } else {
            assert(gs[q2] != gs[q1]);
        }
    } else {
        if r1 < r2 {
            assert(fs[r1] != fs[r2]);
        } else {
            assert(fs[r2] != fs[r1]);
        }
    }
}

fn same_types(a: &Vec<String>, b: &Vec<String>) -> (r: bool)
    ensures
        r == (strs(a@) == strs(b@)),
{
    if a.len() != b.len() {
        assert(strs(a@).len() != strs(b@).len());
        return false;
    }
    let mut i: usize = 0;
    while i < a.len()
        invariant
            a@.len() == b@.len(),
            i <= a@.len(),
            forall|j: int| 0 <= j < i ==> a@[j]@ == b@[j]@,
        decreases a@.len() - i,
    {
        if a[i] != b[i] {
            assert(strs(a@)[i as int] != strs(b@)[i as int]);
            return false;
        }
        i = i + 1;
    }
    assert(strs(a@) =~= strs(b@));
    true
}

/// The attempt that a dispatch takes for a value whose concrete field types
/// are `held`: the first shape of the ladder equal to them, or none, in
/// which case the dispatch must not go on.
pub fn first_match(shapes: &Vec<Vec<String>>, held: &Vec<String>) -> (r: Option<usize>)
    ensures
        match r {
            Some(i) => i < shapes@.len() && nested(shapes@)[i as int] == strs(held@) && forall|
                j: int,
            |
                0 <= j < i ==> nested(shapes@)[j] != strs(held@),
            None => forall|j: int| 0 <= j < shapes@.len() ==> nested(shapes@)[j] != strs(held@),
        },
{
    let mut i: usize = 0;
    while i < shapes.len()
        invariant
            i <= shapes@.len(),
            forall|j: int| 0 <= j < i ==> nested(shapes@)[j] != strs(held@),
        decreases shapes@.len() - i,
    {
        if same_types(&shapes[i], held) {
            return Some(i);
        }
        i = i + 1;
    }
    None
}

} // verus!
