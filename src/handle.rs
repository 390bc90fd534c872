//! Opaque handles: the checks on a marker type and the names of its
//! operations, and a table that owns the erased values behind the handles.
use vstd::prelude::*;

verus! {

/// What was asked of a handle type: its operation prefix and which operations to make.
pub struct CWrapperArgs {
    /// The prefix of the operation names.
    pub name: String,
    /// Make `<name>_create`.
    pub create: bool,
    /// Make `<name>_free`.
    pub free: bool,
    /// Make `<name>_unwrap`.
    pub unwrap: bool,
}

/// What the generator reads of the marker type declaration.
pub struct MarkerDecl {
    /// Declared `pub`.
    pub is_public: bool,
    /// Declares generic parameters.
    pub has_generics: bool,
    /// A unit struct, without fields.
    pub is_unit: bool,
}

/// A marker declaration that cannot become a handle type.
#[derive(Debug, Clone, Copy, PartialEq, Eq, Structural)]
pub enum HandleError {
    /// The marker type is not public.
    NotPublic,
    /// The marker type has generic parameters.
    Generic,
    /// The marker type has fields.
    NotUnit,
    /// The operation prefix is empty.
    EmptyName,
}

/// The names of the operations to generate.
pub struct HandleOps {
    pub create: Option<String>,
    pub free: Option<String>,
    pub unwrap: Option<String>,
}

/// The error of a handle declaration, checked in this order.
pub open spec fn handle_error(args: CWrapperArgs, decl: MarkerDecl) -> Option<HandleError> {
    if !decl.is_public {
        Some(HandleError::NotPublic)
    } else if decl.has_generics {
        Some(HandleError::Generic)
    } else if !decl.is_unit {
        Some(HandleError::NotUnit)
    } else if args.name@.len() == 0 {
        Some(HandleError::EmptyName)
    } else {
        None
    }
}

/// `Some(name + suffix)` when the operation is asked for.
pub open spec fn op_name(wanted: bool, name: Seq<char>, suffix: Seq<char>, r: Option<String>) -> bool {
    if wanted {
        r is Some && r->Some_0@ == name + suffix
    } else {
        r is None
    }
}

fn op(wanted: bool, name: &str, suffix: &str) -> (r: Option<String>)
    ensures
        op_name(wanted, name@, suffix@, r),
{
    if wanted {
        let mut s = String::from_str(name);
        s.append(suffix);
        Some(s)
    } else {
        None
    }
}

/// Check a marker declaration and name the operations of its handle type.
pub fn c_wrapper_impl(args: &CWrapperArgs, decl: &MarkerDecl) -> (r: Result<HandleOps, HandleError>)
    ensures
        match handle_error(*args, *decl) {
            Some(e) => r is Err && r->Err_0 == e,
            None => r is Ok && op_name(args.create, args.name@, "_create"@, r->Ok_0.create)
                && op_name(args.free, args.name@, "_free"@, r->Ok_0.free) && op_name(
                args.unwrap,
                args.name@,
                "_unwrap"@,
                r->Ok_0.unwrap,
            ),
        },
{
    if !decl.is_public {
        return Err(HandleError::NotPublic);
    }
    if decl.has_generics {
        return Err(HandleError::Generic);
    }
    if !decl.is_unit {
        return Err(HandleError::NotUnit);
    }
    if args.name.unicode_len() == 0 {
        return Err(HandleError::EmptyName);
    }
    let name = args.name.as_str();
    Ok(
        HandleOps {
            create: op(args.create, name, "_create"),
            free: op(args.free, name, "_free"),
            unwrap: op(args.unwrap, name, "_unwrap"),
        },
    )
}

/// The slots after freeing handle `h`: a live handle loses its value; any
/// other handle is the "no value" sentinel and nothing changes.
pub open spec fn freed<T>(slots: Seq<Option<T>>, h: usize) -> Seq<Option<T>> {
    if h < slots.len() {
        slots.update(h as int, None)
    } else {
        slots
    }
}

/// What handle `h` holds: `None` for a freed handle or the sentinel.
pub open spec fn held<T>(slots: Seq<Option<T>>, h: usize) -> Option<T> {
    if h < slots.len() {
        slots[h as int]
    } else {
        None
    }
}

/// Owner of the erased values behind handles; a handle is an index.
pub struct HandleTable<T> {
    slots: Vec<Option<T>>,
}

impl<T> View for HandleTable<T> {
    type V = Seq<Option<T>>;

    closed spec fn view(&self) -> Seq<Option<T>> {
        self.slots@
    }
}

impl<T> HandleTable<T> {
    /// A table without handles.
    pub fn new() -> (r: Self)
        ensures
            r@ == Seq::<Option<T>>::empty(),
    {
        HandleTable { slots: Vec::new() }
    }

    /// Make a new handle whose erased value is `placeholder`.
    pub fn create(&mut self, placeholder: T) -> (h: usize)
        requires
            old(self)@.len() < usize::MAX,
        ensures
            h == old(self)@.len(),
            final(self)@ == old(self)@.push(Some(placeholder)),
    {
        let h = self.slots.len();
        self.slots.push(Some(placeholder));
        h
    }

    /// Release the value of handle `h`; the sentinel is left alone.
    pub fn free(&mut self, h: usize)
        ensures
            final(self)@ == freed(old(self)@, h),
    {
        if h < self.slots.len() {
            self.slots.set(h, None);
        }
    }

    /// The erased value of handle `h`, or `None` for the sentinel.
    pub fn unwrap(&self, h: usize) -> (r: Option<&T>)
        ensures
            match (r, held(self@, h)) {
                (Some(v), Some(w)) => *v == w,
                (None, None) => true,
                _ => false,
            },
    {
        if h < self.slots.len() {
            match &self.slots[h] {
                Some(v) => Some(v),
                None => None,
            }
        } else {
            None
        }
    }

    /// Store `value` as the erased value of a live handle; report whether it was live.
    pub fn populate(&mut self, h: usize, value: T) -> (r: bool)
        ensures
            r == (held(old(self)@, h) is Some),
            final(self)@ == if r {
                old(self)@.update(h as int, Some(value))
            } else {
                old(self)@
            },
    {
        if h < self.slots.len() && self.slots[h].is_some() {
            self.slots.set(h, Some(value));
            true
        } else {
            false
        }
    }
}

/// A handle fresh from `create` holds its placeholder.
pub proof fn lemma_create_then_unwrap<T>(slots: Seq<Option<T>>, placeholder: T)
    requires
        slots.len() < usize::MAX,
    ensures
        held(slots.push(Some(placeholder)), slots.len() as usize) == Some(placeholder),
{
}

/// Freeing a handle twice is the same as freeing it once, and a freed handle holds nothing.
pub proof fn lemma_free_twice<T>(slots: Seq<Option<T>>, h: usize)
    ensures
        freed(freed(slots, h), h) == freed(slots, h),
        held(freed(slots, h), h) is None,
{
    if h < slots.len() {
        assert(freed(freed(slots, h), h) =~= freed(slots, h));
    }
}

} // verus!
