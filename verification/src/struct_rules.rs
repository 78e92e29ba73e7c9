//! The rules shared by the `#[salsa::input]`, `#[salsa::interned]` and
//! `#[salsa::tracked]` struct attributes: which field options a struct
//! accepts and how each field's accessors are named.
use crate::derive_rules::{DataField, FieldType, positions, tracked_impl_error, update_verdict, updates_verdict};
use vstd::prelude::*;

verus! {

/// One attribute on a field, as the struct attributes read it.
pub enum FieldAttr {
    /// `#[tracked]`.
    TrackedAttr,
    /// `#[default]`.
    Default,
    /// `#[returns(mode)]`.
    Returns(String),
    /// `#[no_eq]`.
    NoEq,
    /// `#[get(name)]`.
    Getter(String),
    /// `#[set(name)]`.
    Setter(String),
    /// `#[maybe_update(..)]`.
    MaybeUpdate,
    /// Any other attribute, kept on the generated field; it holds the
    /// number of segments of the attribute's path.
    Other(usize),
}

/// An attribute the field rules do not read: where it stands among the
/// field's attributes and how many segments its path has.
#[derive(Clone, Copy, PartialEq, Eq, Structural, Debug)]
pub struct UnknownAttr {
    pub position: usize,
    pub path_segments: usize,
}

/// A field as declared: its name, what the rules read of its type, and its
/// attributes.
pub struct FieldDecl {
    pub name: String,
    pub ty: FieldType,
    /// The declared type, as written.
    pub ty_text: String,
    /// The type argument, as written, when the declared type is
    /// `TrackedField<T>` or `InputField<T>`.
    pub wrapped_ty: Option<String>,
    pub attrs: Vec<FieldAttr>,
}

impl FieldDecl {
    /// Whether the description agrees with itself as it does for any
    /// declared field: the type facts agree, and a type argument is given
    /// exactly for a `TrackedField` or an `InputField`.
    pub open spec fn wf(self) -> bool {
        &&& self.ty.wf()
        &&& (self.ty.is_tracked_field || self.ty.is_input_field) == (self.wrapped_ty is Some)
    }
}

/// A field of a Salsa struct after its attributes were read.
pub struct SalsaField {
    pub name: String,
    pub ty: FieldType,
    pub ty_text: String,
    pub wrapped_ty: Option<String>,
    pub has_tracked_attr: bool,
    pub has_default_attr: bool,
    pub returns: String,
    pub has_no_eq_attr: bool,
    pub has_maybe_update_attr: bool,
    pub get_name: String,
    pub set_name: String,
    /// The attributes that are kept on the generated field, in order.
    pub unknown_attrs: Vec<UnknownAttr>,
}

// ----------------------------------------------------------------- fields

/// Field names that would clash with generated methods.
pub open spec fn is_banned_name(name: Seq<char>) -> bool {
    name == "from"@ || name == "new"@
}

/// The return modes a field accessor may have.
pub open spec fn is_allowed_return_mode(mode: Seq<char>) -> bool {
    mode == "copy"@ || mode == "clone"@ || mode == "ref"@ || mode == "deref"@ || mode
        == "as_ref"@ || mode == "as_deref"@
}

pub open spec fn msg_banned_name(name: Seq<char>) -> Seq<char> {
    "the field name `"@ + name + "` is disallowed in salsa structs"@
}

pub open spec fn msg_return_mode() -> Seq<char> {
    "Invalid return mode. Allowed modes are: [\"copy\", \"clone\", \"ref\", \"deref\", \"as_ref\", \"as_deref\"]"@
}

/// Whether one of the first `n` attributes is `#[tracked]`.
pub open spec fn has_tracked_attr(attrs: Seq<FieldAttr>, n: int) -> bool {
    exists|k: int| 0 <= k < n && attrs[k] is TrackedAttr
}

/// Whether one of the first `n` attributes is `#[default]`.
pub open spec fn has_default_attr(attrs: Seq<FieldAttr>, n: int) -> bool {
    exists|k: int| 0 <= k < n && attrs[k] is Default
}

/// Whether one of the first `n` attributes is `#[no_eq]`.
pub open spec fn has_no_eq_attr(attrs: Seq<FieldAttr>, n: int) -> bool {
    exists|k: int| 0 <= k < n && attrs[k] is NoEq
}

/// Whether one of the first `n` attributes is `#[maybe_update(..)]`.
pub open spec fn has_maybe_update_attr(attrs: Seq<FieldAttr>, n: int) -> bool {
    exists|k: int| 0 <= k < n && attrs[k] is MaybeUpdate
}

/// The return mode after the first `n` attributes: the last `#[returns]`
/// wins; `clone` when there is none.
pub open spec fn returns_after(attrs: Seq<FieldAttr>, n: int) -> Seq<char>
    decreases n,
{
    if n <= 0 {
        "clone"@
    } else {
        match attrs[n - 1] {
            FieldAttr::Returns(mode) => mode@,
            _ => returns_after(attrs, n - 1),
        }
    }
}

/// The getter name after the first `n` attributes: the last `#[get]` wins;
/// the field's name when there is none.
pub open spec fn get_name_after(attrs: Seq<FieldAttr>, n: int, name: Seq<char>) -> Seq<char>
    decreases n,
{
    if n <= 0 {
        name
    } else {
        match attrs[n - 1] {
            FieldAttr::Getter(g) => g@,
            _ => get_name_after(attrs, n - 1, name),
        }
    }
}

/// The setter name after the first `n` attributes: the last `#[set]` wins;
/// `set_` and the field's name when there is none.
pub open spec fn set_name_after(attrs: Seq<FieldAttr>, n: int, name: Seq<char>) -> Seq<char>
    decreases n,
{
    if n <= 0 {
        "set_"@ + name
    } else {
        match attrs[n - 1] {
            FieldAttr::Setter(g) => g@,
            _ => set_name_after(attrs, n - 1, name),
        }
    }
}

/// The other attributes among the first `n`, in order.
pub open spec fn unknown_after(attrs: Seq<FieldAttr>, n: int) -> Seq<UnknownAttr>
    decreases n,
{
    if n <= 0 {
        Seq::empty()
    } else {
        match attrs[n - 1] {
            FieldAttr::Other(segments) => unknown_after(attrs, n - 1).push(
                UnknownAttr { position: (n - 1) as usize, path_segments: segments },
            ),
            _ => unknown_after(attrs, n - 1),
        }
    }
}

/// Whether two optional texts are both absent or both present with the
/// same characters.
pub open spec fn same_text_option(a: Option<String>, b: Option<String>) -> bool {
    match (a, b) {
        (None, None) => true,
        (Some(x), Some(y)) => x@ == y@,
        _ => false,
    }
}

/// A copy of an optional text.
fn clone_text_option(t: &Option<String>) -> (r: Option<String>)
    ensures
        same_text_option(r, *t),
{
    match t {
        Some(x) => Some(x.clone()),
        None => None,
    }
}

/// The type a field's value has, as the accessors and the constructor
/// take and give it: the type argument of a `TrackedField<T>`, else the
/// declared type.
pub open spec fn value_type(f: SalsaField) -> Seq<char> {
    if f.ty.is_tracked_field && f.wrapped_ty is Some {
        f.wrapped_ty->Some_0@
    } else {
        f.ty_text@
    }
}

/// Whether `f` is the field read from `decl`.
pub open spec fn field_read_from(f: SalsaField, decl: FieldDecl) -> bool {
    let attrs = decl.attrs@;
    let n = attrs.len() as int;
    &&& f.name@ == decl.name@
    &&& f.ty_text@ == decl.ty_text@
    &&& same_text_option(f.wrapped_ty, decl.wrapped_ty)
    &&& f.ty == decl.ty
    &&& f.has_tracked_attr == has_tracked_attr(attrs, n)
    &&& f.has_default_attr == has_default_attr(attrs, n)
    &&& f.has_no_eq_attr == has_no_eq_attr(attrs, n)
    &&& f.has_maybe_update_attr == has_maybe_update_attr(attrs, n)
    &&& f.returns@ == returns_after(attrs, n)
    &&& f.get_name@ == get_name_after(attrs, n, decl.name@)
    &&& f.set_name@ == set_name_after(attrs, n, decl.name@)
    &&& f.unknown_attrs@ == unknown_after(attrs, n)
}

/// The message rejecting a field, if any: a banned name first, then an
/// invalid return mode.
pub open spec fn field_error(decl: FieldDecl) -> Option<Seq<char>> {
    if is_banned_name(decl.name@) {
        Some(msg_banned_name(decl.name@))
    } else if !is_allowed_return_mode(returns_after(decl.attrs@, decl.attrs@.len() as int)) {
        Some(msg_return_mode())
    } else {
        None
    }
}

/// Whether two strings are equal.
fn same_text(a: &String, b: &str) -> (same: bool)
    ensures
        same == (a@ == b@),
{
    let b = String::from_str(b);
    *a == b
}

/// Whether `mode` is an allowed return mode.
fn allowed_return_mode(mode: &String) -> (allowed: bool)
    ensures
        allowed == is_allowed_return_mode(mode@),
{
    same_text(mode, "copy") || same_text(mode, "clone") || same_text(mode, "ref") || same_text(
        mode,
        "deref",
    ) || same_text(mode, "as_ref") || same_text(mode, "as_deref")
}

impl SalsaField {
    /// Reads a field's attributes: `#[tracked]`, `#[default]`, `#[no_eq]`
    /// and `#[maybe_update]` set their flags, the last `#[returns]`,
    /// `#[get]` and `#[set]` win, and other attributes are kept; rejects
    /// the names `from` and `new` and unknown return modes.
    pub fn new(decl: &FieldDecl) -> (r: Result<SalsaField, String>)
        ensures
            match field_error(*decl) {
                Some(m) => r matches Err(e) && e@ == m,
                None => r matches Ok(f) && field_read_from(f, *decl),
            },
    {
        if same_text(&decl.name, "from") || same_text(&decl.name, "new") {
            let mut message = String::from_str("the field name `");
            message.append(decl.name.as_str());
            message.append("` is disallowed in salsa structs");
            return Err(message);
        }
        let mut set_name = String::from_str("set_");
        set_name.append(decl.name.as_str());
        let mut field = SalsaField {
            name: decl.name.clone(),
            ty_text: decl.ty_text.clone(),
            wrapped_ty: clone_text_option(&decl.wrapped_ty),
            ty: decl.ty,
            has_tracked_attr: false,
            has_default_attr: false,
            returns: String::from_str("clone"),
            has_no_eq_attr: false,
            has_maybe_update_attr: false,
            get_name: decl.name.clone(),
            set_name,
            unknown_attrs: Vec::new(),
        };
        let n = decl.attrs.len();
        let mut i: usize = 0;
        while i < n
            invariant
                n == decl.attrs@.len(),
                i <= n,
                field.name@ == decl.name@,
                field.ty_text@ == decl.ty_text@,
                same_text_option(field.wrapped_ty, decl.wrapped_ty),
                field.ty == decl.ty,
                field.has_tracked_attr == has_tracked_attr(decl.attrs@, i as int),
                field.has_default_attr == has_default_attr(decl.attrs@, i as int),
                field.has_no_eq_attr == has_no_eq_attr(decl.attrs@, i as int),
                field.has_maybe_update_attr == has_maybe_update_attr(decl.attrs@, i as int),
                field.returns@ == returns_after(decl.attrs@, i as int),
                field.get_name@ == get_name_after(decl.attrs@, i as int, decl.name@),
                field.set_name@ == set_name_after(decl.attrs@, i as int, decl.name@),
                field.unknown_attrs@ == unknown_after(decl.attrs@, i as int),
            decreases n - i,
        {
            let ghost attrs = decl.attrs@;
            match &decl.attrs[i] {
                FieldAttr::TrackedAttr => {
                    field.has_tracked_attr = true;
                },
                FieldAttr::Default => {
                    field.has_default_attr = true;
                },
                FieldAttr::Returns(mode) => {
                    field.returns = mode.clone();
                },
                FieldAttr::NoEq => {
                    field.has_no_eq_attr = true;
                },
                FieldAttr::Getter(name) => {
                    field.get_name = name.clone();
                },
                FieldAttr::Setter(name) => {
                    field.set_name = name.clone();
                },
                FieldAttr::MaybeUpdate => {
                    field.has_maybe_update_attr = true;
                },
                FieldAttr::Other(segments) => {
                    field.unknown_attrs.push(UnknownAttr { position: i, path_segments: *segments });
                },
            }
            proof {
                let j = (i + 1) as int;
                assert(has_tracked_attr(attrs, j) == (has_tracked_attr(attrs, i as int)
                    || attrs[i as int] is TrackedAttr));
                assert(has_default_attr(attrs, j) == (has_default_attr(attrs, i as int)
                    || attrs[i as int] is Default));
                assert(has_no_eq_attr(attrs, j) == (has_no_eq_attr(attrs, i as int)
                    || attrs[i as int] is NoEq));
                assert(has_maybe_update_attr(attrs, j) == (has_maybe_update_attr(attrs, i as int)
                    || attrs[i as int] is MaybeUpdate));
            }
            i = i + 1;
        }
        if !allowed_return_mode(&field.returns) {
            return Err(
                String::from_str(
                    "Invalid return mode. Allowed modes are: [\"copy\", \"clone\", \"ref\", \"deref\", \"as_ref\", \"as_deref\"]",
                ),
            );
        }
        Ok(field)
    }

    /// Whether the field's type is `TrackedField<T>`.
    pub fn is_tracked_field(&self) -> (r: bool)
        ensures
            r == self.ty.is_tracked_field,
    {
        self.ty.is_tracked_field
    }

    /// Whether the field's type is `InputField<T>`.
    pub fn is_input_field(&self) -> (r: bool)
        ensures
            r == self.ty.is_input_field,
    {
        self.ty.is_input_field
    }

    /// The field of the generated fields struct that stores this field, with
    /// the `#[salsa(..)]` option that carries its update rule: `no_eq`
    /// first, else `maybe_update`.
    pub fn data_field(&self) -> (r: DataField)
        ensures
            r == data_field_of(*self),
    {
        DataField {
            ty: self.ty,
            no_eq: self.has_no_eq_attr,
            maybe_update: !self.has_no_eq_attr && self.has_maybe_update_attr,
            unsupported_option: false,
        }
    }

    /// The positions of the kept attributes whose path is a single
    /// segment, in order: those that may be copied to the generated field.
    pub fn storage_attrs(&self) -> (r: Vec<usize>)
        ensures
            r@ == single_segment_positions(self.unknown_attrs@, self.unknown_attrs@.len() as int),
    {
        let n = self.unknown_attrs.len();
        let mut r: Vec<usize> = Vec::new();
        let mut i: usize = 0;
        while i < n
            invariant
                n == self.unknown_attrs@.len(),
                i <= n,
                r@ == single_segment_positions(self.unknown_attrs@, i as int),
            decreases n - i,
        {
            if self.unknown_attrs[i].path_segments == 1 {
                r.push(self.unknown_attrs[i].position);
            }
            i = i + 1;
        }
        r
    }

    /// The field's accessor options: its return mode, and whether it has a
    /// default value or is required.
    pub fn options(&self) -> (r: (String, bool))
        ensures
            r.0@ == self.returns@,
            r.1 == self.has_default_attr,
    {
        (self.returns.clone(), self.has_default_attr)
    }
}

// ---------------------------------------------------------------- structs

/// A kind of Salsa struct: the name of its attribute and the field
/// options it allows.
#[derive(Clone, Copy)]
pub struct StructKindRules {
    /// The attribute's name under `salsa::`.
    pub kind: &'static str,
    /// Whether `#[maybe_update]` fields are allowed.
    pub allow_maybe_update: bool,
    /// Whether `#[tracked]` fields are allowed.
    pub allow_tracked: bool,
    /// Whether `#[default]` fields are allowed.
    pub allow_default: bool,
}

/// The `persist(..)` argument of a struct attribute: the functions given
/// to serialize and deserialize the fields, if any.
pub struct PersistArgs {
    pub serialize_fn: Option<String>,
    pub deserialize_fn: Option<String>,
}

/// The struct attribute's arguments that the shared rules read.
pub struct StructArgs {
    /// `bare`.
    pub bare: bool,
    /// `fields = Name`.
    pub fields_name: Option<String>,
    /// `debug`.
    pub debug: bool,
    /// `no_lifetime`.
    pub no_lifetime: bool,
    /// `non_update_types`.
    pub non_update_types: bool,
    /// `constructor = name`.
    pub constructor_name: Option<String>,
    /// `persist(..)`.
    pub persist: Option<PersistArgs>,
}

/// What `#[salsa::interned]` allows.
pub fn interned_rules() -> (r: StructKindRules)
    ensures
        r.kind@ == "interned"@,
        !r.allow_maybe_update,
        !r.allow_tracked,
        !r.allow_default,
{
    StructKindRules { kind: "interned", allow_maybe_update: false, allow_tracked: false, allow_default: false }
}

/// What `#[salsa::tracked]` on a struct allows.
pub fn tracked_struct_rules() -> (r: StructKindRules)
    ensures
        r.kind@ == "tracked"@,
        r.allow_maybe_update,
        !r.allow_tracked,
        !r.allow_default,
{
    StructKindRules { kind: "tracked", allow_maybe_update: true, allow_tracked: false, allow_default: false }
}

pub open spec fn msg_bare_needs_fields() -> Seq<char> {
    "`fields = Name` is required in bare mode"@
}

pub open spec fn msg_named_fields() -> Seq<char> {
    "must have named fields for a struct"@
}

pub open spec fn msg_disallowed(attr: Seq<char>, kind: Seq<char>) -> Seq<char> {
    "`#["@ + attr + "]` cannot be used with `#[salsa::"@ + kind + "]`"@
}

/// A Salsa struct whose fields passed the shared rules.
pub struct SalsaStruct {
    pub args: StructArgs,
    pub fields: Vec<SalsaField>,
}

/// The message for the first of the first `n` declared fields that is
/// rejected, if any.
pub open spec fn fields_error(decls: Seq<FieldDecl>, n: int) -> Option<Seq<char>>
    decreases n,
{
    if n <= 0 {
        None
    } else {
        match fields_error(decls, n - 1) {
            Some(m) => Some(m),
            None => field_error(decls[n - 1]),
        }
    }
}

proof fn lemma_fields_error_stops(decls: Seq<FieldDecl>, i: int, n: int)
    requires
        0 <= i <= n,
        fields_error(decls, i) is Some,
    ensures
        fields_error(decls, n) == fields_error(decls, i),
    decreases n - i,
{
    if i < n {
        lemma_fields_error_stops(decls, i, n - 1);
    }
}

/// The message rejecting a struct, if any, in the order the rules check:
/// bare mode needs a fields name, fields must be named, each field must be
/// accepted, and then `#[maybe_update]`, `#[tracked]` and `#[default]`
/// fields must be allowed by the struct's kind.
pub open spec fn struct_error(
    rules: StructKindRules,
    args: StructArgs,
    decls: Option<Seq<FieldDecl>>,
) -> Option<Seq<char>> {
    if args.bare && args.fields_name is None {
        Some(msg_bare_needs_fields())
    } else {
        match decls {
            None => Some(msg_named_fields()),
            Some(d) => match fields_error(d, d.len() as int) {
                Some(m) => Some(m),
                None => if !rules.allow_maybe_update && exists|k: int|
                    0 <= k < d.len() && has_maybe_update_attr(
                        d[k].attrs@,
                        d[k].attrs@.len() as int,
                    ) {
                    Some(msg_disallowed("maybe_update"@, rules.kind@))
                } else if !rules.allow_tracked && exists|k: int|
                    0 <= k < d.len() && has_tracked_attr(d[k].attrs@, d[k].attrs@.len() as int) {
                    Some(msg_disallowed("tracked"@, rules.kind@))
                } else if !rules.allow_default && exists|k: int|
                    0 <= k < d.len() && has_default_attr(d[k].attrs@, d[k].attrs@.len() as int) {
                    Some(msg_disallowed("default"@, rules.kind@))
                } else {
                    None
                },
            },
        }
    }
}

/// Builds the message for an attribute a kind of struct does not allow.
fn disallowed(attr: &str, kind: &str) -> (message: String)
    ensures
        message@ == msg_disallowed(attr@, kind@),
{
    let mut message = String::from_str("`#[");
    message.append(attr);
    message.append("]` cannot be used with `#[salsa::");
    message.append(kind);
    message.append("]`");
    message
}

impl SalsaStruct {
    /// Applies the shared rules to a struct of the given kind, whose
    /// fields are `decls` when they are named.
    pub fn new(rules: StructKindRules, args: StructArgs, decls: Option<&Vec<FieldDecl>>) -> (r: Result<
        SalsaStruct,
        String,
    >)
        ensures
            match struct_error(
                rules,
                args,
                match decls {
                    Some(d) => Some(d@),
                    None => None,
                },
            ) {
                Some(m) => r matches Err(e) && e@ == m,
                None => {
                    &&& r is Ok
                    &&& decls is Some
                    &&& r->Ok_0.args == args
                    &&& r->Ok_0.fields@.len() == decls.unwrap()@.len()
                    &&& forall|k: int|
                        0 <= k < decls.unwrap()@.len() ==> field_read_from(
                            #[trigger] r->Ok_0.fields@[k],
                            decls.unwrap()@[k],
                        )
                },
            },
    {
        if args.bare && args.fields_name.is_none() {
            return Err(String::from_str("`fields = Name` is required in bare mode"));
        }
        let d = match decls {
            Some(d) => d,
            None => {
                return Err(String::from_str("must have named fields for a struct"));
            },
        };
        let n = d.len();
        let mut fields: Vec<SalsaField> = Vec::new();
        let mut i: usize = 0;
        while i < n
            invariant
                n == d@.len(),
                decls == Some(d),
                !(args.bare && args.fields_name is None),
                i <= n,
                fields_error(d@, i as int) is None,
                fields@.len() == i,
                forall|k: int| 0 <= k < i ==> field_read_from(#[trigger] fields@[k], d@[k]),
            decreases n - i,
        {
            match SalsaField::new(&d[i]) {
                Ok(f) => {
                    fields.push(f);
                },
                Err(e) => {
                    proof {
                        assert(fields_error(d@, (i + 1) as int) == Some(e@));
                        lemma_fields_error_stops(d@, (i + 1) as int, n as int);
                    }
                    return Err(e);
                },
            }
            i = i + 1;
        }
        let mut k: usize = 0;
        while k < n
            invariant
                n == fields@.len(),
                n == d@.len(),
                decls == Some(d),
                !(args.bare && args.fields_name is None),
                fields_error(d@, n as int) is None,
                k <= n,
                forall|j: int| 0 <= j < n ==> field_read_from(#[trigger] fields@[j], d@[j]),
                !rules.allow_maybe_update ==> forall|j: int|
                    0 <= j < k ==> !has_maybe_update_attr(
                        #[trigger] d@[j].attrs@,
                        d@[j].attrs@.len() as int,
                    ),
            decreases n - k,
        {
            if !rules.allow_maybe_update && fields[k].has_maybe_update_attr {
                assert(has_maybe_update_attr(d@[k as int].attrs@, d@[k as int].attrs@.len() as int));
                return Err(disallowed("maybe_update", rules.kind));
            }
            k = k + 1;
        }
        let mut k: usize = 0;
        while k < n
            invariant
                n == fields@.len(),
                n == d@.len(),
                decls == Some(d),
                !(args.bare && args.fields_name is None),
                fields_error(d@, n as int) is None,
                k <= n,
                forall|j: int| 0 <= j < n ==> field_read_from(#[trigger] fields@[j], d@[j]),
                !rules.allow_maybe_update ==> forall|j: int|
                    0 <= j < n ==> !has_maybe_update_attr(
                        #[trigger] d@[j].attrs@,
                        d@[j].attrs@.len() as int,
                    ),
                !rules.allow_tracked ==> forall|j: int|
                    0 <= j < k ==> !has_tracked_attr(
                        #[trigger] d@[j].attrs@,
                        d@[j].attrs@.len() as int,
                    ),
            decreases n - k,
        {
            if !rules.allow_tracked && fields[k].has_tracked_attr {
                assert(has_tracked_attr(d@[k as int].attrs@, d@[k as int].attrs@.len() as int));
                return Err(disallowed("tracked", rules.kind));
            }
            k = k + 1;
        }
        let mut k: usize = 0;
        while k < n
            invariant
                n == fields@.len(),
                n == d@.len(),
                decls == Some(d),
                !(args.bare && args.fields_name is None),
                fields_error(d@, n as int) is None,
                k <= n,
                forall|j: int| 0 <= j < n ==> field_read_from(#[trigger] fields@[j], d@[j]),
                !rules.allow_maybe_update ==> forall|j: int|
                    0 <= j < n ==> !has_maybe_update_attr(
                        #[trigger] d@[j].attrs@,
                        d@[j].attrs@.len() as int,
                    ),
                !rules.allow_tracked ==> forall|j: int|
                    0 <= j < n ==> !has_tracked_attr(
                        #[trigger] d@[j].attrs@,
                        d@[j].attrs@.len() as int,
                    ),
                !rules.allow_default ==> forall|j: int|
                    0 <= j < k ==> !has_default_attr(
                        #[trigger] d@[j].attrs@,
                        d@[j].attrs@.len() as int,
                    ),
            decreases n - k,
        {
            if !rules.allow_default && fields[k].has_default_attr {
                assert(has_default_attr(d@[k as int].attrs@, d@[k as int].attrs@.len() as int));
                return Err(disallowed("default", rules.kind));
            }
            k = k + 1;
        }
        Ok(SalsaStruct { args, fields })
    }

    /// Whether a `Debug` implementation is generated.
    pub fn generate_debug_impl(&self) -> (r: bool)
        ensures
            r == self.args.debug,
    {
        self.args.debug
    }

    /// Whether the struct carries a database lifetime.
    pub fn generate_lifetime(&self) -> (r: bool)
        ensures
            r == !self.args.no_lifetime,
    {
        !self.args.no_lifetime
    }

    /// The number of fields.
    pub fn num_fields(&self) -> (r: usize)
        ensures
            r == self.fields@.len(),
    {
        self.fields.len()
    }

    /// The positions of the fields whose type is `TrackedField<T>`, in order.
    pub fn tracked_fields_iter(&self) -> (r: Vec<usize>)
        ensures
            r@ == group_positions(self.fields@, true, self.fields@.len() as int),
    {
        self.group_positions(true)
    }

    /// The positions of the other fields, in order.
    pub fn untracked_fields_iter(&self) -> (r: Vec<usize>)
        ensures
            r@ == group_positions(self.fields@, false, self.fields@.len() as int),
    {
        self.group_positions(false)
    }

    fn group_positions(&self, tracked_group: bool) -> (r: Vec<usize>)
        ensures
            r@ == group_positions(self.fields@, tracked_group, self.fields@.len() as int),
    {
        let n = self.fields.len();
        let mut r: Vec<usize> = Vec::new();
        let mut i: usize = 0;
        while i < n
            invariant
                n == self.fields@.len(),
                i <= n,
                r@ == group_positions(self.fields@, tracked_group, i as int),
            decreases n - i,
        {
            if self.fields[i].is_tracked_field() == tracked_group {
                r.push(i);
            }
            i = i + 1;
        }
        r
    }

    /// Whether each field's type is `TrackedField<T>`.
    pub fn tracked_flags(&self) -> (r: Vec<bool>)
        ensures
            r@.len() == self.fields@.len(),
            forall|k: int|
                0 <= k < r@.len() ==> r@[k] == self.fields@[k].ty.is_tracked_field,
    {
        let n = self.fields.len();
        let mut r: Vec<bool> = Vec::new();
        let mut i: usize = 0;
        while i < n
            invariant
                n == self.fields@.len(),
                i <= n,
                r@.len() == i,
                forall|k: int|
                    0 <= k < i ==> r@[k] == self.fields@[k].ty.is_tracked_field,
            decreases n - i,
        {
            r.push(self.fields[i].is_tracked_field());
            i = i + 1;
        }
        r
    }

    /// Whether each field's type is `InputField<T>`.
    pub fn input_flags(&self) -> (r: Vec<bool>)
        ensures
            r@.len() == self.fields@.len(),
            forall|k: int|
                0 <= k < r@.len() ==> r@[k] == self.fields@[k].ty.is_input_field,
    {
        let n = self.fields.len();
        let mut r: Vec<bool> = Vec::new();
        let mut i: usize = 0;
        while i < n
            invariant
                n == self.fields@.len(),
                i <= n,
                r@.len() == i,
                forall|k: int|
                    0 <= k < i ==> r@[k] == self.fields@[k].ty.is_input_field,
            decreases n - i,
        {
            r.push(self.fields[i].is_input_field());
            i = i + 1;
        }
        r
    }

    /// The positions of the fields a constructor must be given: those
    /// without `#[default]`, in order.
    pub fn required_fields(&self) -> (r: Vec<usize>)
        ensures
            r@ == required_positions(self.fields@, self.fields@.len() as int),
    {
        let n = self.fields.len();
        let mut r: Vec<usize> = Vec::new();
        let mut i: usize = 0;
        while i < n
            invariant
                n == self.fields@.len(),
                i <= n,
                r@ == required_positions(self.fields@, i as int),
            decreases n - i,
        {
            if !self.fields[i].has_default_attr {
                r.push(i);
            }
            i = i + 1;
        }
        r
    }

    /// The name of the method returning all fields at once: `fields`,
    /// unless a getter already has that name, then `salsa_fields`.
    pub fn fields_method_name(&self) -> (r: String)
        ensures
            r@ == spec_fields_method_name(self.fields@),
            (exists|k: int| 0 <= k < self.fields@.len() && self.fields@[k].get_name@ == "fields"@)
                ==> r@ == "salsa_fields"@,
            !(exists|k: int| 0 <= k < self.fields@.len() && self.fields@[k].get_name@ == "fields"@)
                ==> r@ == "fields"@,
    {
        let n = self.fields.len();
        let mut i: usize = 0;
        while i < n
            invariant
                n == self.fields@.len(),
                i <= n,
                forall|k: int| 0 <= k < i ==> self.fields@[k].get_name@ != "fields"@,
            decreases n - i,
        {
            if same_text(&self.fields[i].get_name, "fields") {
                return String::from_str("salsa_fields");
            }
            i = i + 1;
        }
        String::from_str("fields")
    }

    /// The names of the durability setters: each field's name followed by
    /// `_durability`.
    pub fn field_durability_ids(&self) -> (r: Vec<String>)
        ensures
            r@.len() == self.fields@.len(),
            forall|k: int|
                0 <= k < r@.len() ==> r@[k]@ == self.fields@[k].name@ + "_durability"@,
    {
        let n = self.fields.len();
        let mut r: Vec<String> = Vec::new();
        let mut i: usize = 0;
        while i < n
            invariant
                n == self.fields@.len(),
                i <= n,
                r@.len() == i,
                forall|k: int| 0 <= k < i ==> r@[k]@ == self.fields@[k].name@ + "_durability"@,
            decreases n - i,
        {
            let mut id = self.fields[i].name.clone();
            id.append("_durability");
            r.push(id);
            i = i + 1;
        }
        r
    }
}

/// The name of the method returning all fields at once: `salsa_fields`
/// when a getter is already named `fields`, else `fields`.
pub open spec fn spec_fields_method_name(fields: Seq<SalsaField>) -> Seq<char> {
    if exists|k: int| 0 <= k < fields.len() && fields[k].get_name@ == "fields"@ {
        "salsa_fields"@
    } else {
        "fields"@
    }
}

/// The name of the constructor: the one given, else `new`.
pub open spec fn spec_constructor_name(args: StructArgs) -> Seq<char> {
    match args.constructor_name {
        Some(name) => name@,
        None => "new"@,
    }
}

/// Whether serde implementations of the fields struct are generated, for
/// serializing and for deserializing: when the struct persists and either
/// the fields struct is hidden or no function of that direction was given.
pub open spec fn spec_serde_impls(args: StructArgs) -> (bool, bool) {
    match args.persist {
        None => (false, false),
        Some(p) => (
            args.fields_name is None || p.serialize_fn is None,
            args.fields_name is None || p.deserialize_fn is None,
        ),
    }
}

/// The field of the generated fields struct that stores `f`.
pub open spec fn data_field_of(f: SalsaField) -> DataField {
    DataField {
        ty: f.ty,
        no_eq: f.has_no_eq_attr,
        maybe_update: !f.has_no_eq_attr && f.has_maybe_update_attr,
        unsupported_option: false,
    }
}

/// The fields of the generated fields struct, in order.
pub open spec fn data_fields_of(fields: Seq<SalsaField>) -> Seq<DataField> {
    Seq::new(fields.len(), |k: int| data_field_of(fields[k]))
}

/// The positions of the first `n` kept attributes whose path is a single
/// segment.
pub open spec fn single_segment_positions(attrs: Seq<UnknownAttr>, n: int) -> Seq<usize>
    decreases n,
{
    if n <= 0 {
        Seq::empty()
    } else if attrs[n - 1].path_segments == 1 {
        single_segment_positions(attrs, n - 1).push(attrs[n - 1].position)
    } else {
        single_segment_positions(attrs, n - 1)
    }
}

/// What `#[salsa::tracked]` on a struct decides besides the tokens it
/// copies: the fields struct it declares, how its fields split into
/// tracked and other fields, the names it gives, and what it emits.
pub struct TrackedStructPlan {
    /// The names of the fields, in order; the fields struct declares them
    /// under the same names.
    pub field_ids: Vec<String>,
    /// The declared type of each field, in order: the types of the fields
    /// struct.
    pub storage_tys: Vec<String>,
    /// The type of each field's value, in order: a tracked field is read
    /// and set as its `TrackedField`'s type argument.
    pub value_tys: Vec<String>,
    pub data_fields: Vec<DataField>,
    pub tracked_fields: Vec<usize>,
    pub untracked_fields: Vec<usize>,
    pub fields_method: String,
    pub constructor: String,
    pub generate_debug_impl: bool,
    pub generate_methods: bool,
    pub serde_impls: (bool, bool),
}

/// What `#[salsa::interned]` decides besides the tokens it copies.
pub struct InternedPlan {
    pub fields_method: String,
    pub constructor: String,
    pub has_lifetime: bool,
    pub generate_debug_impl: bool,
    pub generate_methods: bool,
    /// Whether the field types are asserted to implement `Update`.
    pub assert_types_are_update: bool,
    pub serde_impls: (bool, bool),
}

impl SalsaStruct {
    /// The name of the constructor: the one given with `constructor = ..`,
    /// else `new`.
    pub fn constructor_name(&self) -> (r: String)
        ensures
            r@ == spec_constructor_name(self.args),
    {
        match &self.args.constructor_name {
            Some(name) => name.clone(),
            None => String::from_str("new"),
        }
    }

    /// Whether the fields struct is hidden from the documentation: when no
    /// `fields = Name` was given.
    pub fn fields_doc_hidden(&self) -> (hidden: bool)
        ensures
            hidden == (self.args.fields_name is None),
    {
        self.args.fields_name.is_none()
    }

    /// The function that serializes the fields when the struct persists:
    /// the one given, else serde's.
    pub fn serialize_fn(&self) -> (r: Option<String>)
        ensures
            match self.args.persist {
                None => r is None,
                Some(p) => r is Some && r->Some_0@ == match p.serialize_fn {
                    Some(f) => f@,
                    None => "serde::Serialize::serialize"@,
                },
            },
    {
        match &self.args.persist {
            None => None,
            Some(p) => match &p.serialize_fn {
                Some(f) => Some(f.clone()),
                None => Some(String::from_str("serde::Serialize::serialize")),
            },
        }
    }

    /// The function that deserializes the fields when the struct persists:
    /// the one given, else serde's.
    pub fn deserialize_fn(&self) -> (r: Option<String>)
        ensures
            match self.args.persist {
                None => r is None,
                Some(p) => r is Some && r->Some_0@ == match p.deserialize_fn {
                    Some(f) => f@,
                    None => "serde::Deserialize::deserialize"@,
                },
            },
    {
        match &self.args.persist {
            None => None,
            Some(p) => match &p.deserialize_fn {
                Some(f) => Some(f.clone()),
                None => Some(String::from_str("serde::Deserialize::deserialize")),
            },
        }
    }

    /// Whether serde implementations of the fields struct are generated,
    /// for serializing and for deserializing.
    pub fn fields_serde_impls(&self) -> (r: (bool, bool))
        ensures
            r == spec_serde_impls(self.args),
    {
        let hidden = self.args.fields_name.is_none();
        match &self.args.persist {
            None => (false, false),
            Some(p) => (hidden || p.serialize_fn.is_none(), hidden || p.deserialize_fn.is_none()),
        }
    }

    /// The declared types of the fields, in order.
    pub fn field_tys(&self) -> (r: Vec<String>)
        ensures
            r@.len() == self.fields@.len(),
            forall|k: int| 0 <= k < r@.len() ==> #[trigger] r@[k]@ == self.fields@[k].ty_text@,
    {
        let n = self.fields.len();
        let mut r: Vec<String> = Vec::new();
        let mut i: usize = 0;
        while i < n
            invariant
                n == self.fields@.len(),
                i <= n,
                r@.len() == i,
                forall|k: int| 0 <= k < i ==> #[trigger] r@[k]@ == self.fields@[k].ty_text@,
            decreases n - i,
        {
            r.push(self.fields[i].ty_text.clone());
            i = i + 1;
        }
        r
    }

    /// The types of the fields' values, in order: a tracked field's value
    /// has its `TrackedField`'s type argument as type.
    pub fn value_tys(&self) -> (r: Vec<String>)
        ensures
            r@.len() == self.fields@.len(),
            forall|k: int| 0 <= k < r@.len() ==> #[trigger] r@[k]@ == value_type(self.fields@[k]),
    {
        let n = self.fields.len();
        let mut r: Vec<String> = Vec::new();
        let mut i: usize = 0;
        while i < n
            invariant
                n == self.fields@.len(),
                i <= n,
                r@.len() == i,
                forall|k: int| 0 <= k < i ==> #[trigger] r@[k]@ == value_type(self.fields@[k]),
            decreases n - i,
        {
            let f = &self.fields[i];
            let t = match &f.wrapped_ty {
                Some(inner) => {
                    if f.ty.is_tracked_field {
                        inner.clone()
                    } else {
                        f.ty_text.clone()
                    }
                },
                None => f.ty_text.clone(),
            };
            r.push(t);
            i = i + 1;
        }
        r
    }

    /// The names of the fields, in order.
    pub fn field_ids(&self) -> (r: Vec<String>)
        ensures
            r@.len() == self.fields@.len(),
            forall|k: int| 0 <= k < r@.len() ==> #[trigger] r@[k]@ == self.fields@[k].name@,
    {
        let n = self.fields.len();
        let mut r: Vec<String> = Vec::new();
        let mut i: usize = 0;
        while i < n
            invariant
                n == self.fields@.len(),
                i <= n,
                r@.len() == i,
                forall|k: int| 0 <= k < i ==> #[trigger] r@[k]@ == self.fields@[k].name@,
            decreases n - i,
        {
            r.push(self.fields[i].name.clone());
            i = i + 1;
        }
        r
    }

    /// The fields of the fields struct that `#[salsa::tracked]` declares, in
    /// order.
    pub fn tracked_data_fields(&self) -> (r: Vec<DataField>)
        ensures
            r@ == data_fields_of(self.fields@),
    {
        let n = self.fields.len();
        let mut r: Vec<DataField> = Vec::new();
        let mut i: usize = 0;
        while i < n
            invariant
                n == self.fields@.len(),
                i <= n,
                r@ == data_fields_of(self.fields@).take(i as int),
            decreases n - i,
        {
            r.push(self.fields[i].data_field());
            i = i + 1;
            assert(r@ == data_fields_of(self.fields@).take(i as int));
        }
        assert(data_fields_of(self.fields@).take(n as int) == data_fields_of(self.fields@));
        r
    }

    /// For each field, the kept attributes that may be copied to its
    /// generated storage field.
    pub fn storage_field_attrs(&self) -> (r: Vec<Vec<usize>>)
        ensures
            r@.len() == self.fields@.len(),
            forall|k: int|
                0 <= k < r@.len() ==> r@[k]@ == single_segment_positions(
                    self.fields@[k].unknown_attrs@,
                    self.fields@[k].unknown_attrs@.len() as int,
                ),
    {
        let n = self.fields.len();
        let mut r: Vec<Vec<usize>> = Vec::new();
        let mut i: usize = 0;
        while i < n
            invariant
                n == self.fields@.len(),
                i <= n,
                r@.len() == i,
                forall|k: int|
                    0 <= k < i ==> r@[k]@ == single_segment_positions(
                        self.fields@[k].unknown_attrs@,
                        self.fields@[k].unknown_attrs@.len() as int,
                    ),
            decreases n - i,
        {
            r.push(self.fields[i].storage_attrs());
            i = i + 1;
        }
        r
    }

    /// What `#[salsa::tracked]` decides for this struct.
    pub fn tracked_struct_plan(&self) -> (plan: TrackedStructPlan)
        ensures
            plan.field_ids@.len() == self.fields@.len(),
            forall|k: int|
                0 <= k < self.fields@.len() ==> #[trigger] plan.field_ids@[k]@ == self.fields@[k].name@,
            plan.storage_tys@.len() == self.fields@.len(),
            plan.value_tys@.len() == self.fields@.len(),
            forall|k: int|
                0 <= k < self.fields@.len() ==> #[trigger] plan.storage_tys@[k]@
                    == self.fields@[k].ty_text@ && plan.value_tys@[k]@ == value_type(
                    self.fields@[k],
                ),
            plan.data_fields@ == data_fields_of(self.fields@),
            plan.tracked_fields@ == group_positions(self.fields@, true, self.fields@.len() as int),
            plan.untracked_fields@ == group_positions(self.fields@, false, self.fields@.len() as int),
            plan.fields_method@ == spec_fields_method_name(self.fields@),
            plan.constructor@ == spec_constructor_name(self.args),
            plan.generate_debug_impl == self.args.debug,
            plan.generate_methods == !self.args.bare,
            plan.serde_impls == spec_serde_impls(self.args),
    {
        TrackedStructPlan {
            field_ids: self.field_ids(),
            storage_tys: self.field_tys(),
            value_tys: self.value_tys(),
            data_fields: self.tracked_data_fields(),
            tracked_fields: self.tracked_fields_iter(),
            untracked_fields: self.untracked_fields_iter(),
            fields_method: self.fields_method_name(),
            constructor: self.constructor_name(),
            generate_debug_impl: self.generate_debug_impl(),
            generate_methods: !self.args.bare,
            serde_impls: self.fields_serde_impls(),
        }
    }

    /// What `#[salsa::interned]` decides for this struct.
    pub fn interned_plan(&self) -> (plan: InternedPlan)
        ensures
            plan.fields_method@ == spec_fields_method_name(self.fields@),
            plan.constructor@ == spec_constructor_name(self.args),
            plan.has_lifetime == !self.args.no_lifetime,
            plan.generate_debug_impl == self.args.debug,
            plan.generate_methods == !self.args.bare,
            plan.assert_types_are_update == !self.args.non_update_types,
            plan.serde_impls == spec_serde_impls(self.args),
    {
        InternedPlan {
            fields_method: self.fields_method_name(),
            constructor: self.constructor_name(),
            has_lifetime: self.generate_lifetime(),
            generate_debug_impl: self.generate_debug_impl(),
            generate_methods: !self.args.bare,
            assert_types_are_update: !self.args.non_update_types,
            serde_impls: self.fields_serde_impls(),
        }
    }
}

/// The positions among the first `n` fields whose tracked membership is
/// `tracked_group`.
pub open spec fn group_positions(fields: Seq<SalsaField>, tracked_group: bool, n: int) -> Seq<usize>
    decreases n,
{
    if n <= 0 {
        Seq::empty()
    } else if fields[n - 1].ty.is_tracked_field == tracked_group {
        group_positions(fields, tracked_group, n - 1).push((n - 1) as usize)
    } else {
        group_positions(fields, tracked_group, n - 1)
    }
}

/// The positions among the first `n` fields that have no `#[default]`.
pub open spec fn required_positions(fields: Seq<SalsaField>, n: int) -> Seq<usize>
    decreases n,
{
    if n <= 0 {
        Seq::empty()
    } else if !fields[n - 1].has_default_attr {
        required_positions(fields, n - 1).push((n - 1) as usize)
    } else {
        required_positions(fields, n - 1)
    }
}

/// Every field is either tracked or not: the tracked and the other
/// positions together are as many as the fields.
pub proof fn lemma_tracked_split_covers_fields(fields: Seq<SalsaField>, n: int)
    requires
        0 <= n <= fields.len(),
    ensures
        group_positions(fields, true, n).len() + group_positions(fields, false, n).len() == n,
    decreases n,
{
    if n > 0 {
        lemma_tracked_split_covers_fields(fields, n - 1);
    }
}


/// A field declared as `TrackedField<T>` is read, set and constructed as
/// `T`; every other field as its declared type.
pub proof fn lemma_value_type_of_declared_field(decl: FieldDecl, f: SalsaField)
    requires
        decl.wf(),
        field_read_from(f, decl),
    ensures
        decl.ty.is_tracked_field ==> value_type(f) == decl.wrapped_ty->Some_0@,
        !decl.ty.is_tracked_field ==> value_type(f) == decl.ty_text@,
{
}

/// The method returning all fields never takes a getter's name: it is
/// `salsa_fields` exactly when some field's getter, whatever its type, is
/// named `fields`, and `fields` otherwise.
pub proof fn lemma_fields_method_avoids_getters(fields: Seq<SalsaField>)
    ensures
        (exists|k: int| 0 <= k < fields.len() && fields[k].get_name@ == "fields"@)
            ==> spec_fields_method_name(fields) == "salsa_fields"@,
        !(exists|k: int| 0 <= k < fields.len() && fields[k].get_name@ == "fields"@)
            ==> spec_fields_method_name(fields) == "fields"@,
        forall|k: int|
            0 <= k < fields.len() ==> #[trigger] fields[k].get_name@ != spec_fields_method_name(
                fields,
            ) || spec_fields_method_name(fields) == "salsa_fields"@,
{
}

// ----------------------------------------------------- generated data laws

proof fn lemma_positions_match_groups(fields: Seq<SalsaField>, group: bool, n: int)
    requires
        0 <= n <= fields.len(),
    ensures
        positions(data_fields_of(fields), group, n as nat) == group_positions(fields, group, n),
    decreases n,
{
    if n > 0 {
        lemma_positions_match_groups(fields, group, n - 1);
    }
}

proof fn lemma_group_positions_in_range(fields: Seq<SalsaField>, group: bool, n: int)
    requires
        0 <= n <= fields.len(),
        n <= usize::MAX,
    ensures
        forall|k: int|
            0 <= k < group_positions(fields, group, n).len() ==> group_positions(
                fields,
                group,
                n,
            )[k] < n,
    decreases n,
{
    if n > 0 {
        lemma_group_positions_in_range(fields, group, n - 1);
        let prev = group_positions(fields, group, n - 1);
        assert forall|k: int|
            0 <= k < group_positions(fields, group, n).len() implies group_positions(
            fields,
            group,
            n,
        )[k] < n by {
            if k < prev.len() {
                assert(prev[k] < n - 1);
            }
        }
    }
}

proof fn lemma_generated_updates_accepted(data: Seq<DataField>, pos: Seq<usize>, n: nat)
    requires
        n <= pos.len(),
        forall|k: int| 0 <= k < pos.len() ==> pos[k] < data.len(),
        forall|j: int|
            0 <= j < data.len() ==> !(#[trigger] data[j]).unsupported_option && !(data[j].no_eq
                && data[j].maybe_update),
    ensures
        updates_verdict(data, pos, n) is Ok,
    decreases n,
{
    if n > 0 {
        lemma_generated_updates_accepted(data, pos, (n - 1) as nat);
        let f = data[pos[n - 1] as int];
        assert(update_verdict(f) is Ok);
    }
}

/// The fields struct that `#[salsa::tracked]` declares for a struct is
/// always accepted by the update rules of the `TrackedData` derive, which
/// splits its fields into tracked and other fields exactly as the struct's
/// own rules do.
pub proof fn lemma_generated_tracked_data_accepted(fields: Seq<SalsaField>)
    requires
        fields.len() <= usize::MAX,
    ensures
        tracked_impl_error(true, data_fields_of(fields)) is None,
        positions(data_fields_of(fields), true, fields.len()) == group_positions(
            fields,
            true,
            fields.len() as int,
        ),
        positions(data_fields_of(fields), false, fields.len()) == group_positions(
            fields,
            false,
            fields.len() as int,
        ),
{
    let data = data_fields_of(fields);
    let n = fields.len() as int;
    lemma_positions_match_groups(fields, true, n);
    lemma_positions_match_groups(fields, false, n);
    lemma_group_positions_in_range(fields, true, n);
    lemma_group_positions_in_range(fields, false, n);
    let tracked_pos = positions(data, true, data.len());
    let untracked = positions(data, false, data.len());
    lemma_generated_updates_accepted(data, tracked_pos, tracked_pos.len());
    lemma_generated_updates_accepted(data, untracked, untracked.len());
}

// ------------------------------------------------------ heap-size attributes

/// An attribute on the struct itself: its path and its tokens as text.
pub struct StructAttr {
    pub path: String,
    pub tokens: String,
}

/// Whether `word` occurs in `text` at position `i`.
pub open spec fn occurs_at(text: Seq<char>, word: Seq<char>, i: int) -> bool {
    0 <= i && i + word.len() <= text.len() && text.subrange(i, i + word.len()) == word
}

/// Whether `word` occurs in `text`.
pub open spec fn mentions(text: Seq<char>, word: Seq<char>) -> bool {
    exists|i: int| #[trigger] occurs_at(text, word, i)
}

/// Whether a struct attribute derives or configures the heap-size
/// accounting: a `cfg_attr` or `derive` attribute that names `get_size2`.
pub open spec fn is_heap_size_attr(attr: StructAttr) -> bool {
    (attr.path@ == "cfg_attr"@ || attr.path@ == "derive"@) && mentions(attr.tokens@, "get_size2"@)
}

/// The positions of the heap-size attributes among the first `n`.
pub open spec fn heap_size_positions(attrs: Seq<StructAttr>, n: int) -> Seq<usize>
    decreases n,
{
    if n <= 0 {
        Seq::empty()
    } else if is_heap_size_attr(attrs[n - 1]) {
        heap_size_positions(attrs, n - 1).push((n - 1) as usize)
    } else {
        heap_size_positions(attrs, n - 1)
    }
}

/// The characters of a string, in order.
fn chars_of(text: &str) -> (chars: Vec<char>)
    ensures
        chars@ == text@,
{
    let len = text.unicode_len();
    let mut chars: Vec<char> = Vec::new();
    let mut k: usize = 0;
    while k < len
        invariant
            len == text@.len(),
            k <= len,
            chars@ == text@.subrange(0, k as int),
        decreases len - k,
    {
        chars.push(text.get_char(k));
        k = k + 1;
    }
    chars
}

/// Whether `word` occurs in `text`.
fn text_mentions(text: &String, word: &str) -> (r: bool)
    ensures
        r == mentions(text@, word@),
{
    let t = chars_of(text.as_str());
    let w = chars_of(word);
    let n = t.len();
    let m = w.len();
    if m > n {
        return false;
    }
    let mut i: usize = 0;
    while i <= n - m
        invariant
            n == t@.len(),
            m == w@.len(),
            t@ == text@,
            w@ == word@,
            m <= n,
            i <= n - m + 1,
            forall|p: int| 0 <= p < i ==> !#[trigger] occurs_at(t@, w@, p),
        decreases n - i,
    {
        let mut j: usize = 0;
        while j < m && t[i + j] == w[j]
            invariant
                n == t@.len(),
                m == w@.len(),
                i + m <= n,
                j <= m,
                forall|q: int| 0 <= q < j ==> t@[i + q] == w@[q],
            decreases m - j,
        {
            j = j + 1;
        }
        if j == m {
            assert(t@.subrange(i as int, i + m) == w@);
            assert(occurs_at(t@, w@, i as int));
            return true;
        }
        assert(t@.subrange(i as int, i + m)[j as int] != w@[j as int]);
        i = i + 1;
    }
    assert forall|p: int| #[trigger] occurs_at(t@, w@, p) implies false by {
        assert(p < i);
    }
    false
}

/// The attributes of a struct that are copied to its fields struct: those
/// that derive or configure the heap-size accounting, by position.
pub fn fields_heap_size_attrs(attrs: &Vec<StructAttr>) -> (r: Vec<usize>)
    ensures
        r@ == heap_size_positions(attrs@, attrs@.len() as int),
{
    let n = attrs.len();
    let mut r: Vec<usize> = Vec::new();
    let mut i: usize = 0;
    while i < n
        invariant
            n == attrs@.len(),
            i <= n,
            r@ == heap_size_positions(attrs@, i as int),
        decreases n - i,
    {
        let a = &attrs[i];
        let named = same_text(&a.path, "cfg_attr") || same_text(&a.path, "derive");
        if named && text_mentions(&a.tokens, "get_size2") {
            r.push(i);
        }
        i = i + 1;
    }
    r
}

} // verus!
