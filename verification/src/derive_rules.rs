//! The rules by which the data derives (`TrackedData`, `InternedData`,
//! `InputData`) and the `Struct` derive accept a declaration and decide
//! what to generate.
//!
//! A declaration is described by what the rules read of it: the shape of
//! the item, of its fields' types, of their options and of its generic
//! parameters. Errors are the messages the derives report.
use vstd::prelude::*;

verus! {

/// The kind of data a derive declares.
#[derive(Clone, Copy, PartialEq, Eq, Structural, Debug)]
pub enum DataKind {
    TrackedStruct,
    Interned,
    Input,
}

/// What the rules read of a field's type.
#[derive(Clone, Copy, PartialEq, Eq, Structural, Debug)]
pub struct FieldType {
    /// The type names `TrackedField` anywhere.
    pub mentions_tracked_field: bool,
    /// The type is `TrackedField<T>` itself, with a type argument.
    pub is_tracked_field: bool,
    /// The type names `InputField` anywhere.
    pub mentions_input_field: bool,
    /// The type is `InputField<T>` itself, with a type argument.
    pub is_input_field: bool,
}

impl FieldType {
    /// Whether the facts agree with each other as they do for any one
    /// type: a type that is a `TrackedField` or an `InputField` names it,
    /// and no type is both.
    pub open spec fn wf(self) -> bool {
        &&& self.is_tracked_field ==> self.mentions_tracked_field
        &&& self.is_input_field ==> self.mentions_input_field
        &&& !(self.is_tracked_field && self.is_input_field)
    }
}

/// What the rules read of a field: its type and its `#[salsa(..)]` options.
#[derive(Clone, Copy, PartialEq, Eq, Structural, Debug)]
pub struct DataField {
    pub ty: FieldType,
    /// `#[salsa(no_eq)]`.
    pub no_eq: bool,
    /// `#[salsa(maybe_update = ..)]`.
    pub maybe_update: bool,
    /// Some other option inside `#[salsa(..)]`.
    pub unsupported_option: bool,
}

/// The shape of the declaration a data derive is applied to.
pub enum DataItem {
    /// A struct, with named fields or not.
    Struct { named: bool, fields: Vec<DataField> },
    /// An enum, with the fields of all its variants.
    Enum { fields: Vec<DataField> },
    Union,
}

/// A generic parameter of a declaration.
#[derive(Clone, Copy, PartialEq, Eq, Structural, Debug)]
pub enum GenericParamKind {
    Lifetime,
    Type,
    Const,
}

/// How a field of tracked data is updated when its query re-executes.
#[derive(Clone, Copy, PartialEq, Eq, Structural, Debug)]
pub enum UpdateStrategy {
    /// `no_eq`: the field always counts as changed.
    AlwaysUpdate,
    /// `maybe_update = ..`: the declared function decides.
    Custom,
    /// The field type's own update.
    Dispatch,
}

/// How the fields of tracked data are split.
pub struct TrackedLayout {
    /// Positions of the direct `TrackedField` members, in order.
    pub tracked_fields: Vec<usize>,
    /// Positions of the other fields, in order.
    pub untracked: Vec<usize>,
    /// The update strategy of each tracked field.
    pub tracked_updates: Vec<UpdateStrategy>,
    /// The update strategy of each other field.
    pub untracked_updates: Vec<UpdateStrategy>,
}

/// What a data derive generates for an accepted declaration.
pub enum DataImpl {
    /// The declaration trait with no tracked fields.
    Simple,
    /// Tracked data with named fields, split as the layout says.
    TrackedFields(TrackedLayout),
}

/// What a data derive generates: the data implementation, how many
/// lifetimes the erased data type fills with `'static`, and the positions of
/// the direct `InputField` members whose jars it registers.
pub struct DerivePlan {
    pub data: DataImpl,
    pub erased_lifetimes: usize,
    pub input_field_jars: Vec<usize>,
}

// ----------------------------------------------------------------- messages

pub open spec fn msg_tracked_not_direct() -> Seq<char> {
    "`TrackedField` must be used directly as a named tracked-data field"@
}

pub open spec fn msg_tracked_in_interned() -> Seq<char> {
    "`TrackedField` cannot be stored in interned data"@
}

pub open spec fn msg_tracked_in_input() -> Seq<char> {
    "`TrackedField` cannot be stored in input data"@
}

pub open spec fn msg_input_not_direct() -> Seq<char> {
    "`InputField` must be used directly as a named input-data field"@
}

pub open spec fn msg_input_in_tracked() -> Seq<char> {
    "`InputField` cannot be stored in tracked data"@
}

pub open spec fn msg_input_in_interned() -> Seq<char> {
    "`InputField` cannot be stored in interned data"@
}

pub open spec fn msg_input_on_enum() -> Seq<char> {
    "`InputData` can only be derived for structs"@
}

pub open spec fn msg_union() -> Seq<char> {
    "Salsa data derives do not support unions"@
}

pub open spec fn msg_type_parameter() -> Seq<char> {
    "Salsa data derives do not support type parameters"@
}

pub open spec fn msg_const_parameter() -> Seq<char> {
    "Salsa data derives do not support const parameters"@
}

pub open spec fn msg_unnamed_tracked() -> Seq<char> {
    "tracked data containing `TrackedField` must use named fields"@
}

pub open spec fn msg_unsupported_option() -> Seq<char> {
    "unsupported `TrackedData` field option"@
}

pub open spec fn msg_no_eq_and_maybe_update() -> Seq<char> {
    "`no_eq` and `maybe_update` cannot be combined"@
}

// ----------------------------------------------------------- field checks

/// The verdict on one field: `None` when it is accepted, or the message.
pub open spec fn field_verdict(kind: DataKind, ty: FieldType, struct_field: bool) -> Option<
    Seq<char>,
> {
    if ty.mentions_tracked_field && !(kind == DataKind::TrackedStruct && struct_field
        && ty.is_tracked_field) {
        Some(
            match kind {
                DataKind::TrackedStruct => msg_tracked_not_direct(),
                DataKind::Interned => msg_tracked_in_interned(),
                DataKind::Input => msg_tracked_in_input(),
            },
        )
    } else if ty.mentions_input_field && !(kind == DataKind::Input && struct_field
        && ty.is_input_field) {
        Some(
            match kind {
                DataKind::Input => msg_input_not_direct(),
                DataKind::TrackedStruct => msg_input_in_tracked(),
                DataKind::Interned => msg_input_in_interned(),
            },
        )
    } else {
        None
    }
}

/// Checks where a field may hold a `TrackedField` or an `InputField`: only
/// directly, in a named struct field, of tracked or input data
/// respectively.
pub fn validate_derived_field(kind: DataKind, ty: FieldType, struct_field: bool) -> (r: Result<
    (),
    String,
>)
    ensures
        match field_verdict(kind, ty, struct_field) {
            None => r is Ok,
            Some(m) => r matches Err(e) && e@ == m,
        },
{
    if ty.mentions_tracked_field {
        match kind {
            DataKind::TrackedStruct => {
                if !(struct_field && ty.is_tracked_field) {
                    return Err(
                        String::from_str(
                            "`TrackedField` must be used directly as a named tracked-data field",
                        ),
                    );
                }
            },
            DataKind::Interned => {
                return Err(String::from_str("`TrackedField` cannot be stored in interned data"));
            },
            DataKind::Input => {
                return Err(String::from_str("`TrackedField` cannot be stored in input data"));
            },
        }
    }
    if ty.mentions_input_field {
        match kind {
            DataKind::Input => {
                if !(struct_field && ty.is_input_field) {
                    return Err(
                        String::from_str(
                            "`InputField` must be used directly as a named input-data field",
                        ),
                    );
                }
            },
            DataKind::TrackedStruct => {
                return Err(String::from_str("`InputField` cannot be stored in tracked data"));
            },
            DataKind::Interned => {
                return Err(String::from_str("`InputField` cannot be stored in interned data"));
            },
        }
    }
    Ok(())
}

/// The verdict on the first `n` fields: the message of the first rejected
/// one, if any.
pub open spec fn fields_verdict(kind: DataKind, fields: Seq<DataField>, struct_field: bool, n: nat) -> Option<
    Seq<char>,
>
    decreases n,
{
    if n == 0 {
        None
    } else {
        match fields_verdict(kind, fields, struct_field, (n - 1) as nat) {
            Some(m) => Some(m),
            None => field_verdict(kind, fields[n - 1].ty, struct_field),
        }
    }
}

/// The verdict on a whole declaration.
pub open spec fn item_verdict(kind: DataKind, item: DataItem) -> Option<Seq<char>> {
    match item {
        DataItem::Struct { fields, .. } => fields_verdict(kind, fields@, true, fields@.len()),
        DataItem::Enum { fields } => fields_verdict(kind, fields@, false, fields@.len()),
        DataItem::Union => None,
    }
}

/// Checks every field of `fields`, in order, and reports the first one
/// that is rejected.
fn validate_fields(kind: DataKind, fields: &Vec<DataField>, struct_field: bool) -> (r: Result<
    (),
    String,
>)
    ensures
        match fields_verdict(kind, fields@, struct_field, fields@.len()) {
            None => r is Ok,
            Some(m) => r matches Err(e) && e@ == m,
        },
{
    let n = fields.len();
    let mut i: usize = 0;
    while i < n
        invariant
            n == fields@.len(),
            i <= n,
            fields_verdict(kind, fields@, struct_field, i as nat) is None,
        decreases n - i,
    {
        match validate_derived_field(kind, fields[i].ty, struct_field) {
            Ok(()) => {},
            Err(e) => {
                proof {
                    lemma_fields_verdict_stops(kind, fields@, struct_field, (i + 1) as nat, n as nat);
                }
                return Err(e);
            },
        }
        i = i + 1;
    }
    Ok(())
}

/// Once a field is rejected, the verdict on longer prefixes stays the same.
proof fn lemma_fields_verdict_stops(
    kind: DataKind,
    fields: Seq<DataField>,
    struct_field: bool,
    i: nat,
    n: nat,
)
    requires
        i <= n,
        fields_verdict(kind, fields, struct_field, i) is Some,
    ensures
        fields_verdict(kind, fields, struct_field, n) == fields_verdict(kind, fields, struct_field, i),
    decreases n - i,
{
    if i < n {
        lemma_fields_verdict_stops(kind, fields, struct_field, i, (n - 1) as nat);
    }
}

/// Checks the fields of a declaration: the fields of a struct as struct
/// fields, those of an enum's variants as variant fields; unions have no
/// fields to check.
pub fn validate_derived_data(kind: DataKind, item: &DataItem) -> (r: Result<(), String>)
    ensures
        match item_verdict(kind, *item) {
            None => r is Ok,
            Some(m) => r matches Err(e) && e@ == m,
        },
{
    match item {
        DataItem::Struct { fields, .. } => validate_fields(kind, fields, true),
        DataItem::Enum { fields } => validate_fields(kind, fields, false),
        DataItem::Union => Ok(()),
    }
}

// --------------------------------------------------------- generic params

/// The verdict on the first `n` generic parameters of a data type: the
/// message for the first type or const parameter, if any.
pub open spec fn params_verdict(params: Seq<GenericParamKind>, n: nat) -> Option<Seq<char>>
    decreases n,
{
    if n == 0 {
        None
    } else {
        match params_verdict(params, (n - 1) as nat) {
            Some(m) => Some(m),
            None => match params[n - 1] {
                GenericParamKind::Lifetime => None,
                GenericParamKind::Type => Some(msg_type_parameter()),
                GenericParamKind::Const => Some(msg_const_parameter()),
            },
        }
    }
}

proof fn lemma_params_verdict_stops(params: Seq<GenericParamKind>, i: nat, n: nat)
    requires
        i <= n,
        params_verdict(params, i) is Some,
    ensures
        params_verdict(params, n) == params_verdict(params, i),
    decreases n - i,
{
    if i < n {
        lemma_params_verdict_stops(params, i, (n - 1) as nat);
    }
}

/// The erased data type replaces each lifetime parameter by `'static`;
/// returns how many there are, or rejects the first type or const
/// parameter.
pub fn erased_data_type(params: &Vec<GenericParamKind>) -> (r: Result<usize, String>)
    ensures
        match params_verdict(params@, params@.len()) {
            None => r matches Ok(n) && n == params@.len(),
            Some(m) => r matches Err(e) && e@ == m,
        },
{
    let n = params.len();
    let mut i: usize = 0;
    while i < n
        invariant
            n == params@.len(),
            i <= n,
            params_verdict(params@, i as nat) is None,
        decreases n - i,
    {
        match params[i] {
            GenericParamKind::Lifetime => {},
            GenericParamKind::Type => {
                proof {
                    lemma_params_verdict_stops(params@, (i + 1) as nat, n as nat);
                }
                return Err(String::from_str("Salsa data derives do not support type parameters"));
            },
            GenericParamKind::Const => {
                proof {
                    lemma_params_verdict_stops(params@, (i + 1) as nat, n as nat);
                }
                return Err(
                    String::from_str("Salsa data derives do not support const parameters"),
                );
            },
        }
        i = i + 1;
    }
    Ok(n)
}

// ------------------------------------------------------------ field update

/// The update strategy of a field, or the message rejecting its options.
pub open spec fn update_verdict(field: DataField) -> Result<UpdateStrategy, Seq<char>> {
    if field.unsupported_option {
        Err(msg_unsupported_option())
    } else if field.no_eq && field.maybe_update {
        Err(msg_no_eq_and_maybe_update())
    } else if field.no_eq {
        Ok(UpdateStrategy::AlwaysUpdate)
    } else if field.maybe_update {
        Ok(UpdateStrategy::Custom)
    } else {
        Ok(UpdateStrategy::Dispatch)
    }
}

/// Decides how a field is updated: `no_eq` always updates, a declared
/// `maybe_update` decides itself, and otherwise the type's own update is
/// used; the two options exclude each other.
pub fn field_update(field: DataField) -> (r: Result<UpdateStrategy, String>)
    ensures
        match update_verdict(field) {
            Ok(s) => r == Ok::<UpdateStrategy, String>(s),
            Err(m) => r matches Err(e) && e@ == m,
        },
{
    if field.unsupported_option {
        return Err(String::from_str("unsupported `TrackedData` field option"));
    }
    if field.no_eq && field.maybe_update {
        return Err(String::from_str("`no_eq` and `maybe_update` cannot be combined"));
    }
    if field.no_eq {
        Ok(UpdateStrategy::AlwaysUpdate)
    } else if field.maybe_update {
        Ok(UpdateStrategy::Custom)
    } else {
        Ok(UpdateStrategy::Dispatch)
    }
}

// ---------------------------------------------------------- tracked layout

/// The positions among the first `n` fields whose membership in the
/// tracked group is `in_tracked_group`.
pub open spec fn positions(fields: Seq<DataField>, in_tracked_group: bool, n: nat) -> Seq<usize>
    decreases n,
{
    if n == 0 {
        Seq::empty()
    } else {
        let rest = positions(fields, in_tracked_group, (n - 1) as nat);
        if fields[n - 1].ty.is_tracked_field == in_tracked_group {
            rest.push((n - 1) as usize)
        } else {
            rest
        }
    }
}

/// The verdict on the update options of the fields at `pos`, in order: the
/// strategies, or the message for the first rejected field.
pub open spec fn updates_verdict(fields: Seq<DataField>, pos: Seq<usize>, n: nat) -> Result<
    Seq<UpdateStrategy>,
    Seq<char>,
>
    decreases n,
{
    if n == 0 {
        Ok(Seq::empty())
    } else {
        match updates_verdict(fields, pos, (n - 1) as nat) {
            Err(m) => Err(m),
            Ok(s) => match update_verdict(fields[pos[n - 1] as int]) {
                Err(m) => Err(m),
                Ok(u) => Ok(s.push(u)),
            },
        }
    }
}

proof fn lemma_updates_verdict_stops(fields: Seq<DataField>, pos: Seq<usize>, i: nat, n: nat)
    requires
        i <= n,
        updates_verdict(fields, pos, i) is Err,
    ensures
        updates_verdict(fields, pos, n) == updates_verdict(fields, pos, i),
    decreases n - i,
{
    if i < n {
        lemma_updates_verdict_stops(fields, pos, i, (n - 1) as nat);
    }
}

/// The positions of the fields whose tracked membership is `in_tracked_group`.
fn field_positions(fields: &Vec<DataField>, in_tracked_group: bool) -> (pos: Vec<usize>)
    ensures
        pos@ == positions(fields@, in_tracked_group, fields@.len()),
        forall|k: int| 0 <= k < pos@.len() ==> pos@[k] < fields@.len(),
{
    let n = fields.len();
    let mut pos: Vec<usize> = Vec::new();
    let mut i: usize = 0;
    while i < n
        invariant
            n == fields@.len(),
            i <= n,
            pos@ == positions(fields@, in_tracked_group, i as nat),
            forall|k: int| 0 <= k < pos@.len() ==> pos@[k] < i,
        decreases n - i,
    {
        if fields[i].ty.is_tracked_field == in_tracked_group {
            pos.push(i);
        }
        i = i + 1;
    }
    pos
}

/// The update strategies of the fields at `pos`, in order.
fn field_updates(fields: &Vec<DataField>, pos: &Vec<usize>) -> (r: Result<Vec<UpdateStrategy>, String>)
    requires
        forall|k: int| 0 <= k < pos@.len() ==> pos@[k] < fields@.len(),
    ensures
        match updates_verdict(fields@, pos@, pos@.len()) {
            Ok(s) => r matches Ok(v) && v@ == s,
            Err(m) => r matches Err(e) && e@ == m,
        },
{
    let n = pos.len();
    let mut out: Vec<UpdateStrategy> = Vec::new();
    let mut i: usize = 0;
    while i < n
        invariant
            n == pos@.len(),
            i <= n,
            forall|k: int| 0 <= k < pos@.len() ==> pos@[k] < fields@.len(),
            updates_verdict(fields@, pos@, i as nat) == Ok::<Seq<UpdateStrategy>, Seq<char>>(out@),
        decreases n - i,
    {
        match field_update(fields[pos[i]]) {
            Ok(u) => {
                out.push(u);
            },
            Err(e) => {
                proof {
                    lemma_updates_verdict_stops(fields@, pos@, (i + 1) as nat, n as nat);
                }
                return Err(e);
            },
        }
        i = i + 1;
    }
    Ok(out)
}

/// Whether some field is a direct `TrackedField`.
pub open spec fn has_tracked_field(fields: Seq<DataField>) -> bool {
    exists|k: int| 0 <= k < fields.len() && fields[k].ty.is_tracked_field
}

/// The message rejecting the fields of tracked data, if any.
pub open spec fn tracked_impl_error(named: bool, fields: Seq<DataField>) -> Option<Seq<char>> {
    if !named {
        if has_tracked_field(fields) {
            Some(msg_unnamed_tracked())
        } else {
            None
        }
    } else {
        let tracked_pos = positions(fields, true, fields.len());
        let untracked = positions(fields, false, fields.len());
        match updates_verdict(fields, tracked_pos, tracked_pos.len()) {
            Err(m) => Some(m),
            Ok(_) => match updates_verdict(fields, untracked, untracked.len()) {
                Err(m) => Some(m),
                Ok(_) => None,
            },
        }
    }
}

/// Whether `d` is the data implementation for accepted tracked data.
pub open spec fn tracked_impl_is(named: bool, fields: Seq<DataField>, d: DataImpl) -> bool {
    if !named {
        d is Simple
    } else {
        let tracked_pos = positions(fields, true, fields.len());
        let untracked = positions(fields, false, fields.len());
        &&& d matches DataImpl::TrackedFields(layout)
        &&& layout.tracked_fields@ == tracked_pos
        &&& layout.untracked@ == untracked
        &&& updates_verdict(fields, tracked_pos, tracked_pos.len()) == Ok::<Seq<UpdateStrategy>, Seq<char>>(
            layout.tracked_updates@,
        )
        &&& updates_verdict(fields, untracked, untracked.len()) == Ok::<
            Seq<UpdateStrategy>,
            Seq<char>,
        >(layout.untracked_updates@)
    }
}

/// The data implementation for tracked data: unnamed fields may not hold a
/// `TrackedField`; named fields are split into tracked and other fields,
/// and each field's update strategy is decided, tracked fields first.
pub fn tracked_data_impl(named: bool, fields: &Vec<DataField>) -> (r: Result<DataImpl, String>)
    ensures
        match tracked_impl_error(named, fields@) {
            Some(m) => r matches Err(e) && e@ == m,
            None => r matches Ok(d) && tracked_impl_is(named, fields@, d),
        },
{
    if !named {
        let n = fields.len();
        let mut i: usize = 0;
        while i < n
            invariant
                n == fields@.len(),
                i <= n,
                !named,
                forall|k: int| 0 <= k < i ==> !fields@[k].ty.is_tracked_field,
            decreases n - i,
        {
            if fields[i].ty.is_tracked_field {
                assert(fields@[i as int].ty.is_tracked_field);
                return Err(
                    String::from_str("tracked data containing `TrackedField` must use named fields"),
                );
            }
            i = i + 1;
        }
        return Ok(DataImpl::Simple);
    }
    let tracked_pos = field_positions(fields, true);
    let untracked = field_positions(fields, false);
    let tracked_updates = match field_updates(fields, &tracked_pos) {
        Ok(u) => u,
        Err(e) => {
            return Err(e);
        },
    };
    let untracked_updates = match field_updates(fields, &untracked) {
        Ok(u) => u,
        Err(e) => {
            return Err(e);
        },
    };
    Ok(DataImpl::TrackedFields(TrackedLayout { tracked_fields: tracked_pos, untracked, tracked_updates, untracked_updates }))
}

// ------------------------------------------------------------------ derive

/// The positions of the direct `InputField` members among the first `n`
/// fields.
pub open spec fn input_positions(fields: Seq<DataField>, n: nat) -> Seq<usize>
    decreases n,
{
    if n == 0 {
        Seq::empty()
    } else {
        let rest = input_positions(fields, (n - 1) as nat);
        if fields[n - 1].ty.is_input_field {
            rest.push((n - 1) as usize)
        } else {
            rest
        }
    }
}

/// The `InputField` jars a struct registers: one per direct member.
pub fn input_field_jars(fields: &Vec<DataField>) -> (jars: Vec<usize>)
    ensures
        jars@ == input_positions(fields@, fields@.len()),
{
    let n = fields.len();
    let mut jars: Vec<usize> = Vec::new();
    let mut i: usize = 0;
    while i < n
        invariant
            n == fields@.len(),
            i <= n,
            jars@ == input_positions(fields@, i as nat),
        decreases n - i,
    {
        if fields[i].ty.is_input_field {
            jars.push(i);
        }
        i = i + 1;
    }
    jars
}

/// Applies a data derive of `kind` to a declaration with generic
/// parameters `params`: first every field is checked, then the generic
/// parameters, then the shape of the item; structs get their data
/// implementation and input-field jars, enums a plain implementation
/// (never as input data), and unions are rejected.
pub fn derive(kind: DataKind, item: &DataItem, params: &Vec<GenericParamKind>) -> (r: Result<
    DerivePlan,
    String,
>)
    ensures
        item_verdict(kind, *item) matches Some(m) ==> r matches Err(e) && e@ == m,
        item_verdict(kind, *item) is None ==> (params_verdict(params@, params@.len()) matches Some(
            m,
        ) ==> r matches Err(e) && e@ == m),
        item_verdict(kind, *item) is None && params_verdict(params@, params@.len()) is None ==> {
            match *item {
                DataItem::Union => r matches Err(e) && e@ == msg_union(),
                DataItem::Enum { .. } => if kind == DataKind::Input {
                    r matches Err(e) && e@ == msg_input_on_enum()
                } else {
                    r matches Ok(p) && p.data is Simple && p.erased_lifetimes == params@.len()
                        && p.input_field_jars@.len() == 0
                },
                DataItem::Struct { named, fields } => if kind == DataKind::TrackedStruct {
                    match tracked_impl_error(named, fields@) {
                        Some(m) => r matches Err(e) && e@ == m,
                        None => r matches Ok(p) && tracked_impl_is(named, fields@, p.data)
                            && p.erased_lifetimes == params@.len() && p.input_field_jars@
                            == input_positions(fields@, fields@.len()),
                    }
                } else {
                    r matches Ok(p) && p.data is Simple && p.erased_lifetimes == params@.len()
                        && p.input_field_jars@ == input_positions(fields@, fields@.len())
                },
            }
        },
{
    match validate_derived_data(kind, item) {
        Ok(()) => {},
        Err(e) => {
            return Err(e);
        },
    }
    let erased_lifetimes = match erased_data_type(params) {
        Ok(n) => n,
        Err(e) => {
            return Err(e);
        },
    };
    match item {
        DataItem::Struct { named, fields } => {
            let data = match kind {
                DataKind::TrackedStruct => match tracked_data_impl(*named, fields) {
                    Ok(d) => d,
                    Err(e) => {
                        return Err(e);
                    },
                },
                DataKind::Interned | DataKind::Input => DataImpl::Simple,
            };
            Ok(DerivePlan { data, erased_lifetimes, input_field_jars: input_field_jars(fields) })
        },
        DataItem::Enum { .. } => {
            if kind == DataKind::Input {
                Err(String::from_str("`InputData` can only be derived for structs"))
            } else {
                Ok(DerivePlan { data: DataImpl::Simple, erased_lifetimes, input_field_jars: Vec::new() })
            }
        },
        DataItem::Union => Err(String::from_str("Salsa data derives do not support unions")),
    }
}

} // verus!
