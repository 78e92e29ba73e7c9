//! The rules by which the `Struct` derive accepts a nominal wrapper and
//! decides what to generate for it.
use vstd::prelude::*;

use crate::derive_rules::GenericParamKind;

verus! {

/// The fields of the item the derive is applied to.
pub enum StructItem {
    /// A struct with the given number of positional fields.
    Unnamed(usize),
    /// A struct with named fields.
    Named(Vec<String>),
    /// A unit struct.
    Unit,
    /// An enum or a union.
    NotAStruct,
}

/// How the wrapper reaches the handle it holds.
pub enum ReprAccess {
    /// `self.0`.
    Positional,
    /// `self.<name>`.
    Named(String),
}

/// What the derive reads of the type of the wrapped field.
pub enum ReprType {
    /// A path type: the name of its last segment, if any, and the number of
    /// type arguments in its angle brackets, if it has angle brackets.
    Path { last: Option<String>, type_args: Option<usize> },
    /// Any other type.
    Other,
}

/// The kind of generic handle a wrapper holds.
#[derive(Clone, Copy, PartialEq, Eq, Structural, Debug)]
pub enum ReprKind {
    TrackedHandle,
    InternedHandle,
    InputHandle,
}

/// Which configuration connects the data to its storage.
#[derive(Clone, Copy, PartialEq, Eq, Structural, Debug)]
pub enum ConfigChoice {
    /// The wrapper type itself, as `#[salsa(configuration)]` asks.
    Wrapper,
    /// The generic configuration of the handle's kind.
    Generic(ReprKind),
}

/// The configuration the derive connects the wrapped data to.
#[derive(Clone, Copy, PartialEq, Eq, Structural, Debug)]
pub struct DataConfig {
    pub kind: ReprKind,
    pub config: ConfigChoice,
    /// How many lifetimes of the wrapper become `'static`.
    pub erased_lifetimes: usize,
    /// The position, among the handle's type arguments, of the data type:
    /// the last one.
    pub data_type_arg: usize,
}

/// One entry of a `#[salsa(..)]` attribute on the wrapper.
#[derive(Clone, Copy, PartialEq, Eq, Structural, Debug)]
pub enum StructOption {
    Configuration,
    Debug(bool),
    Other,
}

/// The options the wrapper's attributes select.
#[derive(Clone, Copy, PartialEq, Eq, Structural, Debug)]
pub struct StructOptions {
    pub configuration: bool,
    pub debug: bool,
}

/// What the derive generates for an accepted wrapper.
pub struct StructDerive {
    pub access: ReprAccess,
    pub debug_impl: bool,
    pub data_config: Option<DataConfig>,
}

pub open spec fn msg_not_a_struct() -> Seq<char> {
    "`Struct` can only be derived for a struct with one field"@
}

pub open spec fn msg_one_field() -> Seq<char> {
    "`Struct` requires exactly one field containing a generic Salsa handle"@
}

pub open spec fn msg_requires_data() -> Seq<char> {
    "generic Salsa handle requires data"@
}

pub open spec fn msg_wrapper_parameters() -> Seq<char> {
    "Salsa struct wrappers do not support type or const parameters"@
}

pub open spec fn msg_duplicate_configuration() -> Seq<char> {
    "duplicate `configuration` option"@
}

/// How the wrapper's single field is reached, or the message rejecting it.
pub open spec fn representation_verdict(item: StructItem) -> Result<Option<Seq<char>>, Seq<char>> {
    match item {
        StructItem::NotAStruct => Err(msg_not_a_struct()),
        StructItem::Unnamed(n) => if n == 1 {
            Ok(None)
        } else {
            Err(msg_one_field())
        },
        StructItem::Named(names) => if names@.len() == 1 {
            Ok(Some(names@[0]@))
        } else {
            Err(msg_one_field())
        },
        StructItem::Unit => Err(msg_one_field()),
    }
}

/// Finds the single field holding the handle: positional or named.
pub fn representation(item: &StructItem) -> (r: Result<ReprAccess, String>)
    ensures
        match representation_verdict(*item) {
            Err(m) => r matches Err(e) && e@ == m,
            Ok(None) => r matches Ok(ReprAccess::Positional),
            Ok(Some(name)) => r matches Ok(ReprAccess::Named(n)) && n@ == name,
        },
{
    match item {
        StructItem::NotAStruct => Err(
            String::from_str("`Struct` can only be derived for a struct with one field"),
        ),
        StructItem::Unnamed(n) => {
            if *n == 1 {
                Ok(ReprAccess::Positional)
            } else {
                Err(
                    String::from_str(
                        "`Struct` requires exactly one field containing a generic Salsa handle",
                    ),
                )
            }
        },
        StructItem::Named(names) => {
            if names.len() == 1 {
                Ok(ReprAccess::Named(names[0].clone()))
            } else {
                Err(
                    String::from_str(
                        "`Struct` requires exactly one field containing a generic Salsa handle",
                    ),
                )
            }
        },
        StructItem::Unit => Err(
            String::from_str("`Struct` requires exactly one field containing a generic Salsa handle"),
        ),
    }
}

/// The options selected by the first `n` entries, or the message for a
/// repeated `configuration`.
pub open spec fn options_verdict(entries: Seq<StructOption>, n: nat) -> Result<StructOptions, Seq<char>>
    decreases n,
{
    if n == 0 {
        Ok(StructOptions { configuration: false, debug: false })
    } else {
        match options_verdict(entries, (n - 1) as nat) {
            Err(m) => Err(m),
            Ok(o) => match entries[n - 1] {
                StructOption::Configuration => if o.configuration {
                    Err(msg_duplicate_configuration())
                } else {
                    Ok(StructOptions { configuration: true, debug: o.debug })
                },
                StructOption::Debug(b) => Ok(StructOptions { configuration: o.configuration, debug: b }),
                StructOption::Other => Ok(o),
            },
        }
    }
}

proof fn lemma_options_verdict_stops(entries: Seq<StructOption>, i: nat, n: nat)
    requires
        i <= n,
        options_verdict(entries, i) is Err,
    ensures
        options_verdict(entries, n) == options_verdict(entries, i),
    decreases n - i,
{
    if i < n {
        lemma_options_verdict_stops(entries, i, (n - 1) as nat);
    }
}

/// Reads the wrapper's `#[salsa(..)]` entries in order: `configuration`
/// may be given once, the last `debug = ..` wins, others are ignored.
pub fn options(entries: &Vec<StructOption>) -> (r: Result<StructOptions, String>)
    ensures
        match options_verdict(entries@, entries@.len()) {
            Ok(o) => r == Ok::<StructOptions, String>(o),
            Err(m) => r matches Err(e) && e@ == m,
        },
{
    let n = entries.len();
    let mut current = StructOptions { configuration: false, debug: false };
    let mut i: usize = 0;
    while i < n
        invariant
            n == entries@.len(),
            i <= n,
            options_verdict(entries@, i as nat) == Ok::<StructOptions, Seq<char>>(current),
        decreases n - i,
    {
        match entries[i] {
            StructOption::Configuration => {
                if current.configuration {
                    proof {
                        lemma_options_verdict_stops(entries@, (i + 1) as nat, n as nat);
                    }
                    return Err(String::from_str("duplicate `configuration` option"));
                }
                current = StructOptions { configuration: true, debug: current.debug };
            },
            StructOption::Debug(b) => {
                current = StructOptions { configuration: current.configuration, debug: b };
            },
            StructOption::Other => {},
        }
        i = i + 1;
    }
    Ok(current)
}

/// Whether all generic parameters are lifetimes.
pub open spec fn only_lifetimes(params: Seq<GenericParamKind>) -> bool {
    forall|k: int| 0 <= k < params.len() ==> params[k] == GenericParamKind::Lifetime
}

/// The erased wrapper type replaces each lifetime by `'static`; returns how
/// many there are, or rejects any type or const parameter.
pub fn erased_struct_type(params: &Vec<GenericParamKind>) -> (r: Result<usize, String>)
    ensures
        only_lifetimes(params@) ==> (r matches Ok(n) && n == params@.len()),
        !only_lifetimes(params@) ==> (r matches Err(e) && e@ == msg_wrapper_parameters()),
{
    let n = params.len();
    let mut i: usize = 0;
    while i < n
        invariant
            n == params@.len(),
            i <= n,
            forall|k: int| 0 <= k < i ==> params@[k] == GenericParamKind::Lifetime,
        decreases n - i,
    {
        if params[i] != GenericParamKind::Lifetime {
            return Err(
                String::from_str("Salsa struct wrappers do not support type or const parameters"),
            );
        }
        i = i + 1;
    }
    Ok(n)
}

/// The handle kind named by the last path segment, if it names one.
pub open spec fn kind_named(last: Seq<char>) -> Option<ReprKind> {
    if last == "Tracked"@ {
        Some(ReprKind::TrackedHandle)
    } else if last == "Interned"@ {
        Some(ReprKind::InternedHandle)
    } else if last == "Input"@ {
        Some(ReprKind::InputHandle)
    } else {
        None
    }
}

/// Returns the handle kind named by `last`, if it names one.
fn handle_kind(last: &String) -> (kind: Option<ReprKind>)
    ensures
        kind == kind_named(last@),
{
    let tracked_name = String::from_str("Tracked");
    let interned_name = String::from_str("Interned");
    let input_name = String::from_str("Input");
    if *last == tracked_name {
        Some(ReprKind::TrackedHandle)
    } else if *last == interned_name {
        Some(ReprKind::InternedHandle)
    } else if *last == input_name {
        Some(ReprKind::InputHandle)
    } else {
        None
    }
}

/// The configuration for a wrapped type, or the message rejecting it.
pub open spec fn data_config_verdict(
    repr: ReprType,
    params: Seq<GenericParamKind>,
    uses_wrapper_configuration: bool,
) -> Result<Option<DataConfig>, Seq<char>> {
    match repr {
        ReprType::Other => Ok(None),
        ReprType::Path { last, type_args } => match last {
            None => Ok(None),
            Some(name) => match kind_named(name@) {
                None => Ok(None),
                Some(kind) => match type_args {
                    None => Err(msg_requires_data()),
                    Some(n) => if n == 0 {
                        Err(msg_requires_data())
                    } else if !only_lifetimes(params) {
                        Err(msg_wrapper_parameters())
                    } else {
                        Ok(
                            Some(
                                DataConfig {
                                    kind,
                                    config: if uses_wrapper_configuration {
                                        ConfigChoice::Wrapper
                                    } else {
                                        ConfigChoice::Generic(kind)
                                    },
                                    erased_lifetimes: params.len() as usize,
                                    data_type_arg: (n - 1) as usize,
                                },
                            ),
                        )
                    },
                },
            },
        },
    }
}

/// The configuration connecting the wrapped data to its storage: none when
/// the wrapped type is not a generic handle; a handle must name its data;
/// the configuration is the wrapper's own when it asks for that, and the
/// handle kind's generic one otherwise.
pub fn data_config_impl(
    repr: &ReprType,
    params: &Vec<GenericParamKind>,
    uses_wrapper_configuration: bool,
) -> (r: Result<Option<DataConfig>, String>)
    ensures
        match data_config_verdict(*repr, params@, uses_wrapper_configuration) {
            Ok(c) => r == Ok::<Option<DataConfig>, String>(c),
            Err(m) => r matches Err(e) && e@ == m,
        },
        r matches Ok(Some(c)) ==> c.config == if uses_wrapper_configuration {
            ConfigChoice::Wrapper
        } else {
            ConfigChoice::Generic(c.kind)
        },
{
    let (last, type_args) = match repr {
        ReprType::Path { last, type_args } => (last, type_args),
        ReprType::Other => {
            return Ok(None);
        },
    };
    let name = match last {
        Some(name) => name,
        None => {
            return Ok(None);
        },
    };
    let kind = match handle_kind(name) {
        Some(kind) => kind,
        None => {
            return Ok(None);
        },
    };
    let data_type_arg = match type_args {
        None => {
            return Err(String::from_str("generic Salsa handle requires data"));
        },
        Some(n) => {
            if *n == 0 {
                return Err(String::from_str("generic Salsa handle requires data"));
            }
            *n - 1
        },
    };
    let erased_lifetimes = match erased_struct_type(params) {
        Ok(n) => n,
        Err(e) => {
            return Err(e);
        },
    };
    let config = if uses_wrapper_configuration {
        ConfigChoice::Wrapper
    } else {
        ConfigChoice::Generic(kind)
    };
    Ok(Some(DataConfig { kind, config, erased_lifetimes, data_type_arg }))
}

/// For an accepted generic handle of any kind, the data is connected to
/// the wrapper's own configuration exactly when the wrapper asks for it,
/// and to the generic configuration of the handle's kind otherwise; the
/// kind is the one the handle's name says.
pub proof fn lemma_configuration_follows_the_option(
    repr: ReprType,
    params: Seq<GenericParamKind>,
    uses_wrapper_configuration: bool,
)
    ensures
        data_config_verdict(repr, params, uses_wrapper_configuration) matches Ok(Some(c)) ==> {
            &&& c.config == if uses_wrapper_configuration {
                ConfigChoice::Wrapper
            } else {
                ConfigChoice::Generic(c.kind)
            }
            &&& repr matches ReprType::Path { last: Some(name), .. } && kind_named(name@) == Some(
                c.kind,
            )
        },
{
}

/// Applies the `Struct` derive: find the handle field, read the options,
/// then connect the wrapped data to its configuration; a `Debug`
/// implementation is generated when `debug = true` is asked for.
pub fn derive(
    item: &StructItem,
    repr: &ReprType,
    entries: &Vec<StructOption>,
    params: &Vec<GenericParamKind>,
) -> (r: Result<StructDerive, String>)
    ensures
        match representation_verdict(*item) {
            Err(m) => r matches Err(e) && e@ == m,
            Ok(field) => match options_verdict(entries@, entries@.len()) {
                Err(m) => r matches Err(e) && e@ == m,
                Ok(o) => match data_config_verdict(*repr, params@, o.configuration) {
                    Err(m) => r matches Err(e) && e@ == m,
                    Ok(c) => r matches Ok(d) && d.debug_impl == o.debug && d.data_config == c
                        && match field {
                        None => d.access is Positional,
                        Some(name) => d.access matches ReprAccess::Named(n) && n@ == name,
                    },
                },
            },
        },
{
    let access = match representation(item) {
        Ok(a) => a,
        Err(e) => {
            return Err(e);
        },
    };
    let options = match options(entries) {
        Ok(o) => o,
        Err(e) => {
            return Err(e);
        },
    };
    let data_config = match data_config_impl(repr, params, options.configuration) {
        Ok(c) => c,
        Err(e) => {
            return Err(e);
        },
    };
    Ok(StructDerive { access, debug_impl: options.debug, data_config })
}

} // verus!
