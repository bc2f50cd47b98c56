use crate::immutable_string::ImmutableString;
use vstd::prelude::*;

verus! {

/// Spec-level shape of a [`Dynamic`] value: one case per variant, with string
/// content abstracted to a sequence of characters.
pub enum ValModel {
    Unit,
    Bool(bool),
    Int(int),
    Float(u64),
    Str(Seq<char>),
    ImmutStr(Seq<char>),
}

/// A script-level value: a closed tagged union with exactly one active variant
/// at a time. The variant never changes except through an explicit conversion
/// or replacement.
#[derive(Debug, Clone, PartialEq, Eq)]
pub enum Dynamic {
    /// The unit value, also the placeholder left in a consumed argument slot.
    Unit,
    /// A boolean.
    Bool(bool),
    /// An integer.
    Int(i64),
    /// A floating-point value, carried opaquely as its bit pattern; this core
    /// never interprets it.
    Float(u64),
    /// An exclusively owned, unshared string buffer.
    Str(String),
    /// A shared, read-only string buffer.
    ImmutStr(ImmutableString),
}

impl View for Dynamic {
    type V = ValModel;

    open spec fn view(&self) -> ValModel {
        match self {
            Dynamic::Unit => ValModel::Unit,
            Dynamic::Bool(b) => ValModel::Bool(*b),
            Dynamic::Int(i) => ValModel::Int(*i as int),
            Dynamic::Float(bits) => ValModel::Float(*bits),
            Dynamic::Str(s) => ValModel::Str(s@),
            Dynamic::ImmutStr(s) => ValModel::ImmutStr(s@),
        }
    }
}

/// The diagnostic name of the variant a value holds. Both string variants are
/// one kind of value to a script, so both read as `"string"`.
pub open spec fn variant_name_of(v: ValModel) -> Seq<char> {
    match v {
        ValModel::Unit => "()"@,
        ValModel::Bool(_) => "bool"@,
        ValModel::Int(_) => "int"@,
        ValModel::Float(_) => "float"@,
        ValModel::Str(_) => "string"@,
        ValModel::ImmutStr(_) => "string"@,
    }
}

/// Whether a value holds string content, owned or shared.
pub open spec fn is_string_value(v: ValModel) -> bool {
    v is Str || v is ImmutStr
}

/// The string content of a string-variant value.
pub open spec fn string_content(v: ValModel) -> Seq<char>
    recommends
        is_string_value(v),
{
    match v {
        ValModel::Str(s) => s,
        ValModel::ImmutStr(s) => s,
        _ => Seq::empty(),
    }
}

impl Dynamic {
    /// The static name of the active variant, for diagnostics. Reading the tag
    /// is side-effect-free.
    pub fn variant_name(&self) -> (r: &'static str)
        ensures
            r@ == variant_name_of(self@),
    {
        match self {
            Dynamic::Unit => "()",
            Dynamic::Bool(_) => "bool",
            Dynamic::Int(_) => "int",
            Dynamic::Float(_) => "float",
            Dynamic::Str(_) => "string",
            Dynamic::ImmutStr(_) => "string",
        }
    }

    /// An owned copy with equal content. Copying a shared string bumps its
    /// reference count instead of duplicating the buffer.
    pub fn clone_value(&self) -> (r: Dynamic)
        ensures
            r@ == self@,
    {
        match self {
            Dynamic::Unit => Dynamic::Unit,
            Dynamic::Bool(b) => Dynamic::Bool(*b),
            Dynamic::Int(i) => Dynamic::Int(*i),
            Dynamic::Float(bits) => Dynamic::Float(*bits),
            Dynamic::Str(s) => Dynamic::Str(s.clone()),
            Dynamic::ImmutStr(s) => Dynamic::ImmutStr(s.share()),
        }
    }

    /// Converts the value into an owned `String`, consuming it.
    ///
    /// An owned string is returned as it is, with no copy. A shared string is
    /// moved out without a copy when this value holds the last handle, and its
    /// content is cloned otherwise. Any other variant fails with the name of
    /// the actual variant, and nothing is mutated.
    pub fn into_string(self) -> (r: Result<String, &'static str>)
        ensures
            is_string_value(self@) ==> r is Ok && r->Ok_0@ == string_content(self@),
            self is Str ==> r == Ok::<String, &'static str>(self->Str_0),
            !is_string_value(self@) ==> r is Err && r->Err_0@ == variant_name_of(self@),
    {
        match self {
            Dynamic::Str(s) => Ok(s),
            Dynamic::ImmutStr(s) => Ok(s.into_owned()),
            other => Err(other.variant_name()),
        }
    }

    /// Converts the value into an [`ImmutableString`], consuming it.
    ///
    /// A shared string is returned unchanged (no copy); an owned string is
    /// wrapped into a new shared handle, taking over its buffer. Any other
    /// variant fails with the name of the actual variant.
    pub fn into_immutable_string(self) -> (r: Result<ImmutableString, &'static str>)
        ensures
            is_string_value(self@) ==> r is Ok && r->Ok_0@ == string_content(self@),
            !is_string_value(self@) ==> r is Err && r->Err_0@ == variant_name_of(self@),
    {
        match self {
            Dynamic::Str(s) => Ok(ImmutableString::new(s)),
            Dynamic::ImmutStr(s) => Ok(s),
            other => Err(other.variant_name()),
        }
    }

    /// Deprecated alias of [`Dynamic::into_string`]; it forwards unchanged and
    /// returns exactly what its replacement returns.
    pub fn as_string(self) -> (r: Result<String, &'static str>)
        ensures
            is_string_value(self@) ==> r is Ok && r->Ok_0@ == string_content(self@),
            self is Str ==> r == Ok::<String, &'static str>(self->Str_0),
            !is_string_value(self@) ==> r is Err && r->Err_0@ == variant_name_of(self@),
    {
        self.into_string()
    }

    /// Deprecated alias of [`Dynamic::into_immutable_string`]; it forwards
    /// unchanged and returns exactly what its replacement returns.
    pub fn as_immutable_string(self) -> (r: Result<ImmutableString, &'static str>)
        ensures
            is_string_value(self@) ==> r is Ok && r->Ok_0@ == string_content(self@),
            !is_string_value(self@) ==> r is Err && r->Err_0@ == variant_name_of(self@),
    {
        self.into_immutable_string()
    }
}

} // verus!
