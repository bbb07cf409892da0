//! The types of the language, what may be assigned to what, and how a type
//! is written in C.

use vstd::prelude::*;
use vstd::string::StringExecFns;
use crate::error::{CompilerError, CompilerErrorView, ErrorKind, diagnostic};
use crate::text::{decimal, push_decimal, copy_str};

pub mod type_info;

verus! {

#[derive(Debug, PartialEq, Eq)]
pub enum TolType {
    // Signed integers
    I8,
    I16,
    I32,
    I64,
    ISukat,
    // Unsigned integers
    U8,
    U16,
    U32,
    U64,
    USukat,
    // Floating-points
    Lutang,
    DobleTang,
    // The types of number literals before a width is chosen
    UnsizedInt,
    UnsizedFloat,
    // Others
    Bool,
    Kar,
    Wala,
    // Composite
    Bagay(String),
    UnknownIdentifier(String),
    Array(Box<TolType>, Option<usize>),
    Pointer(Box<TolType>),
    MutablePointer(Box<TolType>),
    // Special
    AkoType,
    Unknown,
}

/// A type as plain mathematical data.
pub enum TolTypeView {
    I8,
    I16,
    I32,
    I64,
    ISukat,
    U8,
    U16,
    U32,
    U64,
    USukat,
    Lutang,
    DobleTang,
    UnsizedInt,
    UnsizedFloat,
    Bool,
    Kar,
    Wala,
    Bagay(Seq<char>),
    UnknownIdentifier(Seq<char>),
    Array(Box<TolTypeView>, Option<usize>),
    Pointer(Box<TolTypeView>),
    MutablePointer(Box<TolTypeView>),
    AkoType,
    Unknown,
}

pub open spec fn type_view(t: TolType) -> TolTypeView
    decreases t,
{
    match t {
        TolType::I8 => TolTypeView::I8,
        TolType::I16 => TolTypeView::I16,
        TolType::I32 => TolTypeView::I32,
        TolType::I64 => TolTypeView::I64,
        TolType::ISukat => TolTypeView::ISukat,
        TolType::U8 => TolTypeView::U8,
        TolType::U16 => TolTypeView::U16,
        TolType::U32 => TolTypeView::U32,
        TolType::U64 => TolTypeView::U64,
        TolType::USukat => TolTypeView::USukat,
        TolType::Lutang => TolTypeView::Lutang,
        TolType::DobleTang => TolTypeView::DobleTang,
        TolType::UnsizedInt => TolTypeView::UnsizedInt,
        TolType::UnsizedFloat => TolTypeView::UnsizedFloat,
        TolType::Bool => TolTypeView::Bool,
        TolType::Kar => TolTypeView::Kar,
        TolType::Wala => TolTypeView::Wala,
        TolType::Bagay(name) => TolTypeView::Bagay(name@),
        TolType::UnknownIdentifier(name) => TolTypeView::UnknownIdentifier(name@),
        TolType::Array(inner, len) => TolTypeView::Array(Box::new(type_view(*inner)), len),
        TolType::Pointer(inner) => TolTypeView::Pointer(Box::new(type_view(*inner))),
        TolType::MutablePointer(inner) => TolTypeView::MutablePointer(
            Box::new(type_view(*inner)),
        ),
        TolType::AkoType => TolTypeView::AkoType,
        TolType::Unknown => TolTypeView::Unknown,
    }
}

impl View for TolType {
    type V = TolTypeView;

    open spec fn view(&self) -> TolTypeView {
        type_view(*self)
    }
}

/// The views of a sequence of types, in order.
pub open spec fn types_view(v: Seq<TolType>) -> Seq<TolTypeView> {
    v.map_values(|t: TolType| t@)
}

pub proof fn lemma_types_view_push(v: Seq<TolType>, t: TolType)
    ensures
        types_view(v.push(t)) == types_view(v).push(t@),
{
    assert(types_view(v.push(t)) =~= types_view(v).push(t@));
}

impl TolTypeView {
    /// An integer type of any width, or the type of an integer literal.
    pub open spec fn is_integer(self) -> bool {
        self is I8 || self is I16 || self is I32 || self is I64 || self is ISukat || self is U8
            || self is U16 || self is U32 || self is U64 || self is USukat || self is UnsizedInt
    }

    /// A floating-point type, or the type of a floating-point literal.
    pub open spec fn is_float(self) -> bool {
        self is Lutang || self is DobleTang || self is UnsizedFloat
    }

    /// Whether `+ - * /` may join a value of this type and one of `other`:
    /// both are integers, or both are floats.
    pub open spec fn arithmetic_compatible(self, other: TolTypeView) -> bool {
        (self.is_integer() && other.is_integer()) || (self.is_float() && other.is_float())
    }

    /// Whether the lengths of two array types allow the assignment: `value_len`
    /// is that of the value, `target_len` that of the place.
    pub open spec fn lengths_fit(value_len: Option<usize>, target_len: Option<usize>) -> bool {
        match (target_len, value_len) {
            (None, None) => true,
            (Some(t), Some(v)) => v <= t,
            (None, Some(v)) => v != 0,
            (Some(_), None) => false,
        }
    }

    /// Whether a value of this type may be assigned to a place of type
    /// `target`.
    pub open spec fn assignable_to(self, target: TolTypeView) -> bool
        decreases self,
    {
        if self == target {
            true
        } else {
            match (self, target) {
                (TolTypeView::UnsizedInt, t) => t.is_integer(),
                (TolTypeView::UnsizedFloat, t) => t.is_float(),
                (TolTypeView::Bagay(a), TolTypeView::UnknownIdentifier(b)) => a == b,
                (TolTypeView::UnknownIdentifier(a), TolTypeView::Bagay(b)) => a == b,
                (TolTypeView::Array(e1, value_len), TolTypeView::Array(e2, target_len)) => {
                    e1.assignable_to(*e2) && Self::lengths_fit(value_len, target_len)
                },
                _ => false,
            }
        }
    }

    /// How the type is written in messages.
    pub open spec fn text(self) -> Seq<char>
        decreases self,
    {
        match self {
            TolTypeView::I8 => "i8"@,
            TolTypeView::I16 => "i16"@,
            TolTypeView::I32 => "i32"@,
            TolTypeView::I64 => "i64"@,
            TolTypeView::ISukat => "isukat"@,
            TolTypeView::U8 => "u8"@,
            TolTypeView::U16 => "u16"@,
            TolTypeView::U32 => "u32"@,
            TolTypeView::U64 => "u64"@,
            TolTypeView::USukat => "usukat"@,
            TolTypeView::Lutang => "lutang"@,
            TolTypeView::DobleTang => "dobletang"@,
            TolTypeView::Bool => "bool"@,
            TolTypeView::Kar => "kar"@,
            TolTypeView::Wala => "wala"@,
            TolTypeView::UnsizedInt => "literal na integer"@,
            TolTypeView::UnsizedFloat => "literal na lutang"@,
            TolTypeView::Bagay(s) => s,
            TolTypeView::UnknownIdentifier(s) => s,
            TolTypeView::Array(t, _) => "["@ + t.text() + "]"@,
            _ => "<hindi_tipo>"@,
        }
    }

    /// The name of the type in C, where it has one.
    pub open spec fn c_name(self) -> Option<Seq<char>>
        decreases self,
    {
        match self {
            TolTypeView::I8 => Some("int8_t"@),
            TolTypeView::I16 => Some("int16_t"@),
            TolTypeView::I32 => Some("int32_t"@),
            TolTypeView::I64 => Some("int64_t"@),
            TolTypeView::ISukat => Some("ptrdiff_t"@),
            TolTypeView::U8 => Some("uint8_t"@),
            TolTypeView::U16 => Some("uint16_t"@),
            TolTypeView::U32 => Some("uint32_t"@),
            TolTypeView::U64 => Some("uint64_t"@),
            TolTypeView::USukat => Some("size_t"@),
            TolTypeView::Lutang => Some("float"@),
            TolTypeView::DobleTang => Some("double"@),
            TolTypeView::Bool => Some("bool"@),
            TolTypeView::Kar => Some("char"@),
            TolTypeView::Wala => Some("void"@),
            TolTypeView::Bagay(s) => Some(s),
            TolTypeView::UnknownIdentifier(s) => Some(s),
            TolTypeView::Array(inner, _) => match inner.c_name() {
                Some(name) => Some("TOL_Array_"@ + name),
                None => None,
            },
            _ => None,
        }
    }

    /// The array brackets of the type, outermost first: `[3][]` for an array
    /// of three arrays of unknown length.
    pub open spec fn array_suffix(self) -> Seq<char>
        decreases self,
    {
        match self {
            TolTypeView::Array(inner, Some(len)) => "["@ + decimal(len as nat) + "]"@
                + inner.array_suffix(),
            TolTypeView::Array(inner, None) => "[]"@ + inner.array_suffix(),
            _ => Seq::empty(),
        }
    }

    /// The diagnostic for a value of this type that cannot be assigned to a
    /// place of type `target`. It is the one of the innermost array elements
    /// that do not fit, where there is one.
    pub open spec fn mismatch(self, target: TolTypeView, line: usize, column: usize)
        -> CompilerErrorView
        decreases self,
    {
        match (self, target) {
            (TolTypeView::Array(e1, value_len), TolTypeView::Array(e2, target_len)) => {
                if self != target && !e1.assignable_to(*e2) {
                    e1.mismatch(*e2, line, column)
                } else {
                    match (target_len, value_len) {
                        (Some(t), Some(v)) if t < v => diagnostic(
                            "Mas maliit ang sukat na ibinigay sa tipo ("@ + decimal(t as nat)
                                + ") kumpara sa expresyon ("@ + decimal(v as nat) + ")"@,
                            ErrorKind::Error,
                            line,
                            column,
                        ),
                        (None, Some(v)) if v == 0 => diagnostic(
                            "Hindi pwede ang walang laman na array kung walang ibinigay na sukat sa tipo"@,
                            ErrorKind::Error,
                            line,
                            column,
                        ),
                        _ => self.plain_mismatch(target, line, column),
                    }
                }
            },
            _ => self.plain_mismatch(target, line, column),
        }
    }

    /// The diagnostic that names both types.
    pub open spec fn plain_mismatch(self, target: TolTypeView, line: usize, column: usize)
        -> CompilerErrorView {
        diagnostic(
            "Ang tipong `"@ + self.text() + "` ay hindi bagay sa tipong `"@ + target.text()
                + "`"@,
            ErrorKind::Error,
            line,
            column,
        )
    }
}

impl Clone for TolType {
    fn clone(&self) -> (t: Self)
        ensures
            t@ == self@,
        decreases self,
    {
        match self {
            TolType::I8 => TolType::I8,
            TolType::I16 => TolType::I16,
            TolType::I32 => TolType::I32,
            TolType::I64 => TolType::I64,
            TolType::ISukat => TolType::ISukat,
            TolType::U8 => TolType::U8,
            TolType::U16 => TolType::U16,
            TolType::U32 => TolType::U32,
            TolType::U64 => TolType::U64,
            TolType::USukat => TolType::USukat,
            TolType::Lutang => TolType::Lutang,
            TolType::DobleTang => TolType::DobleTang,
            TolType::UnsizedInt => TolType::UnsizedInt,
            TolType::UnsizedFloat => TolType::UnsizedFloat,
            TolType::Bool => TolType::Bool,
            TolType::Kar => TolType::Kar,
            TolType::Wala => TolType::Wala,
            TolType::Bagay(name) => TolType::Bagay(name.clone()),
            TolType::UnknownIdentifier(name) => TolType::UnknownIdentifier(name.clone()),
            TolType::Array(inner, len) => {
                let copy = (**inner).clone();
                TolType::Array(Box::new(copy), *len)
            },
            TolType::Pointer(inner) => {
                let copy = (**inner).clone();
                TolType::Pointer(Box::new(copy))
            },
            TolType::MutablePointer(inner) => {
                let copy = (**inner).clone();
                TolType::MutablePointer(Box::new(copy))
            },
            TolType::AkoType => TolType::AkoType,
            TolType::Unknown => TolType::Unknown,
        }
    }
}

impl TolType {
    /// Whether both are the same type.
    pub fn same_as(&self, other: &TolType) -> (b: bool)
        ensures
            b == (self@ == other@),
        decreases self,
    {
        match self {
            TolType::I8 => matches!(other, TolType::I8),
            TolType::I16 => matches!(other, TolType::I16),
            TolType::I32 => matches!(other, TolType::I32),
            TolType::I64 => matches!(other, TolType::I64),
            TolType::ISukat => matches!(other, TolType::ISukat),
            TolType::U8 => matches!(other, TolType::U8),
            TolType::U16 => matches!(other, TolType::U16),
            TolType::U32 => matches!(other, TolType::U32),
            TolType::U64 => matches!(other, TolType::U64),
            TolType::USukat => matches!(other, TolType::USukat),
            TolType::Lutang => matches!(other, TolType::Lutang),
            TolType::DobleTang => matches!(other, TolType::DobleTang),
            TolType::UnsizedInt => matches!(other, TolType::UnsizedInt),
            TolType::UnsizedFloat => matches!(other, TolType::UnsizedFloat),
            TolType::Bool => matches!(other, TolType::Bool),
            TolType::Kar => matches!(other, TolType::Kar),
            TolType::Wala => matches!(other, TolType::Wala),
            TolType::Bagay(a) => match other {
                TolType::Bagay(b) => *a == *b,
                _ => false,
            },
            TolType::UnknownIdentifier(a) => match other {
                TolType::UnknownIdentifier(b) => *a == *b,
                _ => false,
            },
            TolType::Array(a, la) => match other {
                TolType::Array(b, lb) => {
                    let same_len = match (la, lb) {
                        (Some(x), Some(y)) => *x == *y,
                        (None, None) => true,
                        _ => false,
                    };
                    same_len && a.same_as(b)
                },
                _ => false,
            },
            TolType::Pointer(a) => match other {
                TolType::Pointer(b) => a.same_as(b),
                _ => false,
            },
            TolType::MutablePointer(a) => match other {
                TolType::MutablePointer(b) => a.same_as(b),
                _ => false,
            },
            TolType::AkoType => matches!(other, TolType::AkoType),
            TolType::Unknown => matches!(other, TolType::Unknown),
        }
    }

    pub fn is_integer(&self) -> (b: bool)
        ensures
            b == self@.is_integer(),
    {
        matches!(
            self,
            TolType::I8 | TolType::I16 | TolType::I32 | TolType::I64 | TolType::ISukat
                | TolType::U8 | TolType::U16 | TolType::U32 | TolType::U64 | TolType::USukat
                | TolType::UnsizedInt
        )
    }

    pub fn is_float(&self) -> (b: bool)
        ensures
            b == self@.is_float(),
    {
        matches!(self, TolType::Lutang | TolType::DobleTang | TolType::UnsizedFloat)
    }

    pub fn is_arithmetic_compatible(&self, other: &Self) -> (b: bool)
        ensures
            b == self@.arithmetic_compatible(other@),
    {
        (self.is_integer() && other.is_integer()) || (self.is_float() && other.is_float())
    }

    /// Whether a value of this type may be assigned to a place of type `other`.
    pub fn fits(&self, other: &Self) -> (b: bool)
        ensures
            b == self@.assignable_to(other@),
        decreases self,
    {
        if self.same_as(other) {
            return true;
        }
        match self {
            TolType::UnsizedInt => other.is_integer(),
            TolType::UnsizedFloat => other.is_float(),
            TolType::Bagay(a) => match other {
                TolType::UnknownIdentifier(b) => *a == *b,
                _ => false,
            },
            TolType::UnknownIdentifier(a) => match other {
                TolType::Bagay(b) => *a == *b,
                _ => false,
            },
            TolType::Array(e1, value_len) => match other {
                TolType::Array(e2, target_len) => {
                    let lengths = match (target_len, value_len) {
                        (None, None) => true,
                        (Some(t), Some(v)) => *v <= *t,
                        (None, Some(v)) => *v != 0,
                        (Some(_), None) => false,
                    };
                    e1.fits(e2) && lengths
                },
                _ => false,
            },
            _ => false,
        }
    }

    /// The diagnostic that names both types.
    fn plain_mismatch(&self, other: &Self, line: usize, column: usize) -> (e: CompilerError)
        ensures
            e@ == self@.plain_mismatch(other@, line, column),
    {
        let mut msg = String::new();
        msg.append("Ang tipong `");
        self.push_text(&mut msg);
        msg.append("` ay hindi bagay sa tipong `");
        other.push_text(&mut msg);
        msg.append("`");
        CompilerError::new(msg.as_str(), ErrorKind::Error, line, column)
    }

    /// The diagnostic for a value of this type that does not fit `other`.
    fn mismatch(&self, other: &Self, line: usize, column: usize) -> (e: CompilerError)
        ensures
            e@ == self@.mismatch(other@, line, column),
        decreases self,
    {
        match self {
            TolType::Array(e1, value_len) => match other {
                TolType::Array(e2, target_len) => {
                    if !self.same_as(other) && !e1.fits(e2) {
                        e1.mismatch(e2, line, column)
                    } else {
                        match (target_len, value_len) {
                            (Some(t), Some(v)) if *t < *v => {
                                let mut msg = String::new();
                                msg.append("Mas maliit ang sukat na ibinigay sa tipo (");
                                push_decimal(&mut msg, *t);
                                msg.append(") kumpara sa expresyon (");
                                push_decimal(&mut msg, *v);
                                msg.append(")");
                                CompilerError::new(msg.as_str(), ErrorKind::Error, line, column)
                            },
                            (None, Some(v)) if *v == 0 => CompilerError::new(
                                "Hindi pwede ang walang laman na array kung walang ibinigay na sukat sa tipo",
                                ErrorKind::Error,
                                line,
                                column,
                            ),
                            _ => self.plain_mismatch(other, line, column),
                        }
                    }
                },
                _ => self.plain_mismatch(other, line, column),
            },
            _ => self.plain_mismatch(other, line, column),
        }
    }

    /// Accepts the assignment of a value of this type to a place of type
    /// `other`, or says why it cannot be.
    pub fn is_assignment_compatible(&self, other: &Self, line: usize, column: usize) -> (r:
        Result<(), CompilerError>)
        ensures
            r is Ok <==> self@.assignable_to(other@),
            r matches Err(e) ==> e@ == self@.mismatch(other@, line, column),
    {
        if self.fits(other) {
            Ok(())
        } else {
            Err(self.mismatch(other, line, column))
        }
    }

    /// Appends the name of the type as messages show it.
    pub fn push_text(&self, out: &mut String)
        ensures
            final(out)@ == old(out)@ + self@.text(),
        decreases self,
    {
        match self {
            TolType::I8 => out.append("i8"),
            TolType::I16 => out.append("i16"),
            TolType::I32 => out.append("i32"),
            TolType::I64 => out.append("i64"),
            TolType::ISukat => out.append("isukat"),
            TolType::U8 => out.append("u8"),
            TolType::U16 => out.append("u16"),
            TolType::U32 => out.append("u32"),
            TolType::U64 => out.append("u64"),
            TolType::USukat => out.append("usukat"),
            TolType::Lutang => out.append("lutang"),
            TolType::DobleTang => out.append("dobletang"),
            TolType::Bool => out.append("bool"),
            TolType::Kar => out.append("kar"),
            TolType::Wala => out.append("wala"),
            TolType::UnsizedInt => out.append("literal na integer"),
            TolType::UnsizedFloat => out.append("literal na lutang"),
            TolType::Bagay(s) => out.append(s.as_str()),
            TolType::UnknownIdentifier(s) => out.append(s.as_str()),
            TolType::Array(t, _) => {
                out.append("[");
                t.push_text(out);
                out.append("]");
                assert(final(out)@ =~= old(out)@ + self@.text());
            },
            _ => out.append("<hindi_tipo>"),
        }
    }

    /// The name of the type as messages show it.
    pub fn to_text(&self) -> (s: String)
        ensures
            s@ == self@.text(),
    {
        let mut s = String::new();
        self.push_text(&mut s);
        assert(Seq::<char>::empty() + self@.text() =~= self@.text());
        s
    }

    /// The name of the type in C, where it has one.
    pub fn c_name(&self) -> (r: Option<String>)
        ensures
            r is Some <==> self@.c_name() is Some,
            r matches Some(s) ==> self@.c_name() == Some(s@),
        decreases self,
    {
        match self {
            TolType::I8 => Some(copy_str("int8_t")),
            TolType::I16 => Some(copy_str("int16_t")),
            TolType::I32 => Some(copy_str("int32_t")),
            TolType::I64 => Some(copy_str("int64_t")),
            TolType::ISukat => Some(copy_str("ptrdiff_t")),
            TolType::U8 => Some(copy_str("uint8_t")),
            TolType::U16 => Some(copy_str("uint16_t")),
            TolType::U32 => Some(copy_str("uint32_t")),
            TolType::U64 => Some(copy_str("uint64_t")),
            TolType::USukat => Some(copy_str("size_t")),
            TolType::Lutang => Some(copy_str("float")),
            TolType::DobleTang => Some(copy_str("double")),
            TolType::Bool => Some(copy_str("bool")),
            TolType::Kar => Some(copy_str("char")),
            TolType::Wala => Some(copy_str("void")),
            TolType::Bagay(s) => Some(s.clone()),
            TolType::UnknownIdentifier(s) => Some(s.clone()),
            TolType::Array(inner, _) => match inner.c_name() {
                Some(name) => {
                    let mut s = copy_str("TOL_Array_");
                    s.append(name.as_str());
                    Some(s)
                },
                None => None,
            },
            _ => None,
        }
    }

    /// The name of the type in C.
    pub fn as_c(&self) -> (s: String)
        requires
            self@.c_name() is Some,
        ensures
            Some(s@) == self@.c_name(),
    {
        match self.c_name() {
            Some(s) => s,
            None => String::new(),
        }
    }

    /// The array brackets of the type, outermost first.
    pub fn array_suffix(&self) -> (s: String)
        ensures
            s@ == self@.array_suffix(),
        decreases self,
    {
        match self {
            TolType::Array(inner, len_opt) => {
                let inner_suffix = inner.array_suffix();
                let mut s = String::new();
                match len_opt {
                    Some(len) => {
                        s.append("[");
                        push_decimal(&mut s, *len);
                        s.append("]");
                    },
                    None => {
                        s.append("[]");
                    },
                }
                s.append(inner_suffix.as_str());
                assert(s@ =~= self@.array_suffix());
                s
            },
            _ => String::new(),
        }
    }
}

} // verus!
