//! The payload of a message: a tree of typed values.

use crate::text::{
    decimal, hexadecimal, push_decimal, push_hex_padded, push_signed, signed_decimal, zero_padded,
};
use vstd::prelude::*;
use vstd::string::*;

verus! {

/// One node of a message payload.
///
/// Scalars carry their value. A floating-point number is carried as the text
/// that shows it, together with whether it has no fractional part; a file
/// descriptor as its number and whether the value owns it. Containers carry
/// their children in order; a dictionary carries its entries in the order in
/// which the transport yields them.
#[derive(Debug, PartialEq, Eq)]
pub enum Value {
    U8(u8),
    Bool(bool),
    I16(i16),
    U16(u16),
    I32(i32),
    U32(u32),
    I64(i64),
    U64(u64),
    F64 { shown: String, integral: bool },
    Str(String),
    Signature(String),
    ObjectPath(String),
    /// A boxed value of any type, transparent to the formatter.
    Variant(Box<Value>),
    Array(Vec<Value>),
    Dict(Vec<(Value, Value)>),
    Structure(Vec<Value>),
    Fd { number: i32, owned: bool },
}

/// What a payload value is in contracts: the same tree, with texts as
/// character sequences and children as sequences.
pub ghost enum ValueView {
    U8(u8),
    Bool(bool),
    I16(i16),
    U16(u16),
    I32(i32),
    U32(u32),
    I64(i64),
    U64(u64),
    F64 { shown: Seq<char>, integral: bool },
    Str(Seq<char>),
    Signature(Seq<char>),
    ObjectPath(Seq<char>),
    Variant(Box<ValueView>),
    Array(Seq<ValueView>),
    Dict(Seq<(ValueView, ValueView)>),
    Structure(Seq<ValueView>),
    Fd { number: i32, owned: bool },
}

/// The view of a value.
pub open spec fn view_of(value: Value) -> ValueView
    decreases value, 0nat,
{
    match value {
        Value::U8(n) => ValueView::U8(n),
        Value::Bool(b) => ValueView::Bool(b),
        Value::I16(n) => ValueView::I16(n),
        Value::U16(n) => ValueView::U16(n),
        Value::I32(n) => ValueView::I32(n),
        Value::U32(n) => ValueView::U32(n),
        Value::I64(n) => ValueView::I64(n),
        Value::U64(n) => ValueView::U64(n),
        Value::F64 { shown, integral } => ValueView::F64 { shown: shown@, integral },
        Value::Str(s) => ValueView::Str(s@),
        Value::Signature(s) => ValueView::Signature(s@),
        Value::ObjectPath(p) => ValueView::ObjectPath(p@),
        Value::Variant(inner) => ValueView::Variant(Box::new(view_of(*inner))),
        Value::Array(items) => ValueView::Array(views_upto(items@, items@.len())),
        Value::Dict(entries) => ValueView::Dict(entry_views_upto(entries@, entries@.len())),
        Value::Structure(fields) => ValueView::Structure(views_upto(fields@, fields@.len())),
        Value::Fd { number, owned } => ValueView::Fd { number, owned },
    }
}

/// The views of the first `count` values.
pub open spec fn views_upto(values: Seq<Value>, count: nat) -> Seq<ValueView>
    decreases values, count,
{
    if count == 0 || count > values.len() {
        Seq::empty()
    } else {
        views_upto(values, (count - 1) as nat).push(view_of(values[count - 1]))
    }
}

/// The views of the first `count` entries.
pub open spec fn entry_views_upto(entries: Seq<(Value, Value)>, count: nat) -> Seq<
    (ValueView, ValueView),
>
    decreases entries, count,
{
    if count == 0 || count > entries.len() {
        Seq::empty()
    } else {
        entry_views_upto(entries, (count - 1) as nat).push(
            (view_of(entries[count - 1].0), view_of(entries[count - 1].1)),
        )
    }
}

/// The views of a list of values.
pub open spec fn views(values: Seq<Value>) -> Seq<ValueView> {
    views_upto(values, values.len())
}

/// The views of a list of entries.
pub open spec fn entry_views(entries: Seq<(Value, Value)>) -> Seq<(ValueView, ValueView)> {
    entry_views_upto(entries, entries.len())
}

impl View for Value {
    type V = ValueView;

    open spec fn view(&self) -> ValueView {
        view_of(*self)
    }
}

impl DeepView for Value {
    type V = ValueView;

    open spec fn deep_view(&self) -> ValueView {
        view_of(*self)
    }
}

/// The views of a list of values are the views of the values, one by one.
pub proof fn lemma_views(values: Seq<Value>)
    ensures
        views(values).len() == values.len(),
        forall|i: int| 0 <= i < values.len() ==> #[trigger] views(values)[i] == values[i]@,
{
    lemma_views_upto(values, values.len());
}

proof fn lemma_views_upto(values: Seq<Value>, count: nat)
    requires
        count <= values.len(),
    ensures
        views_upto(values, count).len() == count,
        forall|i: int| 0 <= i < count ==> #[trigger] views_upto(values, count)[i] == values[i]@,
    decreases count,
{
    if count > 0 {
        lemma_views_upto(values, (count - 1) as nat);
    }
}

/// The views of a list of entries are the views of the entries, one by one.
pub proof fn lemma_entry_views(entries: Seq<(Value, Value)>)
    ensures
        entry_views(entries).len() == entries.len(),
        forall|i: int|
            0 <= i < entries.len() ==> #[trigger] entry_views(entries)[i] == (
                entries[i].0@,
                entries[i].1@,
            ),
{
    lemma_entry_views_upto(entries, entries.len());
}

proof fn lemma_entry_views_upto(entries: Seq<(Value, Value)>, count: nat)
    requires
        count <= entries.len(),
    ensures
        entry_views_upto(entries, count).len() == count,
        forall|i: int|
            0 <= i < count ==> #[trigger] entry_views_upto(entries, count)[i] == (
                entries[i].0@,
                entries[i].1@,
            ),
    decreases count,
{
    if count > 0 {
        lemma_entry_views_upto(entries, (count - 1) as nat);
    }
}

impl ValueView {
    /// Whether this is a container or a boxed value, as opposed to a scalar.
    pub open spec fn is_composite(self) -> bool {
        self is Array || self is Structure || self is Dict || self is Variant
    }

    /// The name of this value's type, as shown between square brackets.
    pub open spec fn tag(self) -> Seq<char> {
        match self {
            ValueView::U8(_) => "u8"@,
            ValueView::Bool(_) => "bool"@,
            ValueView::I16(_) => "i16"@,
            ValueView::U16(_) => "u16"@,
            ValueView::I32(_) => "i32"@,
            ValueView::U32(_) => "u32"@,
            ValueView::I64(_) => "i64"@,
            ValueView::U64(_) => "u64"@,
            ValueView::F64 { .. } => "f64"@,
            ValueView::Str(_) => "str"@,
            ValueView::Signature(_) => "signature"@,
            ValueView::ObjectPath(_) => "object-path"@,
            ValueView::Variant(_) => "variant"@,
            ValueView::Array(_) => "array"@,
            ValueView::Dict(_) => "dict"@,
            ValueView::Structure(_) => "struct"@,
            ValueView::Fd { .. } => "fd"@,
        }
    }

    /// Whether two values have the same type name.
    pub open spec fn same_kind(self, other: ValueView) -> bool {
        match self {
            ValueView::U8(_) => other is U8,
            ValueView::Bool(_) => other is Bool,
            ValueView::I16(_) => other is I16,
            ValueView::U16(_) => other is U16,
            ValueView::I32(_) => other is I32,
            ValueView::U32(_) => other is U32,
            ValueView::I64(_) => other is I64,
            ValueView::U64(_) => other is U64,
            ValueView::F64 { .. } => other is F64,
            ValueView::Str(_) => other is Str,
            ValueView::Signature(_) => other is Signature,
            ValueView::ObjectPath(_) => other is ObjectPath,
            ValueView::Variant(_) => other is Variant,
            ValueView::Array(_) => other is Array,
            ValueView::Dict(_) => other is Dict,
            ValueView::Structure(_) => other is Structure,
            ValueView::Fd { .. } => other is Fd,
        }
    }

    /// How a file descriptor describes itself.
    pub open spec fn handle_text(number: i32, owned: bool) -> Seq<char> {
        if owned {
            "Owned(OwnedFd { fd: "@ + signed_decimal(number as int) + " })"@
        } else {
            "Borrowed(BorrowedFd { fd: "@ + signed_decimal(number as int) + " })"@
        }
    }

    /// The text of a scalar on a line of its own; empty for a composite.
    /// Strings stand in double quotes, signatures in single quotes.
    pub open spec fn scalar_text(self) -> Seq<char> {
        match self {
            ValueView::U8(n) => decimal(n as nat),
            ValueView::Bool(b) => if b {
                "true"@
            } else {
                "false"@
            },
            ValueView::I16(n) => signed_decimal(n as int),
            ValueView::U16(n) => decimal(n as nat),
            ValueView::I32(n) => signed_decimal(n as int),
            ValueView::U32(n) => decimal(n as nat),
            ValueView::I64(n) => signed_decimal(n as int),
            ValueView::U64(n) => decimal(n as nat),
            ValueView::F64 { shown, .. } => shown,
            ValueView::Str(s) => "\""@ + s + "\""@,
            ValueView::Signature(s) => "'"@ + s + "'"@,
            ValueView::ObjectPath(p) => p,
            ValueView::Fd { number, owned } => ValueView::handle_text(number, owned),
            _ => Seq::empty(),
        }
    }

    /// The text of a scalar as one element of a compact list; empty for a
    /// composite. Every integer type but the 32-bit signed one names itself
    /// before the number, a whole floating-point number ends in a point, and
    /// object paths and file descriptors name themselves too.
    pub open spec fn element_text(self) -> Seq<char> {
        match self {
            ValueView::U8(n) => "byte 0x"@ + zero_padded(hexadecimal(n as nat), 2),
            ValueView::Bool(b) => if b {
                "true"@
            } else {
                "false"@
            },
            ValueView::I16(n) => "int16 "@ + signed_decimal(n as int),
            ValueView::U16(n) => "uint16 "@ + decimal(n as nat),
            ValueView::I32(n) => signed_decimal(n as int),
            ValueView::U32(n) => "uint32 "@ + decimal(n as nat),
            ValueView::I64(n) => "int64 "@ + signed_decimal(n as int),
            ValueView::U64(n) => "uint64 "@ + decimal(n as nat),
            ValueView::F64 { shown, integral } => if integral {
                shown + "."@
            } else {
                shown
            },
            ValueView::Str(s) => "\""@ + s + "\""@,
            ValueView::Signature(s) => "'"@ + s + "'"@,
            ValueView::ObjectPath(p) => "objectpath \""@ + p + "\""@,
            ValueView::Fd { number, .. } => "handle "@ + signed_decimal(number as int),
            _ => Seq::empty(),
        }
    }

    /// The text of a dictionary key: a string as it is, any other scalar as
    /// the name of its variant with its text in round brackets, an object
    /// path under its name twice, and a container as the name of its variant
    /// alone.
    pub open spec fn key_text(self) -> Seq<char> {
        match self {
            ValueView::Str(s) => s,
            ValueView::U8(_) => "U8("@ + self.scalar_text() + ")"@,
            ValueView::Bool(_) => "Bool("@ + self.scalar_text() + ")"@,
            ValueView::I16(_) => "I16("@ + self.scalar_text() + ")"@,
            ValueView::U16(_) => "U16("@ + self.scalar_text() + ")"@,
            ValueView::I32(_) => "I32("@ + self.scalar_text() + ")"@,
            ValueView::U32(_) => "U32("@ + self.scalar_text() + ")"@,
            ValueView::I64(_) => "I64("@ + self.scalar_text() + ")"@,
            ValueView::U64(_) => "U64("@ + self.scalar_text() + ")"@,
            ValueView::F64 { .. } => "F64("@ + self.scalar_text() + ")"@,
            ValueView::Signature(_) => "Signature("@ + self.scalar_text() + ")"@,
            ValueView::ObjectPath(p) => "ObjectPath(ObjectPath(\""@ + p + "\"))"@,
            ValueView::Variant(_) => "Value(..)"@,
            ValueView::Array(_) => "Array(..)"@,
            ValueView::Dict(_) => "Dict(..)"@,
            ValueView::Structure(_) => "Structure(..)"@,
            ValueView::Fd { .. } => "Fd("@ + self.scalar_text() + ")"@,
        }
    }
}

impl Value {
    /// Whether this is a container or a boxed value.
    pub fn composite(&self) -> (yes: bool)
        ensures
            yes == self@.is_composite(),
    {
        match self {
            Value::Array(_) => true,
            Value::Structure(_) => true,
            Value::Dict(_) => true,
            Value::Variant(_) => true,
            _ => false,
        }
    }

    /// The name of this value's type.
    pub fn kind_name(&self) -> (name: &'static str)
        ensures
            name@ == self@.tag(),
    {
        match self {
            Value::U8(_) => "u8",
            Value::Bool(_) => "bool",
            Value::I16(_) => "i16",
            Value::U16(_) => "u16",
            Value::I32(_) => "i32",
            Value::U32(_) => "u32",
            Value::I64(_) => "i64",
            Value::U64(_) => "u64",
            Value::F64 { .. } => "f64",
            Value::Str(_) => "str",
            Value::Signature(_) => "signature",
            Value::ObjectPath(_) => "object-path",
            Value::Variant(_) => "variant",
            Value::Array(_) => "array",
            Value::Dict(_) => "dict",
            Value::Structure(_) => "struct",
            Value::Fd { .. } => "fd",
        }
    }

    /// Whether `other` has the type of `self`.
    pub fn has_kind_of(&self, other: &Value) -> (yes: bool)
        ensures
            yes == other@.same_kind(self@),
    {
        match other {
            Value::U8(_) => matches!(self, Value::U8(_)),
            Value::Bool(_) => matches!(self, Value::Bool(_)),
            Value::I16(_) => matches!(self, Value::I16(_)),
            Value::U16(_) => matches!(self, Value::U16(_)),
            Value::I32(_) => matches!(self, Value::I32(_)),
            Value::U32(_) => matches!(self, Value::U32(_)),
            Value::I64(_) => matches!(self, Value::I64(_)),
            Value::U64(_) => matches!(self, Value::U64(_)),
            Value::F64 { .. } => matches!(self, Value::F64 { .. }),
            Value::Str(_) => matches!(self, Value::Str(_)),
            Value::Signature(_) => matches!(self, Value::Signature(_)),
            Value::ObjectPath(_) => matches!(self, Value::ObjectPath(_)),
            Value::Variant(_) => matches!(self, Value::Variant(_)),
            Value::Array(_) => matches!(self, Value::Array(_)),
            Value::Dict(_) => matches!(self, Value::Dict(_)),
            Value::Structure(_) => matches!(self, Value::Structure(_)),
            Value::Fd { .. } => matches!(self, Value::Fd { .. }),
        }
    }

    /// Appends the text of a scalar; appends nothing for a composite.
    pub fn push_scalar_text(&self, out: &mut String)
        ensures
            final(out)@ == old(out)@ + self@.scalar_text(),
    {
        let ghost before = out@;
        match self {
            Value::U8(n) => push_decimal(out, *n as u64),
            Value::Bool(b) => {
                if *b {
                    out.append("true");
                } else {
                    out.append("false");
                }
            },
            Value::I16(n) => push_signed(out, *n as i64),
            Value::U16(n) => push_decimal(out, *n as u64),
            Value::I32(n) => push_signed(out, *n as i64),
            Value::U32(n) => push_decimal(out, *n as u64),
            Value::I64(n) => push_signed(out, *n),
            Value::U64(n) => push_decimal(out, *n),
            Value::F64 { shown, .. } => out.append(shown.as_str()),
            Value::Str(s) => {
                out.append("\"");
                out.append(s.as_str());
                out.append("\"");
                assert(out@ =~= before + ("\""@ + s@ + "\""@));
            },
            Value::Signature(s) => {
                out.append("'");
                out.append(s.as_str());
                out.append("'");
                assert(out@ =~= before + ("'"@ + s@ + "'"@));
            },
            Value::ObjectPath(p) => out.append(p.as_str()),
            Value::Fd { number, owned } => {
                if *owned {
                    out.append("Owned(OwnedFd { fd: ");
                } else {
                    out.append("Borrowed(BorrowedFd { fd: ");
                }
                push_signed(out, *number as i64);
                out.append(" })");
                assert(out@ =~= before + ValueView::handle_text(*number, *owned));
            },
            _ => {
                assert(out@ =~= before + Seq::<char>::empty());
            },
        }
    }

    /// Appends the text of a scalar as an element of a compact list; appends
    /// nothing for a composite.
    pub fn push_element_text(&self, out: &mut String)
        ensures
            final(out)@ == old(out)@ + self@.element_text(),
    {
        let ghost before = out@;
        match self {
            Value::U8(n) => {
                out.append("byte 0x");
                push_hex_padded(out, *n as u64, 2);
            },
            Value::Bool(b) => {
                if *b {
                    out.append("true");
                } else {
                    out.append("false");
                }
            },
            Value::I16(n) => {
                out.append("int16 ");
                push_signed(out, *n as i64);
            },
            Value::U16(n) => {
                out.append("uint16 ");
                push_decimal(out, *n as u64);
            },
            Value::I32(n) => push_signed(out, *n as i64),
            Value::U32(n) => {
                out.append("uint32 ");
                push_decimal(out, *n as u64);
            },
            Value::I64(n) => {
                out.append("int64 ");
                push_signed(out, *n);
            },
            Value::U64(n) => {
                out.append("uint64 ");
                push_decimal(out, *n);
            },
            Value::F64 { shown, integral } => {
                out.append(shown.as_str());
                if *integral {
                    out.append(".");
                }
            },
            Value::Str(s) => {
                out.append("\"");
                out.append(s.as_str());
                out.append("\"");
            },
            Value::Signature(s) => {
                out.append("'");
                out.append(s.as_str());
                out.append("'");
            },
            Value::ObjectPath(p) => {
                out.append("objectpath \"");
                out.append(p.as_str());
                out.append("\"");
            },
            Value::Fd { number, .. } => {
                out.append("handle ");
                push_signed(out, *number as i64);
            },
            _ => {},
        }
        assert(out@ =~= before + self@.element_text());
    }

    /// The text of a dictionary key.
    pub fn key_string(&self) -> (out: String)
        ensures
            out@ == self@.key_text(),
    {
        let mut out = String::new();
        match self {
            Value::Str(s) => out.append(s.as_str()),
            Value::ObjectPath(p) => {
                out.append("ObjectPath(ObjectPath(\"");
                out.append(p.as_str());
                out.append("\"))");
            },
            Value::Variant(_) => out.append("Value(..)"),
            Value::Array(_) => out.append("Array(..)"),
            Value::Dict(_) => out.append("Dict(..)"),
            Value::Structure(_) => out.append("Structure(..)"),
            _ => {
                match self {
                    Value::U8(_) => out.append("U8("),
                    Value::Bool(_) => out.append("Bool("),
                    Value::I16(_) => out.append("I16("),
                    Value::U16(_) => out.append("U16("),
                    Value::I32(_) => out.append("I32("),
                    Value::U32(_) => out.append("U32("),
                    Value::I64(_) => out.append("I64("),
                    Value::U64(_) => out.append("U64("),
                    Value::F64 { .. } => out.append("F64("),
                    Value::Signature(_) => out.append("Signature("),
                    _ => out.append("Fd("),
                }
                self.push_scalar_text(&mut out);
                out.append(")");
            },
        }
        assert(out@ =~= self@.key_text());
        out
    }
}

} // verus!
