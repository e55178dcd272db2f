//! Node attributes: a property name together with a value of one of a
//! closed set of shapes, and the rendering of that pair as a DTS fragment.

use vstd::prelude::*;

verus! {

/// The value of a devicetree property, in one of five shapes.
///
/// The shape is fixed at construction and never changes; rendering is a
/// pure function of the shape and its payload.
pub enum AttributeValue {
    /// A presence-only (flag) property, rendered as `name;`.
    Empty,
    /// A single quoted string, rendered as `name = "text";`.
    Str(String),
    /// A list of quoted strings, rendered as `name = "a", "b";`.
    StrList(Vec<String>),
    /// A single 32-bit cell, rendered as `name = <0x2a>;`.
    U32(u32),
    /// A list of 32-bit cells, rendered as `name = <0x1 0x2>;`.
    U32List(Vec<u32>),
}

/// One named property of a node.
pub struct Attribute {
    /// The property name; it is emitted verbatim, never validated.
    pub name: String,
    /// The property value.
    pub value: AttributeValue,
}

/// The character standing for the hexadecimal digit `d` (`d < 16`);
/// digits ten to fifteen are lower case.
pub open spec fn hex_digit_text(d: nat) -> Seq<char> {
    if d == 0 {
        "0"@
    } else if d == 1 {
        "1"@
    } else if d == 2 {
        "2"@
    } else if d == 3 {
        "3"@
    } else if d == 4 {
        "4"@
    } else if d == 5 {
        "5"@
    } else if d == 6 {
        "6"@
    } else if d == 7 {
        "7"@
    } else if d == 8 {
        "8"@
    } else if d == 9 {
        "9"@
    } else if d == 10 {
        "a"@
    } else if d == 11 {
        "b"@
    } else if d == 12 {
        "c"@
    } else if d == 13 {
        "d"@
    } else if d == 14 {
        "e"@
    } else {
        "f"@
    }
}

/// The hexadecimal digits of `v`, most significant first, with no
/// leading zeros (`0` itself is the single digit `0`).
pub open spec fn hex_text(v: nat) -> Seq<char>
    decreases v,
{
    if v < 16 {
        hex_digit_text(v)
    } else {
        hex_text(v / 16) + hex_digit_text(v % 16)
    }
}

/// A 32-bit cell value as it appears inside angle brackets: `0x` followed
/// by the hexadecimal digits of the value. Every cell is rendered in this
/// one base, so that documents are uniform.
pub open spec fn u32_text(v: u32) -> Seq<char> {
    "0x"@ + hex_text(v as nat)
}

/// `s` wrapped in double quotes.
pub open spec fn quoted_text(s: Seq<char>) -> Seq<char> {
    "\""@ + s + "\""@
}

/// The first `i` strings of `items`, each double quoted, separated by
/// `", "`.
pub open spec fn strings_text(items: Seq<String>, i: int) -> Seq<char>
    decreases i,
{
    if i <= 0 {
        Seq::<char>::empty()
    } else if i == 1 {
        quoted_text(items[0]@)
    } else {
        strings_text(items, i - 1) + ", "@ + quoted_text(items[i - 1]@)
    }
}

/// The first `i` cells of `items`, each in hexadecimal, separated by a
/// single space.
pub open spec fn cells_text(items: Seq<u32>, i: int) -> Seq<char>
    decreases i,
{
    if i <= 0 {
        Seq::<char>::empty()
    } else if i == 1 {
        u32_text(items[0])
    } else {
        cells_text(items, i - 1) + " "@ + u32_text(items[i - 1])
    }
}

/// The DTS fragment of one attribute: the property name, then the value
/// in the syntax of its shape, closed by a semicolon. No indentation and
/// no line ending; those belong to the enclosing node.
pub open spec fn attr_fragment(a: Attribute) -> Seq<char> {
    match a.value {
        AttributeValue::Empty => a.name@ + ";"@,
        AttributeValue::Str(text) => a.name@ + " = "@ + quoted_text(text@) + ";"@,
        AttributeValue::StrList(items) => a.name@ + " = "@ + strings_text(
            items@,
            items@.len() as int,
        ) + ";"@,
        AttributeValue::U32(v) => a.name@ + " = <"@ + u32_text(v) + ">;"@,
        AttributeValue::U32List(items) => a.name@ + " = <"@ + cells_text(
            items@,
            items@.len() as int,
        ) + ">;"@,
    }
}

/// Appends the single hexadecimal digit `d` to `s`.
fn push_hex_digit(s: &mut String, d: u32)
    requires
        d < 16,
    ensures
        final(s)@ == old(s)@ + hex_digit_text(d as nat),
{
    match d {
        0 => s.append("0"),
        1 => s.append("1"),
        2 => s.append("2"),
        3 => s.append("3"),
        4 => s.append("4"),
        5 => s.append("5"),
        6 => s.append("6"),
        7 => s.append("7"),
        8 => s.append("8"),
        9 => s.append("9"),
        10 => s.append("a"),
        11 => s.append("b"),
        12 => s.append("c"),
        13 => s.append("d"),
        14 => s.append("e"),
        _ => s.append("f"),
    }
}

/// Appends the hexadecimal digits of `v` to `s`, most significant first.
fn push_hex(s: &mut String, v: u32)
    ensures
        final(s)@ == old(s)@ + hex_text(v as nat),
    decreases v,
{
    if v < 16 {
        push_hex_digit(s, v);
    } else {
        push_hex(s, v / 16);
        push_hex_digit(s, v % 16);
        proof {
            assert(s@ =~= old(s)@ + hex_text(v as nat));
        }
    }
}

impl Attribute {
    /// Builds the attribute `name = value`; the shape of `value` decides
    /// which of the five fragment forms `to_dts` later produces.
    pub fn new(name: &str, value: AttributeValue) -> (a: Attribute)
        ensures
            a.name@ == name@,
            a.value == value,
    {
        Attribute { name: name.to_owned(), value }
    }

    /// Renders this attribute's DTS fragment, such as `reg = <0x0 0x1>;`
    /// or `dma-coherent;`.
    pub fn to_dts(&self) -> (r: String)
        ensures
            r@ == attr_fragment(*self),
    {
        let mut s = self.name.clone();
        match &self.value {
            AttributeValue::Empty => {
                s.append(";");
            },
            AttributeValue::Str(text) => {
                s.append(" = ");
                s.append("\"");
                s.append(text.as_str());
                s.append("\"");
                s.append(";");
            },
            AttributeValue::StrList(items) => {
                s.append(" = ");
                let mut i: usize = 0;
                while i < items.len()
                    invariant
                        i <= items.len(),
                        s@ == self.name@ + " = "@ + strings_text(items@, i as int),
                    decreases items.len() - i,
                {
                    if i > 0 {
                        s.append(", ");
                    }
                    s.append("\"");
                    s.append(items[i].as_str());
                    s.append("\"");
                    i = i + 1;
                    proof {
                        assert(s@ =~= self.name@ + " = "@ + strings_text(items@, i as int));
                    }
                }
                s.append(";");
            },
            AttributeValue::U32(v) => {
                s.append(" = <");
                s.append("0x");
                push_hex(&mut s, *v);
                s.append(">;");
            },
            AttributeValue::U32List(items) => {
                s.append(" = <");
                let mut i: usize = 0;
                while i < items.len()
                    invariant
                        i <= items.len(),
                        s@ == self.name@ + " = <"@ + cells_text(items@, i as int),
                    decreases items.len() - i,
                {
                    if i > 0 {
                        s.append(" ");
                    }
                    s.append("0x");
                    push_hex(&mut s, items[i]);
                    i = i + 1;
                    proof {
                        assert(s@ =~= self.name@ + " = <"@ + cells_text(items@, i as int));
                    }
                }
                s.append(">;");
            },
        }
        proof {
            assert(s@ =~= attr_fragment(*self));
        }
        s
    }
}

} // verus!
