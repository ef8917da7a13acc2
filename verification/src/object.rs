use vstd::prelude::*;

verus! {

/// A value of the language.
///
/// A number is held as the numeral that denotes it: decimal digits, which a
/// point and more decimal digits may follow. Turning the numeral into a
/// machine number is left to the caller.
#[derive(Debug, Clone, PartialEq)]
pub enum Object {
    String(String),
    Number(String),
    Boolean(bool),
    Nil,
}

/// What an `Object` holds.
pub enum ObjectView {
    String(Seq<char>),
    Number(Seq<char>),
    Boolean(bool),
    Nil,
}

impl View for Object {
    type V = ObjectView;

    open spec fn view(&self) -> ObjectView {
        match self {
            Object::String(text) => ObjectView::String(text@),
            Object::Number(numeral) => ObjectView::Number(numeral@),
            Object::Boolean(b) => ObjectView::Boolean(*b),
            Object::Nil => ObjectView::Nil,
        }
    }
}

} // verus!
