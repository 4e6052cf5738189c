use vstd::prelude::*;
use crate::entity::SourceLocation;
use crate::text::{decimal, push_char, push_decimal};

verus! {

/// A value that is written out as a piece of text.
pub trait Name {
    /// The text of the value.
    spec fn name_text(&self) -> Seq<char>;

    fn get_name(&self) -> (r: String)
        ensures
            r@ == self.name_text(),
    ;
}

/// A missing value is written as the empty text.
impl<T: Name> Name for Option<T> {
    open spec fn name_text(&self) -> Seq<char> {
        match self {
            Some(t) => t.name_text(),
            None => Seq::empty(),
        }
    }

    fn get_name(&self) -> (r: String) {
        match self {
            Some(t) => t.get_name(),
            None => String::new(),
        }
    }
}

impl Name for String {
    open spec fn name_text(&self) -> Seq<char> {
        self@
    }

    fn get_name(&self) -> (r: String) {
        self.clone()
    }
}

/// `file:line:column`.
pub open spec fn location_text(file: Seq<char>, line: u32, column: u32) -> Seq<char> {
    file + seq![':'] + decimal(line as nat) + seq![':'] + decimal(column as nat)
}

impl Name for SourceLocation {
    open spec fn name_text(&self) -> Seq<char> {
        location_text(self.file@, self.line, self.column)
    }

    fn get_name(&self) -> (r: String) {
        let mut r = self.file.clone();
        push_char(&mut r, ':');
        push_decimal(&mut r, self.line as u64);
        push_char(&mut r, ':');
        push_decimal(&mut r, self.column as u64);
        r
    }
}

/// The text of `name`, or the empty text when there is none.
pub fn return_empty_if_null(name: Option<String>) -> (r: String)
    ensures
        r@ == (match name {
            Some(s) => s@,
            None => Seq::empty(),
        }),
{
    match name {
        Some(name) => name,
        None => String::new(),
    }
}

} // verus!
