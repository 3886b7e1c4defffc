//! The kinds of entity that the store holds.
use vstd::prelude::*;

verus! {

/// A resume, known by its name.
#[derive(Debug)]
pub struct Resume {
    name: String,
}

impl View for Resume {
    type V = Seq<char>;

    /// A resume is its name.
    closed spec fn view(&self) -> Seq<char> {
        self.name@
    }
}

impl Resume {
    pub fn new(name: String) -> (r: Self)
        ensures
            r@ == name@,
    {
        Self { name }
    }

    /// The name the resume was created with.
    pub fn name(&self) -> (s: &String)
        ensures
            s@ == self@,
    {
        &self.name
    }
}

impl Clone for Resume {
    fn clone(&self) -> (r: Self)
        ensures
            r == *self,
    {
        Self { name: self.name.clone() }
    }
}

/// A way to reach a person: the text to show and where it leads.
#[derive(Debug)]
pub struct Contact {
    display: String,
    href: String,
}

impl View for Contact {
    type V = (Seq<char>, Seq<char>);

    /// A contact is the pair of its text and its target.
    closed spec fn view(&self) -> (Seq<char>, Seq<char>) {
        (self.display@, self.href@)
    }
}

impl Contact {
    pub fn new(display: String, href: String) -> (c: Self)
        ensures
            c@ == (display@, href@),
    {
        Self { display, href }
    }

    /// The text to show.
    pub fn display(&self) -> (s: &String)
        ensures
            s@ == self@.0,
    {
        &self.display
    }

    /// Where the contact leads.
    pub fn href(&self) -> (s: &String)
        ensures
            s@ == self@.1,
    {
        &self.href
    }
}

impl Clone for Contact {
    fn clone(&self) -> (c: Self)
        ensures
            c == *self,
    {
        Self { display: self.display.clone(), href: self.href.clone() }
    }
}

} // verus!
