//! The message log.

use vstd::prelude::*;
use vstd::string::StringExecFns;
use vstd::std_specs::iter::IteratorSpec;
use crate::color::Color;

verus! {

/// The log of everything reported to the player, oldest first. Each entry
/// carries the colour it is shown in.
#[derive(Debug)]
pub struct Messages {
    pub messages: Vec<(String, Color)>,
}

/// One entry of the log: its text and its colour.
pub type Line = (Seq<char>, Color);

impl View for Messages {
    type V = Seq<Line>;

    open spec fn view(&self) -> Seq<Line> {
        Seq::new(self.messages.len() as nat, |i: int| (self.messages[i].0@, self.messages[i].1))
    }
}

impl Messages {
    /// An empty log.
    pub fn new() -> (log: Self)
        ensures
            log@ == Seq::<Line>::empty(),
    {
        let log = Self { messages: Vec::new() };
        assert(log@ =~= Seq::<Line>::empty());
        log
    }

    /// Appends one entry.
    pub fn add(&mut self, message: &str, color: Color)
        ensures
            final(self)@ == old(self)@.push((message@, color)),
    {
        self.messages.push((String::from_str(message), color));
        assert(self@ =~= old(self)@.push((message@, color)));
    }

    /// Goes through the entries, oldest first.
    pub fn iter(&self) -> (entries: std::slice::Iter<'_, (String, Color)>)
        ensures
            entries.remaining() == self.messages@.as_ref(),
    {
        broadcast use vstd::std_specs::slice::axiom_spec_slice_iter;

        self.messages.as_slice().iter()
    }

    /// The entries, oldest first.
    pub fn entries(&self) -> (entries: &Vec<(String, Color)>)
        ensures
            entries == self.messages,
    {
        &self.messages
    }

    /// The number of entries.
    pub fn len(&self) -> (n: usize)
        ensures
            n == self@.len(),
    {
        self.messages.len()
    }
}

} // verus!
