//! Names that are looked up in a fixed table, and what is said of a name
//! that no table holds.

use vstd::prelude::*;

verus! {

/// The tables of known names.
#[derive(Debug, Clone, Copy, PartialEq, Eq, Structural)]
pub enum Registry {
    Activation,
    Loss,
    Layer,
    Accuracy,
}

impl Registry {
    /// What the table holds, as an error message calls it.
    pub open spec fn spec_noun(&self) -> Seq<char> {
        match self {
            Registry::Activation => "activation"@,
            Registry::Loss => "loss"@,
            Registry::Layer => "layer"@,
            Registry::Accuracy => "accuracy function"@,
        }
    }

    /// What the table holds, as an error message calls it.
    pub fn noun(&self) -> (r: &'static str)
        ensures
            r@ == self.spec_noun(),
    {
        match self {
            Registry::Activation => "activation",
            Registry::Loss => "loss",
            Registry::Layer => "layer",
            Registry::Accuracy => "accuracy function",
        }
    }
}

/// A name that its table does not hold.
#[derive(Debug)]
pub struct UnknownName {
    pub registry: Registry,
    pub name: String,
}

/// The message for a name that its table does not hold: the table's noun
/// and the name as it was given, between single quotes.
pub open spec fn unknown_message(registry: Registry, name: Seq<char>) -> Seq<char> {
    "unknown "@ + registry.spec_noun() + " '"@ + name + "'"@
}

impl UnknownName {
    /// The message that names the offending name.
    pub fn message(&self) -> (r: String)
        ensures
            r@ == unknown_message(self.registry, self.name@),
    {
        let mut r = String::from_str("unknown ");
        r.append(self.registry.noun());
        r.append(" '");
        r.append(self.name.as_str());
        r.append("'");
        r
    }
}

/// Whether an upper-case text is the given word.
pub fn is_word(upper: &str, word: &str) -> (r: bool)
    ensures
        r == (upper@ == word@),
{
    let a = upper.to_owned();
    let b = word.to_owned();
    a == b
}

} // verus!
