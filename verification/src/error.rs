//! The error that a failed parse returns.

use vstd::prelude::*;

verus! {

/// Why a parse failed: a chain of messages, outermost context first and the
/// root cause last.
#[derive(Debug, Clone, PartialEq, Eq)]
pub struct ParseError {
    chain: Vec<String>,
}

impl View for ParseError {
    type V = Seq<Seq<char>>;

    /// The messages of the chain, outermost context first.
    closed spec fn view(&self) -> Seq<Seq<char>> {
        Seq::new(self.chain@.len(), |i: int| self.chain@[i]@)
    }
}

/// The text of a chain of messages: the messages in order, joined by `": "`.
pub open spec fn joined(chain: Seq<Seq<char>>) -> Seq<char>
    decreases chain.len(),
{
    if chain.len() == 0 {
        Seq::empty()
    } else if chain.len() == 1 {
        chain[0]
    } else {
        joined(chain.drop_last()) + ": "@ + chain.last()
    }
}

impl ParseError {
    /// An error with a root cause and no context yet.
    pub fn new(message: String) -> (e: ParseError)
        ensures
            e@ == seq![message@],
    {
        let mut chain: Vec<String> = Vec::new();
        chain.push(message);
        let e = ParseError { chain };
        assert(e@ =~= seq![message@]);
        e
    }

    /// The same error seen from one frame further out: `context` goes in front
    /// of the chain.
    pub fn wrap(self, context: String) -> (e: ParseError)
        ensures
            e@ == seq![context@] + self@,
    {
        let mut chain = self.chain;
        chain.insert(0, context);
        let e = ParseError { chain };
        assert(e@ =~= seq![context@] + self@);
        e
    }

    /// The number of messages in the chain.
    pub fn len(&self) -> (n: usize)
        ensures
            n == self@.len(),
    {
        self.chain.len()
    }

    /// The `i`-th message of the chain, counted from the outermost context.
    pub fn message(&self, i: usize) -> (m: &String)
        requires
            i < self@.len(),
        ensures
            m@ == self@[i as int],
    {
        &self.chain[i]
    }

    /// The whole chain as one line of text, root cause last.
    pub fn to_string(&self) -> (text: String)
        ensures
            text@ == joined(self@),
    {
        let mut text = String::new();
        let n: usize = self.chain.len();
        let mut i: usize = 0;
        while i < n
            invariant
                n == self.chain@.len(),
                i <= n,
                text@ == joined(self@.take(i as int)),
            decreases n - i,
        {
            if i > 0 {
                text.append(": ");
            }
            text.append(self.chain[i].as_str());
            proof {
                let before = self@.take(i as int);
                let after = self@.take(i + 1);
                assert(after.drop_last() =~= before);
                assert(after.last() == self.chain@[i as int]@);
                assert(("")@.len() == 0) by {
                    reveal_strlit("");
                }
            }
            i = i + 1;
        }
        assert(self@.take(n as int) =~= self@);
        text
    }
}


/// Why a declaration cannot be derived from.
#[derive(Debug, Clone, PartialEq, Eq)]
pub enum DeriveError {
    /// The enum has a variant without fields: a unit variant, or one with an
    /// empty list of fields. The payload is the name of the variant.
    UnitVariant(String),
    /// Two fields of one struct or variant share a name; the payload is the
    /// name.
    DuplicateField(String),
}

/// The model of a [`DeriveError`].
pub enum Fault {
    UnitVariant(Seq<char>),
    DuplicateField(Seq<char>),
}

impl View for DeriveError {
    type V = Fault;

    open spec fn view(&self) -> Fault {
        match self {
            DeriveError::UnitVariant(name) => Fault::UnitVariant(name@),
            DeriveError::DuplicateField(name) => Fault::DuplicateField(name@),
        }
    }
}

/// The text of a derivation error.
pub open spec fn fault_text(fault: Fault) -> Seq<char> {
    match fault {
        Fault::UnitVariant(_) => "Unit variants not supported in enum parse derive"@,
        Fault::DuplicateField(name) => "field "@ + name + " is declared twice"@,
    }
}

impl DeriveError {
    /// The error as text.
    pub fn to_string(&self) -> (text: String)
        ensures
            text@ == fault_text(self@),
    {
        match self {
            DeriveError::UnitVariant(_) => String::from_str(
                "Unit variants not supported in enum parse derive",
            ),
            DeriveError::DuplicateField(name) => {
                let mut text = String::from_str("field ");
                text.append(name.as_str());
                text.append(" is declared twice");
                text
            },
        }
    }
}

} // verus!
