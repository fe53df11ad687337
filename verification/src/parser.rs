//! The syntax analyzer that will consume the token stream. It is a
//! placeholder: it takes exclusive ownership of its scanner and does
//! nothing with it yet.

use vstd::prelude::*;
use crate::lexer::Lexer;

verus! {

/// The (not yet implemented) parser: it owns the scanner it will
/// drive to exhaustion.
pub struct Parser {
    lexer: Lexer,
}

impl Parser {
    /// The scanner the parser owns.
    pub closed spec fn lexer(self) -> Lexer {
        self.lexer
    }

    /// A parser over the given scanner.
    pub fn new(input_lexer: Lexer) -> (r: Parser)
        ensures
            r.lexer() == input_lexer,
    {
        Parser { lexer: input_lexer }
    }
}

} // verus!
