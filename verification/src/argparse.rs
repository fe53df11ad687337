//! The settings the command line hands the front end. Reading the
//! command line itself is host-side work and stays outside the
//! library; the library only carries the settled values.

use vstd::prelude::*;

verus! {

/// The settled command-line options: the source file to scan, the
/// output file to write, and whether to print the syntax tree.
pub struct Arguments {
    pub input_file: String,
    pub output_file: String,
    pub print_ast: bool,
}

} // verus!
