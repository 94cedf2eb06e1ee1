use vstd::prelude::*;

verus! {

/// Shell around the lexer for interactive token dumping. The read loop itself
/// performs console I/O and so lives outside the library; it pulls tokens
/// straight from `Lexer::next_token` until it sees `Eof`, never constructing
/// a `Parser`.
pub struct Repl;

impl Repl {
    pub fn new() {
    }
}

} // verus!
