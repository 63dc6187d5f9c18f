//! The compiler: from source text to a chunk.

use vstd::prelude::*;
use crate::scanner::{Scanner, scan_rest, scan_spec, scan_start};

use crate::vm::chunk::Chunk;
use crate::vm::parser::Parser;
use crate::vm::pratt;

verus! {

/// The tokens of a text end in the end-of-input token.
pub proof fn lemma_scan_is_terminated(source: Seq<char>)
    ensures
        crate::grammar::terminated(scan_spec(source)),
{
    let done = scan_rest(source, scan_start());
    assert(scan_spec(source) == done.tokens.push(crate::scanner::eof_token(done.line)));
}

/// Compiles the expression that `source` spells into a chunk that ends
/// by returning its value. The text is limited to what a 32-bit line
/// counter can number.
pub fn compile(source: String) -> (r: Result<Chunk, String>)
    requires
        source@.len() < i32::MAX,
    ensures
        match r {
            Ok(chunk) => pratt::compiled(scan_spec(source@)).error is None && chunk@
                == pratt::compiled(scan_spec(source@)).chunk && chunk.wf(),
            Err(message) => pratt::compiled(scan_spec(source@)).error == Some(message@),
        },
{
    let mut scanner = Scanner::new(source);
    scanner.scan_tokens();
    proof {
        lemma_scan_is_terminated(source@);
    }
    let mut parser = Parser::new(scanner.into_tokens());
    match parser.expression() {
        Ok(_) => {},
        Err(e) => {
            return Err(e.message);
        },
    }
    parser.emit_return();
    Ok(parser.into_chunk())
}

} // verus!
