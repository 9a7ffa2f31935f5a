use crate::bytecode::number::Number;
use crate::compiler::compiler::{result_of, CompileResult, Compiler};
use crate::compiler::grammar::{compiled, lexeme, Numeral};
use crate::compiler::scanner::{lemma_scan_progress, scan, Scanner};
use crate::compiler::source::Source;
use crate::compiler::token::{Token, TokenKind};
use vstd::prelude::*;

verus! {

/// The tokens of a text read from offset `pos` on line `line`, up to and
/// with the `EOF` token.
pub open spec fn tokens_from(src: Seq<u8>, pos: int, line: usize) -> Seq<Token>
    decreases src.len() - pos,
{
    let (token, next, next_line) = scan(src, pos, line);
    if token.ty is EOF || next <= pos || next > src.len() {
        seq![token]
    } else {
        seq![token] + tokens_from(src, next, next_line)
    }
}

/// The tokens of a text.
pub open spec fn tokens_of(src: Seq<u8>) -> Seq<Token> {
    tokens_from(src, 0, 1)
}

/// The numerals among tokens, in their order.
pub open spec fn numerals_among(tokens: Seq<Token>) -> Seq<Token> {
    tokens.filter(|token: Token| token.ty is Number)
}

/// Whether the conversion can return `value` for the text `text`.
pub open spec fn converts<F: Fn(&[u8]) -> Number>(
    parse_number: &F,
    text: Seq<u8>,
    value: Number,
) -> bool {
    exists|given: &[u8]| given@ == text && parse_number.ensures((given,), value)
}

/// Whether `numerals` lists the numerals of a text in their order, each
/// with a value that the conversion returned for it.
pub open spec fn numerals_for<F: Fn(&[u8]) -> Number>(
    parse_number: &F,
    src: Seq<u8>,
    numerals: Seq<Numeral>,
) -> bool {
    let tokens = numerals_among(tokens_of(src));
    &&& numerals.len() == tokens.len()
    &&& forall|i: int|
        0 <= i < numerals.len() ==> (#[trigger] numerals[i]).start == tokens[i].position.start
            && converts(parse_number, lexeme(src, Some(tokens[i])), numerals[i].value)
}

/// The tokens of a text, up to and with the `EOF` token.
pub fn scan_all(source: Source) -> (tokens: Vec<Token>)
    ensures
        tokens@ == tokens_of(source.bytes()),
{
    let mut scanner: Scanner = Scanner::new(source);
    let mut tokens: Vec<Token> = Vec::new();
    let length: usize = source.len();
    loop
        invariant
            scanner.wf(),
            scanner.bytes() == source.bytes(),
            source.bytes().len() == length,
            tokens@ + tokens_from(
                scanner.bytes(),
                scanner.offset() as int,
                scanner.line_number(),
            ) == tokens_of(source.bytes()),
        decreases
                source.bytes().len() - scanner.offset() + 1,
    {
        proof {
            scanner.lemma_offset_in_text();
            lemma_scan_progress(scanner.bytes(), scanner.offset() as int, scanner.line_number());
        }
        let ghost before = tokens@;
        let ghost rest = tokens_from(
            scanner.bytes(),
            scanner.offset() as int,
            scanner.line_number(),
        );
        let token: Token = scanner.scan_token();
        tokens.push(token);
        match token.ty {
            TokenKind::EOF => {
                assert(rest == seq![token]);
                assert(tokens@ =~= before + rest);
                return tokens;
            },
            _ => {
                proof {
                    let tail = tokens_from(
                        scanner.bytes(),
                        scanner.offset() as int,
                        scanner.line_number(),
                    );
                    assert(rest == seq![token] + tail);
                    assert(tokens@ + tail =~= before + rest);
                }
            },
        }
    }
}

/// The numerals of a text with their values, each value asked of the
/// conversion.
pub fn numerals_of<F: Fn(&[u8]) -> Number>(source: Source, parse_number: &F) -> (numerals: Vec<
    Numeral,
>)
    requires
        forall|text: &[u8]| parse_number.requires((text,)),
    ensures
        numerals_for(parse_number, source.bytes(), numerals@),
{
    let tokens: Vec<Token> = scan_all(source);
    let mut numerals: Vec<Numeral> = Vec::new();
    let mut i: usize = 0;
    let ghost keep = |token: Token| token.ty is Number;
    while i < tokens.len()
        invariant
            i <= tokens@.len(),
            tokens@ == tokens_of(source.bytes()),
            keep == (|token: Token| token.ty is Number),
            forall|text: &[u8]| parse_number.requires((text,)),
            numerals@.len() == tokens@.subrange(0, i as int).filter(keep).len(),
            forall|k: int|
                0 <= k < numerals@.len() ==> (#[trigger] numerals@[k]).start == tokens@.subrange(
                    0,
                    i as int,
                ).filter(keep)[k].position.start && converts(
                    parse_number,
                    lexeme(source.bytes(), Some(tokens@.subrange(0, i as int).filter(keep)[k])),
                    numerals@[k].value,
                ),
        decreases tokens@.len() - i,
    {
        let token: Token = tokens[i];
        proof {
            let before = tokens@.subrange(0, i as int);
            assert(tokens@.subrange(0, i + 1) =~= before.push(token));
            before.lemma_filter_push(token, keep);
        }
        match token.ty {
            TokenKind::Number => {
                let text: &[u8] = match source.try_lexeme(&token) {
                    Some(text) => text,
                    None => vstd::slice::slice_subrange(source.as_bytes(), 0, 0),
                };
                let value: Number = parse_number(text);
                assert(text@ =~= lexeme(source.bytes(), Some(token)));
                assert(text@ == lexeme(source.bytes(), Some(token)) && parse_number.ensures(
                    (text,),
                    value,
                ));
                assert(converts(parse_number, lexeme(source.bytes(), Some(token)), value));
                numerals.push(Numeral { start: token.position.start, value });
            },
            _ => {},
        }
        i += 1;
    }
    assert(tokens@.subrange(0, i as int) =~= tokens@);
    numerals
}

/// Compiles a text. The values of its numerals are asked of the conversion;
/// the result is that of the compiler given those values.
pub fn compile<F: Fn(&[u8]) -> Number>(src: &str, parse_number: &F) -> (result: CompileResult)
    requires
        forall|text: &[u8]| parse_number.requires((text,)),
    ensures
        exists|numerals: Seq<Numeral>|
            numerals_for(parse_number, Source { source: src }.bytes(), numerals) && result_of(
                result,
                compiled(Source { source: src }.bytes(), numerals),
            ),
{
    let source: Source = Source::new(src);
    let numerals: Vec<Numeral> = numerals_of(source, parse_number);
    let ghost listed = numerals@;
    let result: CompileResult = Compiler::new(source, numerals).compile();
    assert(numerals_for(parse_number, source.bytes(), listed) && result_of(
        result,
        compiled(source.bytes(), listed),
    ));
    result
}

} // verus!
