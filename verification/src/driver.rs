//! Compiling and running a text in one go.
use crate::bytecode::chunk::Chunk;
use crate::bytecode::number::Number;
use crate::bytecode::opcode::Opcode;
use crate::bytecode::value::{values_view, Value, ValueView};
use crate::compiler::compiler::{result_of, CompileError};
use crate::compiler::driver::{compile, numerals_for};
use crate::compiler::grammar::{compiled, Numeral};
use crate::compiler::source::Source;
use crate::vm::errors::RuntimeError;
use crate::vm::machine::{
    lemma_view_push, line_at, step, with_stack, ChunkView, Machine, Outcome, Signal, VM,
};
use vstd::prelude::*;
use vstd::string::StringSliceAdditionalSpecFns;

verus! {

/// Why a text could not be run to its end.
#[derive(Debug)]
pub enum InterpretError {
    CompileError(CompileError),
    RuntimeError(RuntimeError),
}

/// The values that a program printed, in their order.
pub type InterpretResult = Result<Vec<Value>, InterpretError>;

/// How a run with a caller that answers ended: the values printed, the
/// operations asked for, and the failure, if the run failed.
pub struct Hosted {
    pub printed: Seq<ValueView>,
    pub asked: Seq<(Opcode, Number, Number)>,
    pub fault: Option<(usize, Seq<u8>)>,
}

pub open spec fn msg_steps() -> Seq<u8> {
    "Step limit reached".spec_bytes()
}

pub open spec fn msg_answers() -> Seq<u8> {
    "No answer".spec_bytes()
}

/// A run of at most `fuel` steps in which the operations asked for are
/// answered, in their order, by `answers`. The run fails where its steps or
/// its answers are used up.
pub open spec fn hosted(
    chunk: ChunkView,
    m: Machine,
    fuel: nat,
    answers: Seq<Number>,
    so_far: Hosted,
) -> Hosted
    decreases fuel,
{
    if fuel == 0 {
        Hosted { fault: Some((line_at(chunk, m.ip), msg_steps())), ..so_far }
    } else {
        let (next, outcome) = step(chunk, m);
        match outcome {
            Outcome::Continue => hosted(chunk, next, (fuel - 1) as nat, answers, so_far),
            Outcome::Halt => so_far,
            Outcome::Print(value) => hosted(
                chunk,
                next,
                (fuel - 1) as nat,
                answers,
                Hosted { printed: so_far.printed.push(value), ..so_far },
            ),
            Outcome::Arithmetic { op, left, right } => if answers.len() == 0 {
                Hosted { fault: Some((line_at(chunk, m.ip), msg_answers())), ..so_far }
            } else {
                hosted(
                    chunk,
                    with_stack(next, next.stack.push(ValueView::Number(answers[0]))),
                    (fuel - 1) as nat,
                    answers.subrange(1, answers.len() as int),
                    Hosted { asked: so_far.asked.push((op, left, right)), ..so_far },
                )
            },
            Outcome::Fault { line, message } => Hosted { fault: Some((line, message)), ..so_far },
        }
    }
}

/// A run from the start of a chunk with nothing printed or asked yet.
pub open spec fn hosted_run(
    chunk: ChunkView,
    strings: Seq<Seq<u8>>,
    fuel: nat,
    answers: Seq<Number>,
) -> Hosted {
    hosted(
        chunk,
        Machine { ip: 0, stack: Seq::empty(), globals: Map::empty(), strings },
        fuel,
        answers,
        Hosted { printed: Seq::empty(), asked: Seq::empty(), fault: None },
    )
}

/// Whether the answers are such as the arithmetic returned for the
/// operations asked, one for one.
pub open spec fn answered<A: Fn(Opcode, Number, Number) -> Number>(
    arithmetic: &A,
    asked: Seq<(Opcode, Number, Number)>,
    answers: Seq<Number>,
) -> bool {
    &&& asked.len() == answers.len()
    &&& forall|i: int|
        0 <= i < asked.len() ==> arithmetic.ensures(
            ((#[trigger] asked[i]).0, asked[i].1, asked[i].2),
            answers[i],
        )
}

/// Whether a result is that of the given run.
pub open spec fn ran(result: InterpretResult, run: Hosted) -> bool {
    match result {
        Ok(printed) => run.fault.is_none() && values_view(printed@) == run.printed,
        Err(InterpretError::RuntimeError(error)) => run.fault == Some((error.line, error.message@)),
        Err(InterpretError::CompileError(_)) => false,
    }
}

/// Whether a result is that of running a chunk from its start with the
/// given answers, which are such as the arithmetic returned.
pub open spec fn executed<A: Fn(Opcode, Number, Number) -> Number>(
    result: InterpretResult,
    chunk: ChunkView,
    strings: Seq<Seq<u8>>,
    arithmetic: &A,
    fuel: nat,
    answers: Seq<Number>,
) -> bool {
    let run = hosted_run(chunk, strings, fuel, answers);
    answered(arithmetic, run.asked, answers) && ran(result, run)
}

/// Whether a result is that of compiling a text with the given values of
/// its numerals and, where no error was found, running the chunk with the
/// given answers.
pub open spec fn interpreted<P: Fn(&[u8]) -> Number, A: Fn(Opcode, Number, Number) -> Number>(
    result: InterpretResult,
    src: Seq<u8>,
    parse_number: &P,
    arithmetic: &A,
    fuel: nat,
    numerals: Seq<Numeral>,
    answers: Seq<Number>,
) -> bool {
    let end = compiled(src, numerals);
    &&& numerals_for(parse_number, src, numerals)
    &&& match result {
        Err(InterpretError::CompileError(error)) => end.had_error && error.diagnostics@
            == end.diagnostics,
        _ => !end.had_error && executed(
            result,
            ChunkView { code: end.code, constants: end.constants, lines: end.lines },
            end.strings,
            arithmetic,
            fuel,
            answers,
        ),
    }
}

/// Runs a chunk from its start for at most `fuel` steps and returns the
/// values it printed. Sums, differences, products and quotients are asked
/// of `arithmetic`.
pub fn execute<A: Fn(Opcode, Number, Number) -> Number>(
    chunk: &Chunk,
    strings: crate::bytecode::strings::InternMap,
    locals: crate::bytecode::variables::LocalMap,
    arithmetic: &A,
    fuel: usize,
) -> (result: InterpretResult)
    requires
        forall|op: Opcode, left: Number, right: Number| arithmetic.requires((op, left, right)),
    ensures
        exists|answers: Seq<Number>|
            #[trigger] executed(result, chunk@, strings@, arithmetic, fuel as nat, answers),
{
    let ghost table = strings@;
    let mut vm: VM = VM::new(chunk, strings, locals);
    let mut printed: Vec<Value> = Vec::new();
    let mut left: usize = fuel;
    let ghost mut answers: Seq<Number> = Seq::empty();
    let ghost mut so_far = Hosted { printed: Seq::empty(), asked: Seq::empty(), fault: None };
    let ghost start = vm@;
    let ghost empty = so_far;
    let ghost none = Seq::<Number>::empty();
    assert(values_view(printed@) =~= so_far.printed);
    assert forall|rest: Seq<Number>|
        hosted(chunk@, start, fuel as nat, answers + rest, empty) == hosted(
            chunk@,
            vm@,
            left as nat,
            rest,
            so_far,
        ) by {
        assert(answers + rest =~= rest);
    }
    while left > 0
        invariant
            vm.wf(),
            vm.program() == chunk@,
            forall|op: Opcode, l: Number, r: Number| arithmetic.requires((op, l, r)),
            values_view(printed@) == so_far.printed,
            so_far.fault.is_none(),
            answered(arithmetic, so_far.asked, answers),
            none == Seq::<Number>::empty(),
            table == strings@,
            empty == (Hosted { printed: Seq::empty(), asked: Seq::empty(), fault: None }),
            start == (Machine {
                ip: 0,
                stack: Seq::empty(),
                globals: Map::empty(),
                strings: table,
            }),
            forall|rest: Seq<Number>|
                #[trigger] hosted(chunk@, start, fuel as nat, answers + rest, empty) == hosted(
                    chunk@,
                    vm@,
                    left as nat,
                    rest,
                    so_far,
                ),
        decreases left,
    {
        let ghost before = vm@;
        let ghost before_answers = answers;
        let ghost before_so_far = so_far;
        proof {
            assert(answers + none =~= answers);
            assert(hosted(chunk@, start, fuel as nat, answers + none, empty) == hosted(
                chunk@,
                before,
                left as nat,
                none,
                so_far,
            ));
        }
        let result = vm.step();
        match result {
            Ok(Signal::Continue) => {
                proof {
                    assert forall|rest: Seq<Number>|
                        #[trigger] hosted(chunk@, start, fuel as nat, answers + rest, empty)
                            == hosted(chunk@, vm@, (left - 1) as nat, rest, so_far) by {
                        assert(hosted(chunk@, before, left as nat, rest, so_far) == hosted(
                            chunk@,
                            vm@,
                            (left - 1) as nat,
                            rest,
                            so_far,
                        ));
                    }
                }
            },
            Ok(Signal::Halt) => {
                proof {
                    assert(hosted(chunk@, before, left as nat, none, so_far) == so_far);
                    assert(hosted_run(chunk@, table, fuel as nat, answers) == so_far);
                    assert(executed(
                        Ok::<Vec<Value>, InterpretError>(printed),
                        chunk@,
                        table,
                        arithmetic,
                        fuel as nat,
                        answers,
                    ));
                }
                return Ok(printed);
            },
            Ok(Signal::Print(value)) => {
                proof {
                    lemma_view_push(printed@, value);
                    so_far = Hosted { printed: so_far.printed.push(value@), ..so_far };
                    assert forall|rest: Seq<Number>|
                        #[trigger] hosted(chunk@, start, fuel as nat, answers + rest, empty)
                            == hosted(chunk@, vm@, (left - 1) as nat, rest, so_far) by {
                        assert(hosted(chunk@, before, left as nat, rest, before_so_far) == hosted(
                            chunk@,
                            vm@,
                            (left - 1) as nat,
                            rest,
                            so_far,
                        ));
                    }
                }
                printed.push(value);
            },
            Ok(Signal::Arithmetic { op, left: l, right: r }) => {
                let answer: Number = arithmetic(op, l, r);
                let ghost asked_state = vm@;
                vm.supply(answer);
                proof {
                    answers = answers.push(answer);
                    so_far = Hosted { asked: so_far.asked.push((op, l, r)), ..so_far };
                    assert forall|rest: Seq<Number>|
                        #[trigger] hosted(chunk@, start, fuel as nat, answers + rest, empty)
                            == hosted(chunk@, vm@, (left - 1) as nat, rest, so_far) by {
                        let longer = seq![answer] + rest;
                        assert(answers + rest =~= before_answers + longer);
                        assert(longer.subrange(1, longer.len() as int) =~= rest);
                        assert(longer[0] == answer);
                        assert(hosted(chunk@, start, fuel as nat, before_answers + longer, empty)
                            == hosted(chunk@, before, left as nat, longer, before_so_far));
                        assert(hosted(chunk@, before, left as nat, longer, before_so_far)
                            == hosted(chunk@, vm@, (left - 1) as nat, rest, so_far));
                    }
                }
            },
            Err(error) => {
                proof {
                    let failed = Hosted { fault: Some((error.line, error.message@)), ..so_far };
                    assert(hosted(chunk@, before, left as nat, none, so_far) == failed);
                    assert(hosted_run(chunk@, table, fuel as nat, answers) == failed);
                    assert(executed(
                        Err::<Vec<Value>, InterpretError>(InterpretError::RuntimeError(error)),
                        chunk@,
                        table,
                        arithmetic,
                        fuel as nat,
                        answers,
                    ));
                }
                return Err(InterpretError::RuntimeError(error));
            },
        }
        left -= 1;
    }
    let error: RuntimeError = RuntimeError::new(chunk.line_at(vm.ip()), "Step limit reached");
    proof {
        assert(answers + none =~= answers);
        let failed = Hosted { fault: Some((error.line, error.message@)), ..so_far };
        assert(hosted(chunk@, start, fuel as nat, answers + none, empty) == hosted(
            chunk@,
            vm@,
            0,
            none,
            so_far,
        ));
        assert(hosted(chunk@, vm@, 0, none, so_far) == failed);
        assert(hosted_run(chunk@, table, fuel as nat, answers) == failed);
        assert(executed(
            Err::<Vec<Value>, InterpretError>(InterpretError::RuntimeError(error)),
            chunk@,
            table,
            arithmetic,
            fuel as nat,
            answers,
        ));
    }
    Err(InterpretError::RuntimeError(error))
}

/// Compiles a text and runs it for at most `fuel` steps. The values of
/// numerals are asked of `parse_number`, the results of arithmetic of
/// `arithmetic`. Returns the values printed. A text with a compile error is
/// not run.
pub fn interpret<P: Fn(&[u8]) -> Number, A: Fn(Opcode, Number, Number) -> Number>(
    src: &str,
    parse_number: &P,
    arithmetic: &A,
    fuel: usize,
) -> (result: InterpretResult)
    requires
        forall|text: &[u8]| parse_number.requires((text,)),
        forall|op: Opcode, left: Number, right: Number| arithmetic.requires((op, left, right)),
    ensures
        exists|numerals: Seq<Numeral>, answers: Seq<Number>|
            #[trigger] interpreted(
                result,
                Source { source: src }.bytes(),
                parse_number,
                arithmetic,
                fuel as nat,
                numerals,
                answers,
            ),
{
    let ghost text = Source { source: src }.bytes();
    let compilation = compile(src, parse_number);
    let ghost numerals = choose|numerals: Seq<Numeral>|
        numerals_for(parse_number, text, numerals) && result_of(
            compilation,
            compiled(text, numerals),
        );
    match compilation {
        Ok((chunk, strings, locals)) => {
            let ghost table = strings@;
            let result = execute(&chunk, strings, locals, arithmetic, fuel);
            proof {
                let answers = choose|answers: Seq<Number>|
                    executed(result, chunk@, table, arithmetic, fuel as nat, answers);
                assert(interpreted(
                    result,
                    text,
                    parse_number,
                    arithmetic,
                    fuel as nat,
                    numerals,
                    answers,
                ));
            }
            result
        },
        Err(err) => {
            proof {
                assert(interpreted(
                    Err::<Vec<Value>, InterpretError>(InterpretError::CompileError(err)),
                    text,
                    parse_number,
                    arithmetic,
                    fuel as nat,
                    numerals,
                    Seq::<Number>::empty(),
                ));
            }
            Err(InterpretError::CompileError(err))
        },
    }
}

} // verus!
