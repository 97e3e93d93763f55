//! A small scripting language with C-like syntax, lexical scoping and
//! first-class functions: scanner, recursive-descent parser, syntax tree,
//! scope chain and evaluator.
//!
//! The library holds no floating-point number and does no input or output.
//! A double is held as its IEEE-754 bit pattern. The evaluator is a machine
//! that does one piece of work with every `step` and tells its host what
//! it needs: a line printed, the clock read, or the sum, difference,
//! product or quotient of two doubles. The host also reads the numeric
//! literals of a source as doubles before the source is scanned.
#![allow(non_camel_case_types)]

use vstd::prelude::*;

pub mod token;
pub mod expression;
pub mod number;
pub mod text;
pub mod scanner;
pub mod grammar;
pub mod parser;
pub mod environment;
pub mod semantics;
pub mod interpreter;

use crate::expression::stmt_views;
use crate::grammar::ParseErrorView;
use crate::interpreter::{Interpreter, TaskView};
use crate::parser::{ParseError, Parser, parse_error_views};
use crate::scanner::{ScanError, Scanner, scan, scan_error_views};
use crate::token::ValueView;

verus! {

/// What running a source comes to before its first step: the machine, and
/// the errors that the scanner and the parser met.
pub struct Run {
    pub interpreter: Interpreter,
    pub scan_errors: Vec<ScanError>,
    pub parse_errors: Vec<ParseError>,
}

impl Run {
    /// Whether the source held an error.
    pub open spec fn failed(&self) -> bool {
        self.scan_errors.len() > 0 || self.parse_errors.len() > 0
    }

    /// Whether the source held an error.
    pub fn had_error(&self) -> (yes: bool)
        ensures
            yes == self.failed(),
    {
        self.scan_errors.len() > 0 || self.parse_errors.len() > 0
    }
}

/// Scans and parses a source and schedules its statements on a new
/// machine, which the host then drives step by step. `numbers` holds the
/// values of the source's numeric literals in the order in which they
/// occur. A source that holds a scan error or a syntax error is not
/// scheduled: its errors are returned and the machine has nothing to do.
pub fn run(source: &str, numbers: Vec<u64>) -> (outcome: Run)
    ensures
        outcome.interpreter.well_formed(),
        ({
            let scanned = scan(source@, numbers@);
            let parsed = grammar::program(scanned.tokens, Seq::empty(), 0);
            &&& scan_error_views(outcome.scan_errors@) == scanned.errors
            &&& parse_error_views(outcome.parse_errors@) == parsed.reports
            &&& outcome.interpreter@.tasks == if outcome.failed() {
                Seq::<TaskView>::empty()
            } else {
                seq![TaskView::Statements { statements: parsed.outcome->Ok_0, next: 0 }]
            }
        }),
        outcome.interpreter@.operands == Seq::<ValueView>::empty(),
        !outcome.interpreter@.waiting,
        outcome.interpreter@.scopes.size() == 1,
        outcome.interpreter@.scopes.cursor() == 0,
{
    let mut scanner = Scanner::with_numbers(source, numbers);
    let tokens = scanner.scan_tokens();
    let scan_errors = scanner.errors();
    let mut parser = Parser::new(&tokens);
    let statements = parser.parse();
    let parse_errors = parser.errors();
    let mut interpreter = Interpreter::new();
    proof {
        assert(parse_error_views(parse_errors@) =~= Seq::<ParseErrorView>::empty()
            + parse_error_views(parse_errors@));
        interpreter@.scopes.structure();
    }
    if scan_errors.len() == 0 && parse_errors.len() == 0 {
        interpreter.interpret(&statements);
        proof {
            assert(interpreter@.tasks =~= seq![
                TaskView::Statements { statements: stmt_views(statements), next: 0 },
            ]);
        }
    }
    Run { interpreter, scan_errors, parse_errors }
}

} // verus!
