//! The interpreter: executes statements strictly in source order,
//! collecting the lines that print statements produce; the first
//! evaluation error aborts the rest.

use vstd::prelude::*;
use crate::evaluator::EvaluationError;
use crate::evaluator::Evaluator;
use crate::evaluator::spec_eval;
use crate::evaluator::spec_value_display;
use crate::expression::Statement;
use crate::expression::StmtV;

verus! {

/// What executing one statement yields: for a print statement the line
/// it writes, for a bare expression statement nothing.
pub open spec fn spec_execute(s: StmtV) -> Result<Option<Seq<char>>, EvaluationError> {
    match s {
        StmtV::PrintStmt { expression } => match spec_eval(expression) {
            Ok(v) => Ok(Some(spec_value_display(v))),
            Err(e) => Err(e),
        },
        StmtV::ExpressionStmt { expression } => match spec_eval(expression) {
            Ok(v) => Ok(None),
            Err(e) => Err(e),
        },
    }
}

/// The lines a statement sequence prints, in execution order; the first
/// evaluation error aborts the rest.
pub open spec fn spec_interpret(stmts: Seq<StmtV>) -> Result<Seq<Seq<char>>, EvaluationError>
    decreases stmts.len(),
{
    if stmts.len() == 0 {
        Ok(Seq::empty())
    } else {
        match spec_execute(stmts[0]) {
            Ok(line) => match spec_interpret(stmts.drop_first()) {
                Ok(rest) => match line {
                    Some(text) => Ok(seq![text] + rest),
                    None => Ok(rest),
                },
                Err(e) => Err(e),
            },
            Err(e) => Err(e),
        }
    }
}

/// The interpreter over a statement sequence.
pub struct Interpreter {
    pub statements: Vec<Statement>,
    pub evaluator: Evaluator,
}

impl Interpreter {
    pub fn new(statements: Vec<Statement>, evaluator: Evaluator) -> (r: Self)
        ensures
            r.statements == statements,
            r.evaluator == evaluator,
    {
        Self { statements, evaluator }
    }

    fn execute_statement(&self, statement: &Statement) -> (r: Result<
        Option<String>,
        EvaluationError,
    >)
        ensures
            ({
                let m = spec_execute(statement@);
                match r {
                    Ok(Some(line)) => m == Ok::<Option<Seq<char>>, EvaluationError>(
                        Some(line@),
                    ),
                    Ok(None) => m == Ok::<Option<Seq<char>>, EvaluationError>(None),
                    Err(e) => (m matches Err(me) && e == me),
                }
            }),
    {
        match statement {
            Statement::PrintStmt { expression } => {
                match self.evaluator.evaluate_expression(expression) {
                    Ok(value) => Ok(Some(value.display_text())),
                    Err(e) => Err(e),
                }
            },
            Statement::ExpressionStmt { expression } => {
                match self.evaluator.evaluate_expression(expression) {
                    Ok(_) => Ok(None),
                    Err(e) => Err(e),
                }
            },
        }
    }

    /// Executes the statements in order and hands back the printed
    /// lines: exactly those of the interpretation model
    /// `spec_interpret`.
    pub fn interpret(&self) -> (r: Result<Vec<String>, EvaluationError>)
        ensures
            ({
                let m = spec_interpret(self.statements@.map_values(|s: Statement| s@));
                match r {
                    Ok(lines) => (m matches Ok(ml) && lines.deep_view() == ml),
                    Err(e) => (m matches Err(me) && e == me),
                }
            }),
    {
        let ghost stmts = self.statements@.map_values(|s: Statement| s@);
        let mut output: Vec<String> = Vec::new();
        let mut i: usize = 0;
        proof {
            assert(stmts.skip(0) =~= stmts);
            assert(output.deep_view() =~= Seq::<Seq<char>>::empty());
            if spec_interpret(stmts) is Ok {
                assert(output.deep_view() + spec_interpret(stmts)->Ok_0 =~= spec_interpret(
                    stmts,
                )->Ok_0);
            }
        }

        while i < self.statements.len()
            invariant
                stmts == self.statements@.map_values(|s: Statement| s@),
                0 <= i <= self.statements.len(),
                ({
                    let rest = spec_interpret(stmts.skip(i as int));
                    match rest {
                        Ok(ml) => spec_interpret(stmts) == Ok::<Seq<Seq<char>>, EvaluationError>(
                            output.deep_view() + ml,
                        ),
                        Err(e) => spec_interpret(stmts) == Err::<
                            Seq<Seq<char>>,
                            EvaluationError,
                        >(e),
                    }
                }),
            decreases self.statements.len() - i,
        {
            let ghost out0 = output.deep_view();
            proof {
                assert(stmts.skip(i as int).len() > 0);
                assert(stmts.skip(i as int)[0] == stmts[i as int]);
                assert(stmts.skip(i as int).drop_first() =~= stmts.skip(i + 1int));
            }
            match self.execute_statement(&self.statements[i]) {
                Ok(Some(line)) => {
                    output.push(line);
                    proof {
                        assert(output.deep_view() =~= out0.push(line@));
                        if spec_interpret(stmts.skip(i + 1int)) is Ok {
                            assert(out0 + (seq![line@] + spec_interpret(
                                stmts.skip(i + 1int),
                            )->Ok_0) =~= output.deep_view() + spec_interpret(
                                stmts.skip(i + 1int),
                            )->Ok_0);
                        }
                    }
                },
                Ok(None) => {},
                Err(error) => {
                    return Err(error);
                },
            }
            i += 1;
        }

        proof {
            assert(stmts.skip(self.statements@.len() as int) =~= Seq::<StmtV>::empty());
            assert(output.deep_view() + Seq::<Seq<char>>::empty() =~= output.deep_view());
        }
        Ok(output)
    }
}

} // verus!
