//! The evaluation of statements and blocks.

use std::rc::Rc;
use vstd::prelude::*;
use crate::ast::{
    clone_names,
    clone_stmts,
    AssignOpKind,
    BinaryOpKind,
    Expr,
    FnDecl,
    IfElse,
    Program,
    Stmt,
    VarAssign,
    VarDecl,
    WhileLoop,
};
use crate::interpreter::callable::{Callable, Host, InterpretedFn};
use crate::interpreter::context::{BlockExit, Context};
use crate::interpreter::error::Error;
use crate::interpreter::heap::HeapItem;
use crate::interpreter::value::{Number, ShallowValue, Value};
use crate::interpreter::semantics::{
    block_evaluated,
    condition_of,
    declares,
    declares_fn,
    done,
    dropped,
    evals_block,
    evals_if_else,
    evals_program,
    evals_stmt,
    evals_var_assign,
    evals_var_decl,
    evals_while,
    gives,
    if_else_evaluated,
    last_round,
    loop_end,
    passes,
    program_evaluated,
    reaches_round,
    reaches_stmt,
    returned,
    round_completed,
    rounds_completed,
    stmt_completed,
    stmts_completed,
    traces_assign,
    traces_decl,
    traces_round,
    var_assign_evaluated,
    var_decl_evaluated,
    while_evaluated,
    AssignTrace,
    DeclTrace,
    RoundTrace,
};

verus! {

/// Whether a statement can end in `exit`: a declaration, an assignment and an expression
/// run to their end, a loop runs to its end or returns, `return`, `break` and `continue` end
/// as they say, and a conditional ends as its branch does.
pub open spec fn may_end_in(stmt: Stmt, exit: BlockExit) -> bool {
    match stmt {
        Stmt::VarDecl(_) | Stmt::VarAssign(_) | Stmt::FnDecl(_) | Stmt::Expr(_) => exit
            is Completed,
        Stmt::WhileLoop(_) => exit is Completed || exit is Returned,
        Stmt::BlockExit(crate::ast::BlockExit::FnReturn(Some(_))) => exit matches BlockExit::Returned(
            Some(_),
        ),
        Stmt::BlockExit(crate::ast::BlockExit::FnReturn(None)) => exit == BlockExit::Returned(None),
        Stmt::BlockExit(crate::ast::BlockExit::Break) => exit is Break,
        Stmt::BlockExit(crate::ast::BlockExit::Continue) => exit is Continue,
        Stmt::IfElse(_) => true,
    }
}

/// Decides how a loop goes on after its body ended in `exit`.
pub fn after_iteration(exit: BlockExit) -> (end: Option<BlockExit>)
    ensures
        end == loop_end(exit),
{
    match exit {
        BlockExit::Returned(returned) => Some(BlockExit::Returned(returned)),
        BlockExit::Break => Some(BlockExit::Completed),
        BlockExit::Continue | BlockExit::Completed => None,
    }
}

/// Reads a value as a condition.
pub fn truth_of(value: &Value) -> (truth: Result<bool, Error>)
    ensures
        truth == condition_of(*value),
{
    match value {
        Value::Bool(b) => Ok(*b),
        Value::Number(_) => Err(Error::TypeError(ShallowValue::Number, ShallowValue::Bool)),
        Value::String(_) => Err(Error::TypeError(ShallowValue::String, ShallowValue::Bool)),
        _ => Err(
            Error::InvalidBinaryOpArgs(value.as_shallow(), ShallowValue::Bool, BinaryOpKind::Equals),
        ),
    }
}

impl Context {
    /// Evaluates the statements of `program` in order, up to the first that leaves the block.
    ///
    /// The frames are afterwards what they were, also after a failure, and the bindings that
    /// there were still stand first: a program adds to them what it declares outside of any
    /// block.
    pub fn eval_program<H: Host>(&mut self, host: &mut H, program: &Program) -> (exit: Result<
        BlockExit,
        Error,
    >)
        requires
            old(self).wf(),
        ensures
            old(self).advances_to(final(self)),
            evals_program(*old(self), *program, *final(self), exit),
            exit matches Ok(e) ==> final(self).exit_is_live(e),
            program@.len() == 0 ==> exit == Ok::<BlockExit, Error>(BlockExit::Completed) && final(
                self).stack.values@ == old(self).stack.values@ && final(self).values == old(
                self).values && final(self).steps == old(self).steps,
        decreases old(self).steps, 2int, program, 0int,
    {
        let ghost start = *self;
        assert(start.stack.values@.subrange(0, start.stack.values@.len() as int)
            =~= start.stack.values@);
        let mut index: usize = 0;
        while index < program.len()
            invariant
                index <= program@.len(),
                start == *old(self),
                start.advances_to(self),
                index == 0 ==> self.stack.values@ == start.stack.values@ && self.values
                    == start.values && self.steps == start.steps,
                stmts_completed(start, *program, index as int, *self),
            decreases program@.len() - index,
        {
            let ghost before = *self;
            let exit = self.eval_stmt(host, &program[index]);
            proof {
                start.lemma_follows(&before, self);
            }
            match exit {
                Err(e) => {
                    proof {
                        assert(program_evaluated(start, *program, index as int, before, *self, exit));
                        assert(reaches_stmt(index as int, before));
                    }
                    return Err(e);
                },
                Ok(BlockExit::Completed) => {
                    proof {
                        assert(stmt_completed(start, *program, index + 1, before, *self));
                        assert(passes(before, *self));
                    }
                },
                Ok(left) => {
                    proof {
                        assert(program_evaluated(start, *program, index as int, before, *self, exit));
                        assert(reaches_stmt(index as int, before));
                    }
                    return Ok(left);
                },
            }
            index += 1;
        }
        proof {
            assert(program_evaluated(
                start,
                *program,
                index as int,
                *self,
                *self,
                Ok(BlockExit::Completed),
            ));
            assert(reaches_stmt(index as int, *self));
        }
        Ok(BlockExit::Completed)
    }

    /// Evaluates one statement.
    pub fn eval_stmt<H: Host>(&mut self, host: &mut H, stmt: &Stmt) -> (exit: Result<
        BlockExit,
        Error,
    >)
        requires
            old(self).wf(),
        ensures
            old(self).advances_to(final(self)),
            evals_stmt(*old(self), *stmt, *final(self), exit),
            exit matches Ok(e) ==> final(self).exit_is_live(e) && may_end_in(*stmt, e),
            stmt is BlockExit && !(stmt matches Stmt::BlockExit(
                crate::ast::BlockExit::FnReturn(Some(_)),
            )) ==> exit is Ok && final(self).stack.values@ == old(self).stack.values@ && final(
                self).values == old(self).values && final(self).steps == old(self).steps,
        decreases old(self).steps, 2int, stmt, 5int,
    {
        assert(self.stack.values@.subrange(0, self.stack.values@.len() as int)
            =~= self.stack.values@);
        match stmt {
            Stmt::VarDecl(var_decl) => {
                let result = self.eval_var_decl(host, var_decl);
                let exit = match result {
                    Ok(()) => Ok(BlockExit::Completed),
                    Err(e) => Err(e),
                };
                assert(exit == done(result));
                assert(evals_stmt(*old(self), *stmt, *self, exit));
                exit
            },
            Stmt::VarAssign(var_assign) => {
                let result = self.eval_var_assign(host, var_assign);
                let exit = match result {
                    Ok(()) => Ok(BlockExit::Completed),
                    Err(e) => Err(e),
                };
                assert(exit == done(result));
                assert(evals_stmt(*old(self), *stmt, *self, exit));
                exit
            },
            Stmt::FnDecl(fn_decl) => {
                let result = self.eval_fn_decl(fn_decl);
                let exit = match result {
                    Ok(()) => Ok(BlockExit::Completed),
                    Err(e) => Err(e),
                };
                assert(exit == done(result));
                assert(evals_stmt(*old(self), *stmt, *self, exit));
                exit
            },
            Stmt::Expr(expr) => {
                let value = self.eval_expr(host, expr);
                let exit = match value {
                    Ok(_) => Ok(BlockExit::Completed),
                    Err(e) => Err(e),
                };
                assert(exit == dropped(value));
                assert(evals_stmt(*old(self), *stmt, *self, exit));
                exit
            },
            Stmt::IfElse(if_else) => {
                let exit = self.eval_if_else(host, if_else);
                assert(evals_stmt(*old(self), *stmt, *self, exit));
                exit
            },
            Stmt::WhileLoop(while_loop) => {
                let exit = self.eval_while_loop(host, while_loop);
                assert(evals_stmt(*old(self), *stmt, *self, exit));
                exit
            },
            Stmt::BlockExit(block_exit) => match block_exit {
                crate::ast::BlockExit::FnReturn(Some(expr)) => {
                    let value = self.eval_expr(host, expr);
                    let exit = match value {
                        Ok(handle) => Ok(BlockExit::Returned(Some(handle))),
                        Err(e) => Err(e),
                    };
                    assert(exit == returned(value));
                    assert(evals_stmt(*old(self), *stmt, *self, exit));
                    exit
                },
                crate::ast::BlockExit::FnReturn(None) => Ok(BlockExit::Returned(None)),
                crate::ast::BlockExit::Break => Ok(BlockExit::Break),
                crate::ast::BlockExit::Continue => Ok(BlockExit::Continue),
            },
        }
    }

    /// Declares a variable: the collector runs where it is on, the initializer is evaluated,
    /// and the name, which must not be bound, is bound to its value, or to a copy where the
    /// value is a scalar.
    pub fn eval_var_decl<H: Host>(&mut self, host: &mut H, var_decl: &VarDecl) -> (done: Result<
        (),
        Error,
    >)
        requires
            old(self).wf(),
        ensures
            old(self).advances_to(final(self)),
            evals_var_decl(*old(self), *var_decl, *final(self), done),
            done is Ok ==> final(self).stack.values@.len() > 0 && final(
                self).stack.values@.last().0@ == var_decl.ident@,
        decreases old(self).steps, 1int, var_decl, 0int,
    {
        let ghost start = *self;
        if self.use_gc {
            self.collect_garbage();
        }
        assert(self.stack.values@.subrange(0, self.stack.values@.len() as int)
            =~= self.stack.values@);
        let ghost collected = *self;
        let value = match self.eval_expr(host, &var_decl.initializer) {
            Ok(value) => value,
            Err(e) => {
                proof {
                    let t = DeclTrace {
                        collected,
                        evaluated: *self,
                        value: Err(e),
                        copied: *self,
                        copy: HeapItem { index: 0 },
                    };
                    assert(var_decl_evaluated(start, *var_decl, t, *self, Err(e)));
                    assert(traces_decl(t));
                }
                return Err(e);
            },
        };
        let ghost evaluated = *self;
        if self.find_with_ident(var_decl.ident.as_str()).is_ok() {
            let failure = Error::Redeclaration(var_decl.ident.clone());
            proof {
                let t = DeclTrace {
                    collected,
                    evaluated,
                    value: Ok(value),
                    copied: *self,
                    copy: HeapItem { index: 0 },
                };
                assert(var_decl_evaluated(start, *var_decl, t, *self, Err(failure)));
                assert(traces_decl(t));
            }
            return Err(failure);
        }
        let bound = self.shallow_copy(value);
        let ghost copied = *self;
        self.stack.push_value(var_decl.ident.clone(), bound);
        proof {
            assert(self.stack.values@.subrange(0, copied.stack.values@.len() as int)
                =~= copied.stack.values@);
            assert(self.stack.values@.subrange(0, old(self).stack.values@.len() as int)
                =~= copied.stack.values@.subrange(0, old(self).stack.values@.len() as int));
            assert(self.stack.values@.drop_last() =~= copied.stack.values@);
            let t = DeclTrace { collected, evaluated, value: Ok(value), copied, copy: bound };
            assert(var_decl_evaluated(start, *var_decl, t, *self, Ok(())));
            assert(traces_decl(t));
        }
        Ok(())
    }

    /// Assigns: the value is evaluated, then the target, and the value, or what the operator
    /// makes of target and value, is written where the target is. Every holder of the
    /// target's handle sees it.
    pub fn eval_var_assign<H: Host>(&mut self, host: &mut H, var_assign: &VarAssign) -> (done:
        Result<(), Error>)
        requires
            old(self).wf(),
        ensures
            old(self).advances_to(final(self)),
            evals_var_assign(*old(self), *var_assign, *final(self), done),
        decreases old(self).steps, 1int, var_assign, 0int,
    {
        let base = self.temps.len();
        let ghost start = *self;
        let evaluated = match self.eval_expr(host, &var_assign.value) {
            Ok(value) => value,
            Err(e) => {
                proof {
                    let t = AssignTrace {
                        evaluated: *self,
                        value: Err(e),
                        copied: *self,
                        copy: HeapItem { index: 0 },
                        held: *self,
                        targeted: *self,
                        target: Err(e),
                        released: *self,
                    };
                    assert(var_assign_evaluated(start, *var_assign, t, *self, Err(e)));
                    assert(traces_assign(t));
                }
                return Err(e);
            },
        };
        let ghost first = *self;
        let new_value = self.shallow_copy(evaluated);
        let ghost second = *self;
        self.hold(new_value);
        let ghost third = *self;
        let target = match self.eval_expr(host, &var_assign.to) {
            Ok(target) => target,
            Err(e) => {
                let ghost failed = *self;
                self.release_to(base);
                proof {
                    assert(self.temps@ =~= start.temps@);
                    start.lemma_follows(&first, &second);
                    start.lemma_follows(&second, &failed);
                    let t = AssignTrace {
                        evaluated: first,
                        value: Ok(evaluated),
                        copied: second,
                        copy: new_value,
                        held: third,
                        targeted: failed,
                        target: Err(e),
                        released: *self,
                    };
                    assert(var_assign_evaluated(start, *var_assign, t, *self, Err(e)));
                    assert(traces_assign(t));
                }
                return Err(e);
            },
        };
        let ghost fourth = *self;
        assert(self.values.contains(self.temps@[base as int]));
        self.release_to(base);
        proof {
            assert(self.temps@ =~= start.temps@);
            start.lemma_follows(&first, &second);
            start.lemma_follows(&second, &fourth);
        }
        let ghost fifth = *self;
        let ghost t = AssignTrace {
            evaluated: first,
            value: Ok(evaluated),
            copied: second,
            copy: new_value,
            held: third,
            targeted: fourth,
            target: Ok(target),
            released: fifth,
        };
        let written = match var_assign.op {
            AssignOpKind::NoOp => {
                let copy = self.value_of(new_value).clone();
                proof {
                    let initial = self.values.value(new_value);
                    assert(copy.children() =~= initial.children());
                    assert forall|i: int| 0 <= i < copy.children().len() implies self.values.contains(
                        #[trigger] copy.children()[i],
                    ) by {
                        assert(self.values.contains(initial.children()[i]));
                    }
                }
                copy
            },
            AssignOpKind::Op(op) => match self.value_of(target).run_binary_op(
                self.value_of(new_value),
                op,
                &*host,
            ) {
                Ok(result) => result,
                Err(e) => {
                    proof {
                        assert(var_assign_evaluated(start, *var_assign, t, *self, Err(e)));
                        assert(traces_assign(t));
                    }
                    return Err(e);
                },
            },
        };
        self.store(target, written);
        proof {
            start.lemma_follows(&fifth, self);
            assert(var_assign_evaluated(start, *var_assign, t, *self, Ok(())));
            assert(traces_assign(t));
        }
        Ok(())
    }

    /// Declares a function: the name, which must not be bound, is bound to a callable that
    /// holds the parameters, the body and the height of the stack.
    pub fn eval_fn_decl(&mut self, fn_decl: &FnDecl) -> (done: Result<(), Error>)
        requires
            old(self).wf(),
        ensures
            old(self).advances_to(final(self)),
            declares_fn(*old(self), *fn_decl, *final(self), done),
            old(self).values.kept_by(&final(self).values),
    {
        assert(self.stack.values@.subrange(0, self.stack.values@.len() as int)
            =~= self.stack.values@);
        if self.find_with_ident(fn_decl.ident.as_str()).is_ok() {
            return Err(Error::Redeclaration(fn_decl.ident.clone()));
        }
        let function = InterpretedFn::new(
            self.stack.value_len(),
            clone_names(&fn_decl.prop_idents),
            clone_stmts(&fn_decl.body),
        );
        let handle = self.allocate(Value::Callable(Callable::Interpreted(Rc::new(function))));
        let ghost allocated = *self;
        self.stack.push_value(fn_decl.ident.clone(), handle);
        proof {
            assert(self.stack.values@.subrange(0, allocated.stack.values@.len() as int)
                =~= allocated.stack.values@);
            assert(self.stack.values@.drop_last() =~= allocated.stack.values@);
            assert(passes(allocated, *self));
        }
        Ok(())
    }

    /// Opens a frame, evaluates `body` in it and closes it again.
    pub fn eval_block<H: Host>(&mut self, host: &mut H, body: &Vec<Stmt>) -> (exit: Result<
        BlockExit,
        Error,
    >)
        requires
            old(self).wf(),
        ensures
            old(self).advances_to(final(self)),
            evals_block(*old(self), *body, *final(self), exit),
            final(self).stack.values@ == old(self).stack.values@,
            exit matches Ok(e) ==> final(self).exit_is_live(e),
        decreases old(self).steps, 2int, body, 1int,
    {
        let height = self.stack.value_len();
        self.stack.open_frame();
        let ghost opened = *self;
        assert(opened.wf());
        let exit = self.eval_program(host, body);
        let ghost evaluated = *self;
        self.stack.pop_frame();
        proof {
            assert(evaluated.stack.frames@ == old(self).stack.frames@.push(height));
            assert(evaluated.stack.frames@.last() == height);
            assert(evaluated.stack.values@.subrange(0, height as int) =~= opened.stack.values@);
            assert(self.stack.frames@ =~= old(self).stack.frames@);
            assert(self.stack.values@ =~= old(self).stack.values@);
            assert(self.stack.values@.subrange(0, self.stack.values@.len() as int)
                =~= self.stack.values@);
            assert(block_evaluated(*old(self), *body, opened, evaluated, *self, exit));
            assert(passes(opened, evaluated));
        }
        exit
    }

    /// Loops: while the condition is `true`, the body is evaluated in a frame of its own. A
    /// `break` ends the loop, a `continue` the iteration, a `return` the loop and what is
    /// around it. Each iteration takes a step.
    pub fn eval_while_loop<H: Host>(&mut self, host: &mut H, while_loop: &WhileLoop) -> (exit:
        Result<BlockExit, Error>)
        requires
            old(self).wf(),
        ensures
            old(self).advances_to(final(self)),
            evals_while(*old(self), *while_loop, *final(self), exit),
            exit matches Ok(e) ==> final(self).exit_is_live(e) && (e is Completed || e is Returned),
        decreases old(self).steps, 2int, while_loop, 0int,
    {
        let ghost start = *self;
        let ghost mut rounds: int = 0;
        assert(start.stack.values@.subrange(0, start.stack.values@.len() as int)
            =~= start.stack.values@);
        loop
            invariant
                start == *old(self),
                start.advances_to(self),
                0 <= rounds,
                rounds_completed(start, *while_loop, rounds, *self),
            decreases self.steps,
        {
            let ghost before = *self;
            let tested = self.eval_expr(host, &while_loop.condition);
            let ghost t = RoundTrace { before, tested: *self, condition: tested };
            proof {
                start.lemma_follows(&before, self);
            }
            let condition = match tested {
                Ok(condition) => condition,
                Err(e) => {
                    proof {
                        assert(while_evaluated(start, *while_loop, rounds, before, t, *self, Err(e)));
                        assert(reaches_round(rounds, before, t));
                    }
                    return Err(e);
                },
            };
            let truth = match truth_of(self.value_of(condition)) {
                Ok(truth) => truth,
                Err(e) => {
                    proof {
                        assert(while_evaluated(start, *while_loop, rounds, before, t, *self, Err(e)));
                        assert(reaches_round(rounds, before, t));
                    }
                    return Err(e);
                },
            };
            if !truth {
                proof {
                    assert(while_evaluated(
                        start,
                        *while_loop,
                        rounds,
                        before,
                        t,
                        *self,
                        Ok(BlockExit::Completed),
                    ));
                    assert(reaches_round(rounds, before, t));
                }
                return Ok(BlockExit::Completed);
            }
            if self.steps == 0 {
                proof {
                    assert(while_evaluated(
                        start,
                        *while_loop,
                        rounds,
                        before,
                        t,
                        *self,
                        Err(Error::StepLimitExceeded),
                    ));
                    assert(reaches_round(rounds, before, t));
                }
                return Err(Error::StepLimitExceeded);
            }
            self.steps = self.steps - 1;
            let ghost stepped = *self;
            assert(stepped == t.tested.stepped());
            let exit = self.eval_block(host, &while_loop.body);
            proof {
                start.lemma_follows(&stepped, self);
            }
            match exit {
                Err(e) => {
                    proof {
                        assert(last_round(exit) == Err::<BlockExit, Error>(e));
                        assert(while_evaluated(start, *while_loop, rounds, before, t, *self, Err(e)));
                        assert(reaches_round(rounds, before, t));
                    }
                    return Err(e);
                },
                Ok(body_exit) => match after_iteration(body_exit) {
                    Some(end) => {
                        proof {
                            assert(last_round(exit) == Ok::<BlockExit, Error>(end));
                            assert(while_evaluated(
                                start,
                                *while_loop,
                                rounds,
                                before,
                                t,
                                *self,
                                Ok(end),
                            ));
                            assert(reaches_round(rounds, before, t));
                        }
                        return Ok(end);
                    },
                    None => {
                        proof {
                            assert(loop_end(body_exit) is None);
                            assert(round_completed(start, *while_loop, rounds + 1, t, *self));
                            assert(traces_round(t));
                            rounds = rounds + 1;
                        }
                    },
                },
            }
        }
    }

    /// Branches: the condition must be a boolean; the branch that it selects is evaluated in
    /// a frame of its own, and how it ends is how the statement ends.
    pub fn eval_if_else<H: Host>(&mut self, host: &mut H, if_else: &IfElse) -> (exit: Result<
        BlockExit,
        Error,
    >)
        requires
            old(self).wf(),
        ensures
            old(self).advances_to(final(self)),
            evals_if_else(*old(self), *if_else, *final(self), exit),
            exit matches Ok(e) ==> final(self).exit_is_live(e),
        decreases old(self).steps, 2int, if_else, 0int,
    {
        let ghost start = *self;
        let tested = self.eval_expr(host, &if_else.condition);
        let ghost after_condition = *self;
        let condition = match tested {
            Ok(condition) => condition,
            Err(e) => {
                proof {
                    assert(if_else_evaluated(start, *if_else, *self, tested, *self, Err(e)));
                    assert(gives(*self, tested));
                }
                return Err(e);
            },
        };
        let truth = match truth_of(self.value_of(condition)) {
            Ok(truth) => truth,
            Err(e) => {
                proof {
                    assert(if_else_evaluated(start, *if_else, *self, tested, *self, Err(e)));
                    assert(gives(*self, tested));
                }
                return Err(e);
            },
        };
        let exit = if truth {
            self.eval_block(host, &if_else.true_branch)
        } else {
            self.eval_block(host, &if_else.else_branch)
        };
        proof {
            start.lemma_follows(&after_condition, self);
            assert(if_else_evaluated(start, *if_else, after_condition, tested, *self, exit));
            assert(gives(after_condition, tested));
        }
        exit
    }
}

} // verus!
