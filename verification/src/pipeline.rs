//! The stages put together: from source text to a program that is ready to
//! run. A stage runs only if the stage before it met no error.

use vstd::prelude::*;
use crate::ast::AstView;
use crate::binding::{Resolution, resolve_program};
use crate::error::{LoxResult, LoxResultView, clone_errors, errors_view};
use crate::grammar::{Build, program};
use crate::interpreter::Interpreter;
use crate::machine::{FrameView, TaskView};
use crate::object::ObjectView;
use crate::parser::Parser;
use crate::resolver::Resolver;
use crate::scanner::{Scanner, lemma_scan_ends_with_eof, scan_all};
use crate::semantics::{MachineView, recorded_all};

verus! {

/// What becomes of a source text that is run on the state `state`: the
/// errors of the first stage that met one, or the state in which the
/// program is ready to run.
pub enum Loaded {
    /// Scanning failed; nothing has changed.
    ScanErrors(Seq<LoxResultView>),
    /// Parsing failed; the syntax tree has grown by what was parsed.
    ParseErrors(Seq<LoxResultView>, MachineView),
    /// Resolving failed; the syntax tree has grown by what was parsed.
    ResolveErrors(Seq<LoxResultView>, MachineView),
    /// The program is ready: its nodes are in the tree, the depths of its
    /// local names are recorded, and its statements are about to be
    /// executed.
    Ready(MachineView),
}

/// What becomes of `source` on the state `state`.
pub open spec fn load(state: MachineView, source: Seq<char>) -> Loaded {
    let scanned = scan_all(source, 0);
    if scanned.errors.len() > 0 {
        Loaded::ScanErrors(scanned.errors)
    } else {
        let parsed = program(
            scanned.tokens,
            0,
            Build { errors: seq![], exprs: state.ast.exprs, stmts: state.ast.stmts },
            seq![],
        );
        let ast = AstView { exprs: parsed.build.exprs, stmts: parsed.build.stmts };
        let grown = MachineView { ast, ..state };
        if parsed.build.errors.len() > 0 {
            Loaded::ParseErrors(parsed.build.errors, grown)
        } else {
            let stmts = parsed.value->Some_0;
            let resolved = resolve_program(ast, stmts, 0, Resolution::start());
            if resolved.errors.len() > 0 {
                Loaded::ResolveErrors(resolved.errors, grown)
            } else {
                Loaded::Ready(
                    MachineView {
                        locals: recorded_all(state.locals, resolved.locals, 0),
                        stack: state.stack.push(
                            FrameView::Program { stmts, next: 0, saved: state.environment },
                        ),
                        task: TaskView::Give(ObjectView::Nil),
                        ..grown
                    },
                )
            }
        }
    }
}

/// Scans, parses and resolves `source` and, if no stage met an error,
/// begins its run on `interpreter`: what is left to the host is to take
/// the steps. The errors of the stage that failed are returned; the stages
/// behind it do not run.
pub fn run(interpreter: &mut Interpreter, source: &str) -> (r: Result<(), Vec<LoxResult>>)
    requires
        old(interpreter).wf(),
        source@.len() < usize::MAX,
    ensures
        final(interpreter).wf(),
        match load(old(interpreter)@, source@) {
            Loaded::ScanErrors(errors) => final(interpreter)@ == old(interpreter)@ && r is Err
                && errors_view(r->Err_0@) == errors,
            Loaded::ParseErrors(errors, state) => final(interpreter)@ == state && r is Err
                && errors_view(r->Err_0@) == errors,
            Loaded::ResolveErrors(errors, state) => final(interpreter)@ == state && r is Err
                && errors_view(r->Err_0@) == errors,
            Loaded::Ready(state) => final(interpreter)@ == state && r is Ok,
        },
{
    let mut scanner = Scanner::new(source);
    let (tokens, scanned) = scanner.scan_tokens();
    if !scanned {
        return Err(clone_errors(scanner.recorded_errors()));
    }
    proof {
        lemma_scan_ends_with_eof(source@, 0);
    }
    let mut parser = Parser::with_ast(tokens, interpreter.take_ast());
    let stmts = parser.parse();
    let parsed = parser.success();
    let parse_errors = clone_errors(parser.errors());
    let ast = parser.into_ast();
    if !parsed {
        interpreter.set_ast(ast);
        return Err(parse_errors);
    }
    let mut resolver = Resolver::new();
    let _ = resolver.resolve(&ast, &stmts);
    interpreter.set_ast(ast);
    if !resolver.success() {
        return Err(clone_errors(resolver.errors()));
    }
    interpreter.resolve_all(resolver.locals());
    interpreter.interpret(stmts);
    Ok(())
}

} // verus!
