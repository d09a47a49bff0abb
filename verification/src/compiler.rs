//! The single-pass compiler: it pulls tokens from the scanner and emits
//! bytecode directly into the chunk of the function currently being compiled,
//! resolving scope (global against local), patching forward and backward
//! jumps, and nesting function compilations on a stack of compilation frames.

use vstd::prelude::*;

use crate::chunk::Chunk;
use crate::numerics::double_of_decimal;
use crate::numerics::num_parse;
use crate::opcode::OpCode;
use crate::opcode::spec_opcode_byte;
use crate::parse::ParseFn;
use crate::parse::ParsePrecedence;
use crate::parse::ParseRule;
use crate::parse::spec_prec;
use crate::scanner::Scanner;
use crate::scanner::skip_ws;
use crate::scanner::measure_eq;
use crate::scanner::measure_lt;
use crate::token::Token;
use crate::token::TokenType;
use crate::value::Function;
use crate::value::NativeFunction;
use crate::value::Value;
use crate::value::ValueV;
use crate::value::bytes_equal;
use crate::value::clone_bytes;

verus! {

broadcast use crate::scanner::lemma_count_gt_nonneg, crate::chunk::lemma_push_prefix, crate::chunk::lemma_prefix_trans;

/// A compile-time error: where it was reported and what it says.
#[derive(Clone, Copy, PartialEq, Eq, Debug)]
pub struct CompilerError {
    pub line: usize,
    pub start: usize,
    pub len: usize,
    pub message: &'static str,
}

/// A local variable at compile time. A depth of `None` marks one whose
/// initialiser is still being compiled, so that it cannot name itself.
#[derive(Clone, Copy)]
pub struct Local {
    pub token: Token,
    pub depth: Option<usize>,
}

/// One entry of the globals table: the identifier's text, whether its
/// declaration has been seen, and every token that referenced it before
/// that (checked at the end of the compile).
pub struct GlobalEntry {
    pub name: Vec<u8>,
    pub declared: bool,
    pub uses: Vec<Token>,
}

/// The compilation frame of one function: its locals, lexical depth, chunk
/// under construction, arity and name.
pub struct Funpiler {
    pub locals: Vec<Local>,
    pub scope_depth: usize,
    pub chunk: Chunk,
    pub arity: u8,
    pub name: Vec<u8>,
    /// Net change in run-time stack height caused by the code emitted so
    /// far, along the live (fall-through) path. Only opcode emission moves
    /// it; a local variable's slot counts until its scope is closed.
    pub effect: Ghost<int>,
}

/// What a successful compile yields: the synthetic top-level function, the
/// table of nested functions it refers to by index, how many global slots the
/// program uses, and the natives that were installed.
#[derive(Debug, PartialEq)]
pub struct CompilerOutput {
    pub script_function: Function,
    pub globals_count: usize,
    pub natives: Vec<NativeFunction>,
    pub functions: Vec<Function>,
}

/// The text a token covers.
pub open spec fn token_text(src: Seq<u8>, t: Token) -> Seq<u8> {
    src.subrange(t.start as int, t.start + t.length)
}

/// The token's span lies inside the source.
pub open spec fn token_ok(src: Seq<u8>, t: Token) -> bool {
    t.start + t.length <= src.len()
}

/// A chunk that ends with `Null` `Return`: however execution reaches the
/// end, the function returns.
pub open spec fn ends_null_return(bytes: Seq<u8>) -> bool {
    &&& bytes.len() >= 2
    &&& bytes[bytes.len() - 2] == spec_opcode_byte(OpCode::Null)
    &&& bytes[bytes.len() - 1] == spec_opcode_byte(OpCode::Return)
}

/// How one opcode moves the run-time stack height when it executes and
/// falls through: what it pushes minus what it pops. A jump taken does not
/// change the height at all, so the fall-through value covers both paths;
/// `Call`'s effect also depends on its operand and is accounted where it is
/// emitted; `Return` discards the frame it ends.
pub open spec fn op_effect(op: OpCode) -> int {
    match op {
        OpCode::Constant => 1,
        OpCode::Pop => -1,
        OpCode::Equal => -1,
        OpCode::Not => 0,
        OpCode::Greater => -1,
        OpCode::Less => -1,
        OpCode::Add => -1,
        OpCode::Subtract => -1,
        OpCode::Multiply => -1,
        OpCode::Divide => -1,
        OpCode::Negate => 0,
        OpCode::Return => -1,
        OpCode::Null => 1,
        OpCode::DefineGlobal => -1,
        OpCode::SetLocal => 0,
        OpCode::GetLocal => 1,
        OpCode::SetGlobal => 0,
        OpCode::GetGlobal => 1,
        OpCode::JumpIfFalse => 0,
        OpCode::Jump => 0,
        OpCode::JumpBack => 0,
        OpCode::True => 1,
        OpCode::False => 1,
        OpCode::Call => 0,
    }
}

/// The stack effect of one parse action: a prefix action leaves the value
/// it parsed (one push); an infix action folds the left value it was handed
/// into the result (net zero).
pub open spec fn parse_fn_effect(f: ParseFn) -> int {
    match f {
        ParseFn::Nothing => 0,
        ParseFn::Binary => 0,
        ParseFn::Call => 0,
        ParseFn::And => 0,
        ParseFn::Or => 0,
        ParseFn::Number => 1,
        ParseFn::Grouping => 1,
        ParseFn::Unary => 1,
        ParseFn::Variable => 1,
        ParseFn::String => 1,
        ParseFn::Literal => 1,
    }
}

/// What an expression or statement does to the emission-time stack
/// accounting when it compiled without a new error: the height grows by
/// exactly the number of locals it brought into scope. For a statement that
/// opens and closes its own scopes the two sides are both zero — every push
/// is matched by a pop, a branch or a return.
pub open spec fn balanced_emission(pre: Funpiler, post: Funpiler, extra: int) -> bool {
    post.effect@ - pre.effect@ == post.locals@.len() - pre.locals@.len() + extra
}

impl Funpiler {
    pub fn new() -> (f: Funpiler)
        ensures
            f.chunk@.wf(),
            f.chunk@.bytes.len() == 0,
            f.chunk@.constants.len() == 0,
            f.locals@.len() == 0,
            f.scope_depth == 0,
            f.arity == 0,
            f.name@.len() == 0,
            f.effect@ == 0,
    {
        Funpiler {
            locals: Vec::new(),
            scope_depth: 0,
            chunk: Chunk::new(),
            arity: 0,
            name: Vec::new(),
            effect: Ghost(0),
        }
    }

    /// The frame's bookkeeping stays inside the machine's limits and inside
    /// the source.
    pub open spec fn wf(self, src: Seq<u8>) -> bool {
        &&& self.chunk@.wf()
        &&& self.locals@.len() <= 255
        &&& (forall|i: int| 0 <= i < self.locals@.len() ==> token_ok(src, #[trigger] self.locals@[i].token))
    }
}

pub struct Compiler {
    pub scanner: Scanner,
    pub source: Vec<u8>,
    pub previous_token: Token,
    pub current_token: Token,
    pub had_error: bool,
    pub panic_mode: bool,
    pub errors: Vec<CompilerError>,
    /// The globals table; an identifier's slot is its position here.
    pub globals: Vec<GlobalEntry>,
    /// The function currently being compiled...
    pub funpiler: Funpiler,
    /// ...and the enclosing ones, suspended; the bottom entry is a sentinel.
    pub funpiler_stack: Vec<Funpiler>,
    pub natives: Vec<NativeFunction>,
    /// Nested functions already compiled, referred to by index.
    pub functions: Vec<Function>,
}

impl Compiler {
    pub open spec fn src(self) -> Seq<u8> {
        self.source@
    }

    pub open spec fn wf(self) -> bool {
        &&& self.scanner.wf()
        &&& self.scanner.source@ == self.source@
        &&& token_ok(self.src(), self.current_token)
        &&& token_ok(self.src(), self.previous_token)
        &&& (self.current_token.token_type == TokenType::Eof ==> self.scanner.next
            == self.src().len() && self.scanner.indent_target == self.scanner.stack().last())
        &&& self.funpiler.wf(self.src())
        &&& (forall|i: int|
            0 <= i < self.funpiler_stack@.len() ==> (#[trigger] self.funpiler_stack@[i]).wf(
                self.src(),
            ))
        &&& self.globals@.len() <= 256
        &&& (forall|i: int, j: int|
            0 <= i < j < self.globals@.len() ==> (#[trigger] self.globals@[i].name@) != (
            #[trigger] self.globals@[j].name@))
        &&& (self.had_error <==> self.errors@.len() > 0)
        &&& (forall|k: int|
            0 <= k < self.errors@.len() ==> (#[trigger] self.errors@[k]).start
                + self.errors@[k].len <= self.src().len())
        &&& (forall|g: int, j: int|
            0 <= g < self.globals@.len() && 0 <= j < self.globals@[g].uses@.len() ==> token_ok(
                self.src(),
                #[trigger] self.globals@[g].uses@[j],
            ))
        &&& (self.panic_mode ==> self.had_error)
        &&& (forall|i: int|
            0 <= i < self.functions@.len() ==> (#[trigger] self.functions@[i])@.chunk.wf()
                && ends_null_return(self.functions@[i]@.chunk.bytes))
    }

    /// The measure under which compilation consumes its input: the scanner's
    /// own measure, then whether a token is still buffered.
    pub open spec fn cur_flag(self) -> int {
        if self.current_token.token_type != TokenType::Eof {
            1int
        } else {
            0int
        }
    }
}

/// The compiler's input measure shrinks strictly.
pub open spec fn fuel_lt(post: Compiler, pre: Compiler) -> bool {
    ||| measure_lt(post.scanner, pre.scanner)
    ||| (measure_eq(post.scanner, pre.scanner) && post.cur_flag() < pre.cur_flag())
}

pub open spec fn fuel_le(post: Compiler, pre: Compiler) -> bool {
    ||| fuel_lt(post, pre)
    ||| (measure_eq(post.scanner, pre.scanner) && post.cur_flag() == pre.cur_flag())
}

/// Errors are only ever appended: what was reported stays reported.
pub open spec fn errors_extended(pre: Compiler, post: Compiler) -> bool {
    pre.errors@.is_prefix_of(post.errors@)
}

/// The parts of the compiler that the token plumbing never touches.
pub open spec fn same_tables(pre: Compiler, post: Compiler) -> bool {
    &&& post.source == pre.source
    &&& post.globals == pre.globals
    &&& post.funpiler == pre.funpiler
    &&& post.funpiler_stack == pre.funpiler_stack
    &&& post.natives == pre.natives
    &&& post.functions == pre.functions
}

impl Compiler {
    pub fn new(source: Vec<u8>) -> (c: Compiler)
        requires
            4 * source@.len() <= usize::MAX as int,
        ensures
            c.wf(),
            c.src() == source@,
            c.errors@.len() == 0,
            c.globals@.len() == 0,
            c.natives@.len() == 0,
            c.functions@.len() == 0,
            !c.had_error,
    {
        let scanner_source = clone_bytes(&source);
        let funpiler_stack: Vec<Funpiler> = Vec::new();
        Compiler {
            scanner: Scanner::new(scanner_source),
            source,
            previous_token: Token::new(TokenType::Error, 0, 0, 0),
            current_token: Token::new(TokenType::Error, 0, 0, 0),
            had_error: false,
            panic_mode: false,
            errors: Vec::new(),
            globals: Vec::new(),
            funpiler: Funpiler::new(),
            funpiler_stack,
            natives: Vec::new(),
            functions: Vec::new(),
        }
    }

    // -----------------------------------------------------------------------
    // Error reporting
    // -----------------------------------------------------------------------

    /// Records an error at a token, unless panic mode is suppressing the
    /// cascade that follows an earlier one.
    fn error_at(&mut self, token: Token, message: &'static str)
        requires
            old(self).wf(),
            token_ok(old(self).src(), token),
        ensures
            final(self).wf(),
            errors_extended(*old(self), *final(self)),
            final(self).scanner == old(self).scanner,
            final(self).current_token == old(self).current_token,
            final(self).previous_token == old(self).previous_token,
            same_tables(*old(self), *final(self)),
            final(self).had_error,
            final(self).panic_mode,
            !old(self).panic_mode ==> final(self).errors@ == old(self).errors@.push(
                CompilerError {
                    line: token.line,
                    start: token.start,
                    len: token.length,
                    message,
                },
            ),
            old(self).panic_mode ==> final(self).errors@ == old(self).errors@,
    {
        if self.panic_mode {
            return ;
        }
        self.panic_mode = true;
        self.errors.push(
            CompilerError { line: token.line, start: token.start, len: token.length, message },
        );
        self.had_error = true;
    }

    fn error_at_current(&mut self, message: &'static str)
        requires
            old(self).wf(),
        ensures
            final(self).wf(),
            errors_extended(*old(self), *final(self)),
            final(self).scanner == old(self).scanner,
            final(self).current_token == old(self).current_token,
            final(self).previous_token == old(self).previous_token,
            same_tables(*old(self), *final(self)),
            final(self).had_error,
    {
        let token = self.current_token;
        self.error_at(token, message);
    }

    fn error_at_previous(&mut self, message: &'static str)
        requires
            old(self).wf(),
        ensures
            final(self).wf(),
            errors_extended(*old(self), *final(self)),
            final(self).scanner == old(self).scanner,
            final(self).current_token == old(self).current_token,
            final(self).previous_token == old(self).previous_token,
            same_tables(*old(self), *final(self)),
            final(self).had_error,
    {
        let token = self.previous_token;
        self.error_at(token, message);
    }

    // -----------------------------------------------------------------------
    // Token plumbing
    // -----------------------------------------------------------------------

    /// Pulls the next token. Error tokens from the scanner are reported as
    /// compile errors and skipped, so the parser only ever sees good tokens.
    fn advance(&mut self)
        requires
            old(self).wf(),
        ensures
            final(self).wf(),
            errors_extended(*old(self), *final(self)),
            same_tables(*old(self), *final(self)),
            final(self).previous_token == old(self).current_token,
            final(self).current_token.token_type != TokenType::Error,
            fuel_le(*final(self), *old(self)),
            old(self).current_token.token_type != TokenType::Eof ==> fuel_lt(
                *final(self),
                *old(self),
            ),
            old(self).current_token.token_type == TokenType::Eof ==> final(self).current_token.token_type
                == TokenType::Eof && measure_eq(final(self).scanner, old(self).scanner)
                && final(self).errors == old(self).errors && final(self).panic_mode == old(self).panic_mode && final(self).had_error == old(self).had_error,
    {
        self.previous_token = self.current_token;
        loop
            invariant
                self.wf(),
                errors_extended(*old(self), *self),
                same_tables(*old(self), *self),
                self.previous_token == old(self).current_token,
                fuel_le(*self, *old(self)),
                old(self).current_token.token_type != TokenType::Eof ==> fuel_lt(
                    *self,
                    *old(self),
                ) || (self.current_token == old(self).current_token && self.previous_token
                    == old(self).previous_token && measure_eq(self.scanner, old(self).scanner))
                    || self.previous_token == old(self).current_token,
                old(self).current_token.token_type == TokenType::Eof ==> self.current_token.token_type
                    == TokenType::Eof && measure_eq(self.scanner, old(self).scanner) && self.errors
                    == old(self).errors && self.panic_mode == old(self).panic_mode
                    && self.had_error == old(self).had_error,
            ensures
                self.wf(),
                errors_extended(*old(self), *self),
                same_tables(*old(self), *self),
                self.previous_token == old(self).current_token,
                self.current_token.token_type != TokenType::Error,
                fuel_le(*self, *old(self)),
                old(self).current_token.token_type != TokenType::Eof ==> fuel_lt(
                    *self,
                    *old(self),
                ),
                old(self).current_token.token_type == TokenType::Eof ==> self.current_token.token_type
                    == TokenType::Eof && measure_eq(self.scanner, old(self).scanner) && self.errors
                    == old(self).errors && self.panic_mode == old(self).panic_mode
                    && self.had_error == old(self).had_error,
            decreases self.scanner.dec1(), self.scanner.dec2(), self.scanner.dec3(),
        {
            let ghost before = *self;
            let token = self.scanner.scan_token();
            self.current_token = token;
            proof {
                if old(self).current_token.token_type == TokenType::Eof {
                    assert(before.scanner.indent_target == before.scanner.stack().last());
                    assert(skip_ws(before.scanner.source@, before.scanner.next as int)
                        == before.scanner.next as int);
                }
            }
            if self.current_token.token_type != TokenType::Error {
                break ;
            }
            let message = self.scanner.last_error_message();
            self.error_at(token, message);
        }
    }

    fn check_token(&self, token_type: TokenType) -> (r: bool)
        ensures
            r == (self.current_token.token_type == token_type),
    {
        self.current_token.token_type == token_type
    }

    /// Consumes the current token when it matches.
    fn match_token(&mut self, token_type: TokenType) -> (r: bool)
        requires
            old(self).wf(),
        ensures
            final(self).wf(),
            errors_extended(*old(self), *final(self)),
            same_tables(*old(self), *final(self)),
            r == (old(self).current_token.token_type == token_type),
            fuel_le(*final(self), *old(self)),
            r ==> final(self).previous_token == old(self).current_token,
            (r && token_type != TokenType::Eof) ==> fuel_lt(*final(self), *old(self)),
            (r && token_type == TokenType::Eof) ==> final(self).current_token.token_type
                == TokenType::Eof,
            !r ==> *final(self) == *old(self),
    {
        if self.check_token(token_type) == false {
            return false;
        }
        self.advance();
        true
    }

    /// Requires the current token to be of the given kind and consumes it,
    /// reporting `message` otherwise.
    fn consume(&mut self, token_type: TokenType, message: &'static str)
        requires
            old(self).wf(),
        ensures
            final(self).wf(),
            errors_extended(*old(self), *final(self)),
            same_tables(*old(self), *final(self)),
            fuel_le(*final(self), *old(self)),
            (old(self).current_token.token_type == token_type && token_type != TokenType::Eof)
                ==> fuel_lt(*final(self), *old(self)),
    {
        if self.current_token.token_type == token_type {
            self.advance();
            return ;
        }
        self.error_at_current(message);
    }

    /// Statements are terminated by a newline; the end of the source closes
    /// the last statement just as well.
    fn consume_newline(&mut self, message: &'static str)
        requires
            old(self).wf(),
        ensures
            final(self).wf(),
            errors_extended(*old(self), *final(self)),
            same_tables(*old(self), *final(self)),
            fuel_le(*final(self), *old(self)),
    {
        if self.current_token.token_type == TokenType::NewLine {
            self.advance();
            return ;
        }
        if self.current_token.token_type == TokenType::Eof {
            return ;
        }
        self.error_at_current(message);
    }

    /// After an error, discards tokens until a statement boundary so that one
    /// mistake does not drown the rest of the file in messages. Fresh lexical
    /// errors met along the way are still reported.
    fn synchronise(&mut self)
        requires
            old(self).wf(),
        ensures
            final(self).wf(),
            errors_extended(*old(self), *final(self)),
            same_tables(*old(self), *final(self)),
            fuel_le(*final(self), *old(self)),
    {
        self.panic_mode = false;
        loop
            invariant
                self.wf(),
                errors_extended(*old(self), *self),
                same_tables(*old(self), *self),
                fuel_le(*self, *old(self)),
            ensures
                self.wf(),
                errors_extended(*old(self), *self),
                same_tables(*old(self), *self),
                fuel_le(*self, *old(self)),
            decreases
                    self.scanner.dec1(),
                    self.scanner.dec2(),
                    self.scanner.dec3(),
                    self.cur_flag(),
        {
            if self.current_token.token_type == TokenType::Eof {
                return ;
            }
            if self.previous_token.token_type == TokenType::NewLine {
                return ;
            }
            match self.current_token.token_type {
                TokenType::Fn => {
                    return ;
                },
                TokenType::Var => {
                    return ;
                },
                TokenType::For => {
                    return ;
                },
                TokenType::If => {
                    return ;
                },
                TokenType::While => {
                    return ;
                },
                TokenType::Return => {
                    return ;
                },
                _ => {},
            }
            self.advance();
        }
    }

    // -----------------------------------------------------------------------
    // Emission
    // -----------------------------------------------------------------------

    fn emit_byte(&mut self, byte: u8)
        requires
            old(self).wf(),
        ensures
            final(self).wf(),
            final(self).funpiler.chunk@.bytes == old(self).funpiler.chunk@.bytes.push(byte),
            final(self).funpiler.chunk@.constants == old(self).funpiler.chunk@.constants,
            *final(self) == (Compiler { funpiler: final(self).funpiler, ..*old(self) }),
            final(self).funpiler == (Funpiler { chunk: final(self).funpiler.chunk, ..old(self).funpiler }),
    {
        let line = self.previous_token.line;
        self.funpiler.chunk.write_byte(byte, line);
    }

    fn emit_op(&mut self, code: OpCode)
        requires
            old(self).wf(),
        ensures
            final(self).wf(),
            final(self).funpiler.chunk@.bytes == old(self).funpiler.chunk@.bytes.push(
                spec_opcode_byte(code),
            ),
            final(self).funpiler.chunk@.constants == old(self).funpiler.chunk@.constants,
            *final(self) == (Compiler { funpiler: final(self).funpiler, ..*old(self) }),
            final(self).funpiler == (Funpiler {
                chunk: final(self).funpiler.chunk,
                effect: final(self).funpiler.effect,
                ..old(self).funpiler
            }),
            final(self).funpiler.effect@ == old(self).funpiler.effect@ + op_effect(code),
    {
        let b = code.as_byte();
        self.emit_byte(b);
        proof {
            self.funpiler.effect@ = self.funpiler.effect@ + op_effect(code);
        }
    }

    fn emit_ops(&mut self, op1: OpCode, op2: OpCode)
        requires
            old(self).wf(),
        ensures
            final(self).wf(),
            final(self).funpiler.chunk@.bytes == old(self).funpiler.chunk@.bytes.push(
                spec_opcode_byte(op1),
            ).push(spec_opcode_byte(op2)),
            final(self).funpiler.chunk@.constants == old(self).funpiler.chunk@.constants,
            *final(self) == (Compiler { funpiler: final(self).funpiler, ..*old(self) }),
            final(self).funpiler == (Funpiler {
                chunk: final(self).funpiler.chunk,
                effect: final(self).funpiler.effect,
                ..old(self).funpiler
            }),
            final(self).funpiler.effect@ == old(self).funpiler.effect@ + op_effect(op1)
                + op_effect(op2),
    {
        self.emit_op(op1);
        self.emit_op(op2);
    }

    fn emit_bytes(&mut self, byte1: u8, byte2: u8)
        requires
            old(self).wf(),
        ensures
            final(self).wf(),
            final(self).funpiler.chunk@.bytes == old(self).funpiler.chunk@.bytes.push(byte1).push(
                byte2,
            ),
            final(self).funpiler.chunk@.constants == old(self).funpiler.chunk@.constants,
            *final(self) == (Compiler { funpiler: final(self).funpiler, ..*old(self) }),
            final(self).funpiler == (Funpiler { chunk: final(self).funpiler.chunk, ..old(self).funpiler }),
    {
        self.emit_byte(byte1);
        self.emit_byte(byte2);
    }
}

impl Compiler {
    // -----------------------------------------------------------------------
    // Constants and jumps
    // -----------------------------------------------------------------------

    /// Adds a constant to the current chunk, reporting an error when the pool
    /// outgrows what a one-byte index can name.
    fn make_constant(&mut self, value: Value) -> (index: u8)
        requires
            old(self).wf(),
        ensures
            final(self).wf(),
            errors_extended(*old(self), *final(self)),
            final(self).scanner == old(self).scanner,
            final(self).current_token == old(self).current_token,
            final(self).previous_token == old(self).previous_token,
            final(self).funpiler.chunk@.bytes == old(self).funpiler.chunk@.bytes,
            old(self).funpiler.chunk@.constants.len() <= 255 ==> final(self).funpiler.chunk@.constants == old(self).funpiler.chunk@.constants.push(value@)
                && index == old(self).funpiler.chunk@.constants.len(),
            old(self).funpiler.chunk@.constants.len() > 255 ==> final(self).had_error,
            final(self).source == old(self).source && final(self).globals == old(self).globals
                && final(self).funpiler_stack == old(self).funpiler_stack && final(self).natives
                == old(self).natives && final(self).functions == old(self).functions,
            final(self).funpiler.locals == old(self).funpiler.locals && final(self).funpiler.scope_depth == old(self).funpiler.scope_depth && final(self).funpiler.arity
                == old(self).funpiler.arity && final(self).funpiler.name == old(self).funpiler.name,
            final(self).funpiler.effect == old(self).funpiler.effect,
    {
        if self.funpiler.chunk.constants.len() > 255 {
            self.error_at_current("Too many constants in one chunk. Max 256.");
            return 0;
        }
        let constant_index = self.funpiler.chunk.write_constant(value);
        constant_index as u8
    }

    /// Emits `Constant` with the new constant's index.
    fn emit_constant(&mut self, value: Value)
        requires
            old(self).wf(),
        ensures
            final(self).wf(),
            errors_extended(*old(self), *final(self)),
            final(self).scanner == old(self).scanner,
            final(self).current_token == old(self).current_token,
            final(self).previous_token == old(self).previous_token,
            final(self).funpiler.chunk@.bytes.len() == old(self).funpiler.chunk@.bytes.len() + 2,
            final(self).funpiler.chunk@.bytes[final(self).funpiler.chunk@.bytes.len() - 2]
                == spec_opcode_byte(OpCode::Constant),
            old(self).funpiler.chunk@.bytes.is_prefix_of(final(self).funpiler.chunk@.bytes),
            old(self).funpiler.chunk@.constants.len() <= 255 ==> final(self).funpiler.chunk@.constants == old(self).funpiler.chunk@.constants.push(value@)
                && final(self).funpiler.chunk@.bytes == old(self).funpiler.chunk@.bytes.push(
                spec_opcode_byte(OpCode::Constant),
            ).push(old(self).funpiler.chunk@.constants.len() as u8),
            old(self).funpiler.chunk@.constants.len() > 255 ==> final(self).had_error,
            final(self).source == old(self).source && final(self).globals == old(self).globals
                && final(self).funpiler_stack == old(self).funpiler_stack && final(self).natives
                == old(self).natives && final(self).functions == old(self).functions,
            final(self).funpiler.locals == old(self).funpiler.locals && final(self).funpiler.scope_depth == old(self).funpiler.scope_depth && final(self).funpiler.arity
                == old(self).funpiler.arity && final(self).funpiler.name == old(self).funpiler.name,
            final(self).funpiler.effect@ == old(self).funpiler.effect@ + 1,
    {
        self.emit_op(OpCode::Constant);
        let constant_index = self.make_constant(value);
        self.emit_byte(constant_index);
        proof {
            assert(old(self).funpiler.chunk@.bytes.is_prefix_of(
                final(self).funpiler.chunk@.bytes,
            )) by {
                assert(final(self).funpiler.chunk@.bytes.subrange(
                    0,
                    old(self).funpiler.chunk@.bytes.len() as int,
                ) =~= old(self).funpiler.chunk@.bytes);
            }
        }
    }

    /// Emits a forward jump with a two-byte placeholder and hands back the
    /// placeholder's offset for `patch_jump`.
    fn emit_jump(&mut self, jump_op: OpCode) -> (offset: usize)
        requires
            old(self).wf(),
        ensures
            final(self).wf(),
            errors_extended(*old(self), *final(self)),
            final(self).scanner == old(self).scanner,
            final(self).current_token == old(self).current_token,
            final(self).previous_token == old(self).previous_token,
            final(self).errors == old(self).errors,
            final(self).funpiler.chunk@.bytes == old(self).funpiler.chunk@.bytes.push(
                spec_opcode_byte(jump_op),
            ).push(0).push(0),
            final(self).funpiler.chunk@.constants == old(self).funpiler.chunk@.constants,
            offset == old(self).funpiler.chunk@.bytes.len() + 1,
            offset + 2 == final(self).funpiler.chunk@.bytes.len(),
            final(self).source == old(self).source && final(self).globals == old(self).globals
                && final(self).funpiler_stack == old(self).funpiler_stack && final(self).natives
                == old(self).natives && final(self).functions == old(self).functions,
            final(self).funpiler.locals == old(self).funpiler.locals && final(self).funpiler.scope_depth == old(self).funpiler.scope_depth && final(self).funpiler.arity
                == old(self).funpiler.arity && final(self).funpiler.name == old(self).funpiler.name,
            final(self).funpiler.effect@ == old(self).funpiler.effect@ + op_effect(jump_op),
    {
        self.emit_op(jump_op);
        self.emit_byte(0);
        self.emit_byte(0);
        self.funpiler.chunk.bytes.len() - 2
    }

    /// Fills a forward jump's placeholder with the distance from just past
    /// the placeholder to the current end of the chunk, big-endian. A
    /// distance beyond what two bytes can hold is an error, never a silent
    /// truncation.
    fn patch_jump(&mut self, offset: usize)
        requires
            old(self).wf(),
            offset + 2 <= old(self).funpiler.chunk@.bytes.len(),
        ensures
            final(self).wf(),
            errors_extended(*old(self), *final(self)),
            final(self).scanner == old(self).scanner,
            final(self).current_token == old(self).current_token,
            final(self).previous_token == old(self).previous_token,
            final(self).funpiler.chunk@.bytes.len() == old(self).funpiler.chunk@.bytes.len(),
            final(self).funpiler.chunk@.constants == old(self).funpiler.chunk@.constants,
            ({
                let jump = old(self).funpiler.chunk@.bytes.len() - offset - 2;
                &&& (jump <= 0xffff ==> final(self).funpiler.chunk@.bytes == old(self).funpiler.chunk@.bytes.update(offset as int, (jump / 256) as u8).update(
                    offset + 1,
                    (jump % 256) as u8,
                ) && (final(self).funpiler.chunk@.bytes[offset as int] * 256 + final(self).funpiler.chunk@.bytes[offset + 1]) == jump)
                &&& (jump > 0xffff ==> final(self).had_error && final(self).funpiler.chunk@.bytes == old(self).funpiler.chunk@.bytes)
            }),
            final(self).source == old(self).source && final(self).globals == old(self).globals
                && final(self).funpiler_stack == old(self).funpiler_stack && final(self).natives
                == old(self).natives && final(self).functions == old(self).functions,
            final(self).funpiler.locals == old(self).funpiler.locals && final(self).funpiler.scope_depth == old(self).funpiler.scope_depth && final(self).funpiler.arity
                == old(self).funpiler.arity && final(self).funpiler.name == old(self).funpiler.name,
            final(self).funpiler.effect == old(self).funpiler.effect,
    {
        let jump = self.funpiler.chunk.bytes.len() - offset - 2;

        if jump > 0xffff {
            self.error_at_current("Too much code to jump over.");
            return ;
        }
        let high = (jump >> 8) as u8;
        let low = (jump & 0xff) as u8;
        proof {
            assert(high == jump / 256 && low == jump % 256 && jump / 256 < 256) by (bit_vector)
                requires
                    jump <= 0xffff,
                    high == (jump >> 8) as u8,
                    low == (jump & 0xff) as u8,
            ;
        }
        self.funpiler.chunk.patch_byte(offset, high);
        self.funpiler.chunk.patch_byte(offset + 1, low);
    }

    /// Emits `JumpBack` with the distance back to `landing`, measured from
    /// just past the operand, big-endian; a distance two bytes cannot hold is
    /// an error.
    fn emit_back_jump(&mut self, landing: usize)
        requires
            old(self).wf(),
            landing <= old(self).funpiler.chunk@.bytes.len(),
        ensures
            final(self).wf(),
            errors_extended(*old(self), *final(self)),
            final(self).scanner == old(self).scanner,
            final(self).current_token == old(self).current_token,
            final(self).previous_token == old(self).previous_token,
            final(self).funpiler.chunk@.constants == old(self).funpiler.chunk@.constants,
            old(self).funpiler.chunk@.bytes.is_prefix_of(final(self).funpiler.chunk@.bytes),
            ({
                let jump = old(self).funpiler.chunk@.bytes.len() + 3 - landing;
                &&& (jump <= 0xffff ==> final(self).funpiler.chunk@.bytes == old(self).funpiler.chunk@.bytes.push(spec_opcode_byte(OpCode::JumpBack)).push(
                    (jump / 256) as u8,
                ).push((jump % 256) as u8))
                &&& (jump > 0xffff ==> final(self).had_error && final(self).funpiler.chunk@.bytes
                    == old(self).funpiler.chunk@.bytes)
            }),
            final(self).source == old(self).source && final(self).globals == old(self).globals
                && final(self).funpiler_stack == old(self).funpiler_stack && final(self).natives
                == old(self).natives && final(self).functions == old(self).functions,
            final(self).funpiler.locals == old(self).funpiler.locals && final(self).funpiler.scope_depth == old(self).funpiler.scope_depth && final(self).funpiler.arity
                == old(self).funpiler.arity && final(self).funpiler.name == old(self).funpiler.name,
            final(self).funpiler.effect == old(self).funpiler.effect,
    {
        // The operand is measured from the end of the whole instruction:
        // opcode, then two operand bytes.
        let dist = self.funpiler.chunk.bytes.len() - landing;
        if dist > 0xffff - 3 {
            self.error_at_current("Too much code to jump over.");
            return ;
        }
        let jump = dist + 3;
        self.emit_op(OpCode::JumpBack);
        let high = (jump >> 8) as u8;
        let low = (jump & 0xff) as u8;
        proof {
            assert(high == jump / 256 && low == jump % 256 && jump / 256 < 256) by (bit_vector)
                requires
                    jump <= 0xffff,
                    high == (jump >> 8) as u8,
                    low == (jump & 0xff) as u8,
            ;
        }
        self.emit_byte(high);
        self.emit_byte(low);
    }
}


impl Compiler {
    // -----------------------------------------------------------------------
    // Identifiers, globals and locals
    // -----------------------------------------------------------------------

    /// Whether two tokens cover the same text.
    fn identifiers_equal(&self, a: Token, b: Token) -> (r: bool)
        requires
            token_ok(self.src(), a),
            token_ok(self.src(), b),
        ensures
            r == (token_text(self.src(), a) == token_text(self.src(), b)),
    {
        if a.length != b.length {
            proof {
                assert(token_text(self.src(), a).len() != token_text(self.src(), b).len());
            }
            return false;
        }
        let n = self.source.len();
        let mut i: usize = 0;
        while i < a.length
            invariant
                token_ok(self.src(), a),
                token_ok(self.src(), b),
                n == self.src().len(),
                a.length == b.length,
                i <= a.length,
                forall|j: int| 0 <= j < i ==> #[trigger] self.src()[a.start + j] == self.src()[b.start + j],
            decreases a.length - i,
        {
            if self.source[a.start + i] != self.source[b.start + i] {
                proof {
                    assert(token_text(self.src(), a)[i as int] != token_text(
                        self.src(),
                        b,
                    )[i as int]);
                }
                return false;
            }
            i = i + 1;
        }
        proof {
            assert forall|k: int|
                0 <= k < token_text(self.src(), a).len() implies token_text(self.src(), a)[k]
                == token_text(self.src(), b)[k] by {
                assert(self.src()[a.start + k] == self.src()[b.start + k]);
            }
            assert(token_text(self.src(), a) =~= token_text(self.src(), b));
        }
        true
    }

    /// The bytes an identifier token covers.
    fn token_name(&self, token: Token) -> (r: Vec<u8>)
        requires
            token_ok(self.src(), token),
        ensures
            r@ == token_text(self.src(), token),
    {
        let mut out: Vec<u8> = Vec::new();
        let n = self.source.len();
        let mut i: usize = 0;
        while i < token.length
            invariant
                token_ok(self.src(), token),
                n == self.src().len(),
                i <= token.length,
                out@ =~= self.src().subrange(token.start as int, token.start + i),
            decreases token.length - i,
        {
            out.push(self.source[token.start + i]);
            proof {
                assert(out@ =~= self.src().subrange(token.start as int, token.start + i + 1));
            }
            i = i + 1;
        }
        out
    }

    /// Looks an identifier up in the globals table, adding it when absent,
    /// and hands back its slot. `is_declaration` upgrades (or, when the name
    /// is already declared and `overwrite` is not set, rejects) the entry;
    /// a plain use records `token` for the end-of-compile check.
    fn insert_global(
        &mut self,
        name: Vec<u8>,
        is_declaration: bool,
        token: Option<Token>,
        overwrite: bool,
    ) -> (slot: u8)
        requires
            old(self).wf(),
            (token matches Some(t) ==> token_ok(old(self).src(), t)),
        ensures
            final(self).wf(),
            errors_extended(*old(self), *final(self)),
            final(self).scanner == old(self).scanner,
            final(self).current_token == old(self).current_token,
            final(self).previous_token == old(self).previous_token,
            final(self).source == old(self).source,
            final(self).funpiler == old(self).funpiler,
            final(self).funpiler_stack == old(self).funpiler_stack,
            final(self).natives == old(self).natives,
            final(self).functions == old(self).functions,
            old(self).globals@.len() <= final(self).globals@.len(),
            slot < 256,
            // A name already in the table keeps its slot. A duplicate
            // declaration is rejected (unless `overwrite`); otherwise the
            // entry is upgraded or its use recorded, no error arises, and no
            // other entry moves.
            (forall|i: int|
                0 <= i < old(self).globals@.len() && (#[trigger] old(self).globals@[i]).name@
                    == name@ ==> {
                    let dup = old(self).globals@[i].declared && is_declaration && !overwrite
                        && token is Some;
                    &&& (dup ==> final(self).globals == old(self).globals)
                    &&& (!dup ==> {
                        &&& slot == i
                        &&& final(self).errors == old(self).errors
                        &&& final(self).globals@.len() == old(self).globals@.len()
                        &&& final(self).globals@[i].name@ == name@
                        &&& final(self).globals@[i].declared == (old(self).globals@[i].declared
                            || is_declaration)
                        &&& (forall|j: int|
                            0 <= j < old(self).globals@.len() && j != i ==> final(self).globals@[j] == old(self).globals@[j])
                    })
                }),
            // A fresh name that fits is appended, and its slot is its index.
            ((forall|j: int|
                0 <= j < old(self).globals@.len() ==> (#[trigger] old(self).globals@[j].name@)
                    != name@) && old(self).globals@.len() < 256) ==> final(self).globals@.len()
                == old(self).globals@.len() + 1 && slot == old(self).globals@.len() && final(self).globals@.last().name@ == name@ && final(self).globals@.last().declared
                == is_declaration,
    {
        let ghost pre = *self;
        let mut i: usize = 0;
        while i < self.globals.len()
            invariant
                pre == *old(self),
                *self == pre,
                pre.wf(),
                (token matches Some(t) ==> token_ok(pre.src(), t)),
                i <= pre.globals@.len(),
                forall|j: int| 0 <= j < i ==> (#[trigger] pre.globals@[j].name@) != name@,
            decreases pre.globals@.len() - i,
        {
            if bytes_equal(&self.globals[i].name, &name) {
                // Found: reject a duplicate declaration, upgrade or record.
                if self.globals[i].declared && is_declaration && !overwrite && token.is_some() {
                    let t = match token {
                        Some(t) => t,
                        None => Token::new(TokenType::Error, 0, 0, 0),
                    };
                    self.error_at(t, "Already a global variable with this name.");
                    return 0;
                }
                if is_declaration {
                    self.globals[i].declared = true;
                } else {
                    match token {
                        Some(t) => {
                            if self.globals[i].uses.len() < usize::MAX {
                                self.globals[i].uses.push(t);
                            }
                        },
                        None => {},
                    }
                }
                proof {
                    assert(forall|a: int, b: int|
                        0 <= a < b < self.globals@.len() ==> (#[trigger] self.globals@[a].name@)
                            != (#[trigger] self.globals@[b].name@)) by {
                        assert(forall|a: int|
                            0 <= a < self.globals@.len() && a != i ==> (
                            #[trigger] self.globals@[a].name@) == pre.globals@[a].name@);
                        assert(self.globals@[i as int].name@ == pre.globals@[i as int].name@);
                    }
                }
                return i as u8;
            }
            i = i + 1;
        }
        // Absent: append, if a one-byte slot can still name it (a slot is a
        // byte, so 256 globals fit).
        if self.globals.len() == 256 {
            self.error_at_previous("Too many globals.");
            return 0;
        }
        let uses: Vec<Token> = match token {
            Some(t) => {
                let mut v: Vec<Token> = Vec::new();
                v.push(t);
                v
            },
            None => Vec::new(),
        };
        let slot = self.globals.len() as u8;
        self.globals.push(GlobalEntry { name, declared: is_declaration, uses });
        proof {
            assert forall|a: int, b: int|
                0 <= a < b < self.globals@.len() implies (#[trigger] self.globals@[a].name@) != (
                #[trigger] self.globals@[b].name@) by {
                if b < self.globals@.len() - 1 {
                    assert(pre.globals@[a].name@ != pre.globals@[b].name@);
                } else {
                    assert(pre.globals@[a].name@ != self.globals@[b].name@);
                }
            }
        }
        slot
    }

    /// The globals-table slot for an identifier token.
    fn global_identifier(&mut self, token: Token, is_declaration: bool) -> (slot: u8)
        requires
            old(self).wf(),
            token_ok(old(self).src(), token),
        ensures
            final(self).wf(),
            errors_extended(*old(self), *final(self)),
            final(self).scanner == old(self).scanner,
            final(self).current_token == old(self).current_token,
            final(self).previous_token == old(self).previous_token,
            final(self).source == old(self).source,
            final(self).funpiler == old(self).funpiler,
            final(self).funpiler_stack == old(self).funpiler_stack,
            final(self).natives == old(self).natives,
            final(self).functions == old(self).functions,
    {
        let name = self.token_name(token);
        self.insert_global(name, is_declaration, Some(token), false)
    }

    /// Installs a native: its name enters the globals table as declared and
    /// unshadowable, and its descriptor joins the natives list at the slot's
    /// index.
    pub fn add_native(&mut self, native: NativeFunction)
        requires
            old(self).wf(),
        ensures
            final(self).wf(),
            errors_extended(*old(self), *final(self)),
            // Installing natives one after another on a fresh compiler lines
            // the descriptor table up with the global slots.
            ((forall|j: int|
                0 <= j < old(self).globals@.len() ==> (#[trigger] old(self).globals@[j].name@)
                    != native.name@) && old(self).globals@.len() == old(self).natives@.len() && old(self).globals@.len() < 255) ==> final(self).natives@ =~= old(self).natives@.push(native)
                && final(self).globals@.len() == old(self).globals@.len() + 1,
    {
        let name = clone_bytes(&native.name);
        let index = self.insert_global(name, true, None, true);
        if self.natives.len() == index as usize {
            self.natives.push(native);
        } else if self.natives.len() > index as usize {
            self.natives[index as usize] = native;
        } else {
            self.error_at_current("Failed to add native function. Index error.");
        }
    }

    /// Finds an identifier among the current function's locals, innermost
    /// first. Every hit names a live slot: the index lies inside the locals
    /// and the texts match. Referencing a local inside its own initialiser
    /// is an error.
    fn local_index(&mut self, identifier_token: Token) -> (r: Option<u8>)
        requires
            old(self).wf(),
            token_ok(old(self).src(), identifier_token),
        ensures
            final(self).wf(),
            errors_extended(*old(self), *final(self)),
            final(self).scanner == old(self).scanner,
            final(self).current_token == old(self).current_token,
            final(self).previous_token == old(self).previous_token,
            final(self).source == old(self).source,
            final(self).funpiler == old(self).funpiler,
            final(self).funpiler_stack == old(self).funpiler_stack,
            final(self).natives == old(self).natives,
            final(self).functions == old(self).functions,
            (r matches Some(i) ==> i < final(self).funpiler.locals@.len() && token_text(
                final(self).src(),
                final(self).funpiler.locals@[i as int].token,
            ) == token_text(final(self).src(), identifier_token)),
            // The innermost match wins: nothing above the hit matches.
            (r matches Some(i) ==> (forall|k: int|
                i < k < final(self).funpiler.locals@.len() ==> token_text(
                    final(self).src(),
                    (#[trigger] final(self).funpiler.locals@[k]).token,
                ) != token_text(final(self).src(), identifier_token))),
            // A local named inside its own initialiser is an error.
            (r matches Some(i) ==> (final(self).funpiler.locals@[i as int].depth is None ==> final(self).had_error)),
            // `None` means no local of that name exists at all.
            (r is None ==> (forall|k: int|
                0 <= k < final(self).funpiler.locals@.len() ==> token_text(
                    final(self).src(),
                    (#[trigger] final(self).funpiler.locals@[k]).token,
                ) != token_text(final(self).src(), identifier_token))),
    {
        let mut i: usize = self.funpiler.locals.len();
        while i > 0
            invariant
                self.wf(),
                *self == *old(self),
                old(self).wf(),
                token_ok(self.src(), identifier_token),
                i <= self.funpiler.locals@.len(),
                forall|k: int|
                    i <= k < self.funpiler.locals@.len() ==> token_text(
                        self.src(),
                        (#[trigger] self.funpiler.locals@[k]).token,
                    ) != token_text(self.src(), identifier_token),
            decreases i,
        {
            i = i - 1;
            let local = self.funpiler.locals[i];
            if self.identifiers_equal(local.token, identifier_token) {
                if local.depth.is_none() {
                    self.error_at_current("Can't read local variable in it's own initialiser.");
                }
                return Some(i as u8);
            }
        }
        None
    }

    // -----------------------------------------------------------------------
    // Lexical scope and compilation frames
    // -----------------------------------------------------------------------

    fn begin_scope(&mut self)
        requires
            old(self).wf(),
        ensures
            final(self).wf(),
            *final(self) == (Compiler { funpiler: final(self).funpiler, ..*old(self) }),
            final(self).funpiler == (Funpiler {
                scope_depth: final(self).funpiler.scope_depth,
                ..old(self).funpiler
            }),
    {
        if self.funpiler.scope_depth < usize::MAX {
            self.funpiler.scope_depth = self.funpiler.scope_depth + 1;
        }
    }

    /// Closes a scope, discarding its locals and emitting one `Pop` for each
    /// so that the run-time stack shrinks in step.
    fn end_scope(&mut self)
        requires
            old(self).wf(),
        ensures
            final(self).wf(),
            errors_extended(*old(self), *final(self)),
            final(self).scanner == old(self).scanner,
            final(self).current_token == old(self).current_token,
            final(self).previous_token == old(self).previous_token,
            final(self).source == old(self).source,
            final(self).globals == old(self).globals,
            final(self).funpiler_stack == old(self).funpiler_stack,
            final(self).natives == old(self).natives,
            final(self).functions == old(self).functions,
            final(self).errors == old(self).errors,
            old(self).funpiler.chunk@.bytes.is_prefix_of(final(self).funpiler.chunk@.bytes),
            final(self).funpiler.chunk@.constants == old(self).funpiler.chunk@.constants,
            balanced_emission(old(self).funpiler, final(self).funpiler, 0),
            old(self).funpiler.scope_depth >= 1 ==> final(self).funpiler.scope_depth == old(self).funpiler.scope_depth - 1,
            // The locals that leave are exactly a deeper-than-the-new-depth
            // suffix, and one `Pop` is appended for each.
            final(self).funpiler.locals@ == old(self).funpiler.locals@.subrange(
                0,
                final(self).funpiler.locals@.len() as int,
            ),
            (forall|k: int|
                final(self).funpiler.locals@.len() <= k < old(self).funpiler.locals@.len() ==> (
                #[trigger] old(self).funpiler.locals@[k]).depth is Some && old(self).funpiler.locals@[k].depth->0 > final(self).funpiler.scope_depth),
            (final(self).funpiler.locals@.len() > 0 ==> ((final(self).funpiler.locals@.last().depth is None) || final(self).funpiler.locals@.last().depth->0 <= final(self).funpiler.scope_depth)),
            final(self).funpiler.chunk@.bytes.len() == old(self).funpiler.chunk@.bytes.len() + (old(self).funpiler.locals@.len() - final(self).funpiler.locals@.len()),
            (forall|k: int|
                old(self).funpiler.chunk@.bytes.len() <= k < final(self).funpiler.chunk@.bytes.len() ==> final(self).funpiler.chunk@.bytes[k] == spec_opcode_byte(OpCode::Pop)),
    {
        if self.funpiler.scope_depth > 0 {
            self.funpiler.scope_depth = self.funpiler.scope_depth - 1;
        }
        loop
            invariant
                self.wf(),
                errors_extended(*old(self), *self),
                self.scanner == old(self).scanner,
                self.current_token == old(self).current_token,
                self.previous_token == old(self).previous_token,
                self.source == old(self).source,
                self.globals == old(self).globals,
                self.funpiler_stack == old(self).funpiler_stack,
                self.natives == old(self).natives,
                self.functions == old(self).functions,
                self.errors == old(self).errors,
                old(self).funpiler.chunk@.bytes.is_prefix_of(self.funpiler.chunk@.bytes),
                self.funpiler.chunk@.constants == old(self).funpiler.chunk@.constants,
                balanced_emission(old(self).funpiler, self.funpiler, 0),
                self.funpiler.scope_depth == if old(self).funpiler.scope_depth >= 1 {
                    (old(self).funpiler.scope_depth - 1) as usize
                } else {
                    0usize
                },
                self.funpiler.locals@ == old(self).funpiler.locals@.subrange(
                    0,
                    self.funpiler.locals@.len() as int,
                ),
                forall|k: int|
                    self.funpiler.locals@.len() <= k < old(self).funpiler.locals@.len() ==> (
                    #[trigger] old(self).funpiler.locals@[k]).depth is Some && old(self).funpiler.locals@[k].depth->0 > self.funpiler.scope_depth,
                self.funpiler.chunk@.bytes.len() == old(self).funpiler.chunk@.bytes.len() + (old(self).funpiler.locals@.len() - self.funpiler.locals@.len()),
                forall|k: int|
                    old(self).funpiler.chunk@.bytes.len() <= k < self.funpiler.chunk@.bytes.len() ==> self.funpiler.chunk@.bytes[k] == spec_opcode_byte(OpCode::Pop),
            ensures
                self.wf(),
                errors_extended(*old(self), *self),
                self.scanner == old(self).scanner,
                self.current_token == old(self).current_token,
                self.previous_token == old(self).previous_token,
                self.source == old(self).source,
                self.globals == old(self).globals,
                self.funpiler_stack == old(self).funpiler_stack,
                self.natives == old(self).natives,
                self.functions == old(self).functions,
                self.errors == old(self).errors,
                old(self).funpiler.chunk@.bytes.is_prefix_of(self.funpiler.chunk@.bytes),
                self.funpiler.chunk@.constants == old(self).funpiler.chunk@.constants,
                balanced_emission(old(self).funpiler, self.funpiler, 0),
                self.funpiler.scope_depth == if old(self).funpiler.scope_depth >= 1 {
                    (old(self).funpiler.scope_depth - 1) as usize
                } else {
                    0usize
                },
                self.funpiler.locals@ == old(self).funpiler.locals@.subrange(
                    0,
                    self.funpiler.locals@.len() as int,
                ),
                forall|k: int|
                    self.funpiler.locals@.len() <= k < old(self).funpiler.locals@.len() ==> (
                    #[trigger] old(self).funpiler.locals@[k]).depth is Some && old(self).funpiler.locals@[k].depth->0 > self.funpiler.scope_depth,
                self.funpiler.chunk@.bytes.len() == old(self).funpiler.chunk@.bytes.len() + (old(self).funpiler.locals@.len() - self.funpiler.locals@.len()),
                forall|k: int|
                    old(self).funpiler.chunk@.bytes.len() <= k < self.funpiler.chunk@.bytes.len() ==> self.funpiler.chunk@.bytes[k] == spec_opcode_byte(OpCode::Pop),
                !(self.funpiler.locals@.len() > 0) || ((self.funpiler.locals@.last().depth is None)
                    || self.funpiler.locals@.last().depth->0 <= self.funpiler.scope_depth),
            decreases self.funpiler.locals@.len(),
        {
            if self.funpiler.locals.len() == 0 {
                break ;
            }
            let last = self.funpiler.locals[self.funpiler.locals.len() - 1];
            let keep = match last.depth {
                Some(d) => d <= self.funpiler.scope_depth,
                None => true,
            };
            if keep {
                break ;
            }
            self.funpiler.locals.pop();
            self.emit_op(OpCode::Pop);
        }
    }

    /// Opens a fresh compilation frame, suspending the current one. Slot 0 of
    /// every frame is reserved for the callee value itself, never bound to a
    /// user name.
    fn new_funpiler(&mut self)
        requires
            old(self).wf(),
        ensures
            final(self).wf(),
            final(self).scanner == old(self).scanner,
            final(self).current_token == old(self).current_token,
            final(self).previous_token == old(self).previous_token,
            final(self).source == old(self).source,
            final(self).globals == old(self).globals,
            final(self).natives == old(self).natives,
            final(self).functions == old(self).functions,
            final(self).errors == old(self).errors,
            final(self).had_error == old(self).had_error,
            final(self).panic_mode == old(self).panic_mode,
            final(self).funpiler_stack@ == old(self).funpiler_stack@.push(old(self).funpiler),
            final(self).funpiler.chunk@.bytes.len() == 0,
            final(self).funpiler.chunk@.constants.len() == 0,
            final(self).funpiler.locals@.len() == 1,
            final(self).funpiler.scope_depth == 0,
            final(self).funpiler.arity == 0,
            final(self).funpiler.name@.len() == 0,
    {
        let mut fresh = Funpiler::new();
        core::mem::swap(&mut self.funpiler, &mut fresh);
        self.funpiler_stack.push(fresh);
        self.funpiler.locals.push(
            Local { token: Token::new(TokenType::Null, 0, 0, 0), depth: Some(0) },
        );
    }

    /// Seals the current frame into a `Function` — emitting `Null` `Return`
    /// first, so that every path out of the body returns — and resumes the
    /// enclosing frame.
    fn end_funpiler(&mut self) -> (f: Function)
        requires
            old(self).wf(),
            old(self).funpiler_stack@.len() >= 1,
        ensures
            final(self).wf(),
            final(self).scanner == old(self).scanner,
            final(self).current_token == old(self).current_token,
            final(self).previous_token == old(self).previous_token,
            final(self).source == old(self).source,
            final(self).globals == old(self).globals,
            final(self).natives == old(self).natives,
            final(self).functions == old(self).functions,
            final(self).errors == old(self).errors,
            final(self).had_error == old(self).had_error,
            final(self).panic_mode == old(self).panic_mode,
            final(self).funpiler_stack@ == old(self).funpiler_stack@.drop_last(),
            final(self).funpiler == old(self).funpiler_stack@.last(),
            f@.chunk.wf(),
            ends_null_return(f@.chunk.bytes),
            f@.chunk.bytes == old(self).funpiler.chunk@.bytes.push(
                spec_opcode_byte(OpCode::Null),
            ).push(spec_opcode_byte(OpCode::Return)),
            f@.chunk.constants == old(self).funpiler.chunk@.constants,
            f.name == old(self).funpiler.name,
            f.arity == old(self).funpiler.arity,
    {
        self.emit_op(OpCode::Null);
        self.emit_op(OpCode::Return);
        let resumed = match self.funpiler_stack.pop() {
            Some(r) => r,
            None => Funpiler::new(),
        };
        let mut finished = resumed;
        core::mem::swap(&mut self.funpiler, &mut finished);
        Function { name: finished.name, arity: finished.arity, chunk: finished.chunk }
    }
}


/// What every parsing and statement routine preserves: well-formedness, the
/// append-only error list, the input measure, and the shape of the frame
/// stack; the current chunk only ever grows, and the code already emitted
/// when the routine began is never rewritten — a routine patches only its
/// own jumps.
pub open spec fn parse_bundle(pre: Compiler, post: Compiler) -> bool {
    &&& post.wf()
    &&& errors_extended(pre, post)
    &&& fuel_le(post, pre)
    &&& post.source == pre.source
    &&& post.natives == pre.natives
    &&& post.funpiler_stack@ == pre.funpiler_stack@
    &&& pre.functions@.len() <= post.functions@.len()
    &&& pre.funpiler.chunk@.bytes.is_prefix_of(post.funpiler.chunk@.bytes)
}



/// The opcode bytes an infix operator emits after its right operand:
/// `!=` is `Equal Not`, `>=` is `Less Not`, `<=` is `Greater Not`.
pub open spec fn binary_op_tail(operator: TokenType) -> Seq<u8> {
    match operator {
        TokenType::BangEqual => seq![
            spec_opcode_byte(OpCode::Equal),
            spec_opcode_byte(OpCode::Not),
        ],
        TokenType::EqualEqual => seq![spec_opcode_byte(OpCode::Equal)],
        TokenType::Greater => seq![spec_opcode_byte(OpCode::Greater)],
        TokenType::GreaterEqual => seq![
            spec_opcode_byte(OpCode::Less),
            spec_opcode_byte(OpCode::Not),
        ],
        TokenType::Less => seq![spec_opcode_byte(OpCode::Less)],
        TokenType::LessEqual => seq![
            spec_opcode_byte(OpCode::Greater),
            spec_opcode_byte(OpCode::Not),
        ],
        TokenType::Plus => seq![spec_opcode_byte(OpCode::Add)],
        TokenType::Minus => seq![spec_opcode_byte(OpCode::Subtract)],
        TokenType::Star => seq![spec_opcode_byte(OpCode::Multiply)],
        _ => seq![spec_opcode_byte(OpCode::Divide)],
    }
}

/// The byte array finishes with exactly this tail.
pub open spec fn ends_with(bytes: Seq<u8>, tail: Seq<u8>) -> bool {
    bytes.len() >= tail.len() && bytes.subrange(
        bytes.len() - tail.len(),
        bytes.len() as int,
    ) == tail
}

pub proof fn lemma_ends_with_one(s: Seq<u8>, b: u8)
    ensures
        ends_with(s.push(b), seq![b]),
{
    assert(s.push(b).subrange(s.len() as int, s.len() as int + 1) =~= seq![b]);
}

pub proof fn lemma_ends_with_two(s: Seq<u8>, b1: u8, b2: u8)
    ensures
        ends_with(s.push(b1).push(b2), seq![b1, b2]),
{
    assert(s.push(b1).push(b2).subrange(s.len() as int, s.len() as int + 2) =~= seq![b1, b2]);
}

pub proof fn lemma_ends_with_four(s: Seq<u8>, b1: u8, b2: u8, b3: u8, b4: u8)
    ensures
        ends_with(s.push(b1).push(b2).push(b3).push(b4), seq![b1, b2, b3, b4]),
{
    assert(s.push(b1).push(b2).push(b3).push(b4).subrange(s.len() as int, s.len() as int + 4) =~= seq![
        b1,
        b2,
        b3,
        b4,
    ]);
}

/// The Pratt table itself, as a function: what each token kind may begin,
/// what it may continue, and how tightly its infix role binds. A built-in
/// such as `print` is an ordinary name, reached the way any global is.
pub open spec fn spec_rule(token_type: TokenType) -> ParseRule {
    match token_type {
        TokenType::LeftParen => ParseRule {
            prefix: ParseFn::Grouping,
            infix: ParseFn::Call,
            precedence: ParsePrecedence::Call,
        },
        TokenType::Minus => ParseRule {
            prefix: ParseFn::Unary,
            infix: ParseFn::Binary,
            precedence: ParsePrecedence::Term,
        },
        TokenType::Plus => ParseRule {
            prefix: ParseFn::Nothing,
            infix: ParseFn::Binary,
            precedence: ParsePrecedence::Term,
        },
        TokenType::Slash => ParseRule {
            prefix: ParseFn::Nothing,
            infix: ParseFn::Binary,
            precedence: ParsePrecedence::Factor,
        },
        TokenType::Star => ParseRule {
            prefix: ParseFn::Nothing,
            infix: ParseFn::Binary,
            precedence: ParsePrecedence::Factor,
        },
        TokenType::Bang => ParseRule {
            prefix: ParseFn::Unary,
            infix: ParseFn::Nothing,
            precedence: ParsePrecedence::Lowest,
        },
        TokenType::BangEqual => ParseRule {
            prefix: ParseFn::Nothing,
            infix: ParseFn::Binary,
            precedence: ParsePrecedence::Equality,
        },
        TokenType::EqualEqual => ParseRule {
            prefix: ParseFn::Nothing,
            infix: ParseFn::Binary,
            precedence: ParsePrecedence::Equality,
        },
        TokenType::Greater => ParseRule {
            prefix: ParseFn::Nothing,
            infix: ParseFn::Binary,
            precedence: ParsePrecedence::Comparison,
        },
        TokenType::GreaterEqual => ParseRule {
            prefix: ParseFn::Nothing,
            infix: ParseFn::Binary,
            precedence: ParsePrecedence::Comparison,
        },
        TokenType::Less => ParseRule {
            prefix: ParseFn::Nothing,
            infix: ParseFn::Binary,
            precedence: ParsePrecedence::Comparison,
        },
        TokenType::LessEqual => ParseRule {
            prefix: ParseFn::Nothing,
            infix: ParseFn::Binary,
            precedence: ParsePrecedence::Comparison,
        },
        TokenType::Identifier => ParseRule {
            prefix: ParseFn::Variable,
            infix: ParseFn::Nothing,
            precedence: ParsePrecedence::Lowest,
        },
        TokenType::String => ParseRule {
            prefix: ParseFn::String,
            infix: ParseFn::Nothing,
            precedence: ParsePrecedence::Lowest,
        },
        TokenType::Number => ParseRule {
            prefix: ParseFn::Number,
            infix: ParseFn::Nothing,
            precedence: ParsePrecedence::Lowest,
        },
        TokenType::And => ParseRule {
            prefix: ParseFn::Nothing,
            infix: ParseFn::And,
            precedence: ParsePrecedence::And,
        },
        TokenType::Or => ParseRule {
            prefix: ParseFn::Nothing,
            infix: ParseFn::Or,
            precedence: ParsePrecedence::Or,
        },
        TokenType::False => ParseRule {
            prefix: ParseFn::Literal,
            infix: ParseFn::Nothing,
            precedence: ParsePrecedence::Lowest,
        },
        TokenType::Null => ParseRule {
            prefix: ParseFn::Literal,
            infix: ParseFn::Nothing,
            precedence: ParsePrecedence::Lowest,
        },
        TokenType::True => ParseRule {
            prefix: ParseFn::Literal,
            infix: ParseFn::Nothing,
            precedence: ParsePrecedence::Lowest,
        },
        _ => ParseRule {
            prefix: ParseFn::Nothing,
            infix: ParseFn::Nothing,
            precedence: ParsePrecedence::Lowest,
        },
    }
}

impl Compiler {
    // -----------------------------------------------------------------------
    // Pratt expression parsing
    // -----------------------------------------------------------------------

    /// The parsing table: exactly `spec_rule`'s.
    fn get_rule(&self, token_type: TokenType) -> (r: ParseRule)
        ensures
            r == spec_rule(token_type),
            token_type == TokenType::Eof ==> r.precedence == ParsePrecedence::Lowest,
            token_type == TokenType::Eof ==> r.prefix == ParseFn::Nothing,
            token_type == TokenType::NewLine ==> r.precedence == ParsePrecedence::Lowest,
            r.prefix == ParseFn::Nothing || parse_fn_effect(r.prefix) == 1,
            parse_fn_effect(r.infix) == 0,
    {
        match token_type {
            TokenType::LeftParen => ParseRule::new(
                ParseFn::Grouping,
                ParseFn::Call,
                ParsePrecedence::Call,
            ),
            TokenType::RightParen => ParseRule::new(
                ParseFn::Nothing,
                ParseFn::Nothing,
                ParsePrecedence::Lowest,
            ),
            TokenType::Indent => ParseRule::new(
                ParseFn::Nothing,
                ParseFn::Nothing,
                ParsePrecedence::Lowest,
            ),
            TokenType::Dedent => ParseRule::new(
                ParseFn::Nothing,
                ParseFn::Nothing,
                ParsePrecedence::Lowest,
            ),
            TokenType::NewLine => ParseRule::new(
                ParseFn::Nothing,
                ParseFn::Nothing,
                ParsePrecedence::Lowest,
            ),
            TokenType::Comma => ParseRule::new(
                ParseFn::Nothing,
                ParseFn::Nothing,
                ParsePrecedence::Lowest,
            ),
            TokenType::Minus => ParseRule::new(
                ParseFn::Unary,
                ParseFn::Binary,
                ParsePrecedence::Term,
            ),
            TokenType::Plus => ParseRule::new(
                ParseFn::Nothing,
                ParseFn::Binary,
                ParsePrecedence::Term,
            ),
            TokenType::Colon => ParseRule::new(
                ParseFn::Nothing,
                ParseFn::Nothing,
                ParsePrecedence::Lowest,
            ),
            TokenType::Slash => ParseRule::new(
                ParseFn::Nothing,
                ParseFn::Binary,
                ParsePrecedence::Factor,
            ),
            TokenType::Star => ParseRule::new(
                ParseFn::Nothing,
                ParseFn::Binary,
                ParsePrecedence::Factor,
            ),
            TokenType::Bang => ParseRule::new(
                ParseFn::Unary,
                ParseFn::Nothing,
                ParsePrecedence::Lowest,
            ),
            TokenType::BangEqual => ParseRule::new(
                ParseFn::Nothing,
                ParseFn::Binary,
                ParsePrecedence::Equality,
            ),
            TokenType::Equal => ParseRule::new(
                ParseFn::Nothing,
                ParseFn::Nothing,
                ParsePrecedence::Lowest,
            ),
            TokenType::EqualEqual => ParseRule::new(
                ParseFn::Nothing,
                ParseFn::Binary,
                ParsePrecedence::Equality,
            ),
            TokenType::Greater => ParseRule::new(
                ParseFn::Nothing,
                ParseFn::Binary,
                ParsePrecedence::Comparison,
            ),
            TokenType::GreaterEqual => ParseRule::new(
                ParseFn::Nothing,
                ParseFn::Binary,
                ParsePrecedence::Comparison,
            ),
            TokenType::Less => ParseRule::new(
                ParseFn::Nothing,
                ParseFn::Binary,
                ParsePrecedence::Comparison,
            ),
            TokenType::LessEqual => ParseRule::new(
                ParseFn::Nothing,
                ParseFn::Binary,
                ParsePrecedence::Comparison,
            ),
            TokenType::Identifier => ParseRule::new(
                ParseFn::Variable,
                ParseFn::Nothing,
                ParsePrecedence::Lowest,
            ),
            TokenType::String => ParseRule::new(
                ParseFn::String,
                ParseFn::Nothing,
                ParsePrecedence::Lowest,
            ),
            TokenType::Number => ParseRule::new(
                ParseFn::Number,
                ParseFn::Nothing,
                ParsePrecedence::Lowest,
            ),
            TokenType::And => ParseRule::new(ParseFn::Nothing, ParseFn::And, ParsePrecedence::And),
            TokenType::Else => ParseRule::new(
                ParseFn::Nothing,
                ParseFn::Nothing,
                ParsePrecedence::Lowest,
            ),
            TokenType::False => ParseRule::new(
                ParseFn::Literal,
                ParseFn::Nothing,
                ParsePrecedence::Lowest,
            ),
            TokenType::For => ParseRule::new(
                ParseFn::Nothing,
                ParseFn::Nothing,
                ParsePrecedence::Lowest,
            ),
            TokenType::Fn => ParseRule::new(
                ParseFn::Nothing,
                ParseFn::Nothing,
                ParsePrecedence::Lowest,
            ),
            TokenType::If => ParseRule::new(
                ParseFn::Nothing,
                ParseFn::Nothing,
                ParsePrecedence::Lowest,
            ),
            TokenType::Null => ParseRule::new(
                ParseFn::Literal,
                ParseFn::Nothing,
                ParsePrecedence::Lowest,
            ),
            TokenType::Or => ParseRule::new(ParseFn::Nothing, ParseFn::Or, ParsePrecedence::Or),
            TokenType::Return => ParseRule::new(
                ParseFn::Nothing,
                ParseFn::Nothing,
                ParsePrecedence::Lowest,
            ),
            TokenType::True => ParseRule::new(
                ParseFn::Literal,
                ParseFn::Nothing,
                ParsePrecedence::Lowest,
            ),
            TokenType::Var => ParseRule::new(
                ParseFn::Nothing,
                ParseFn::Nothing,
                ParsePrecedence::Lowest,
            ),
            TokenType::While => ParseRule::new(
                ParseFn::Nothing,
                ParseFn::Nothing,
                ParsePrecedence::Lowest,
            ),
            TokenType::Error => ParseRule::new(
                ParseFn::Nothing,
                ParseFn::Nothing,
                ParsePrecedence::Lowest,
            ),
            TokenType::Eof => ParseRule::new(
                ParseFn::Nothing,
                ParseFn::Nothing,
                ParsePrecedence::Lowest,
            ),
        }
    }

    fn expression(&mut self)
        requires
            old(self).wf(),
        ensures
            parse_bundle(*old(self), *final(self)),
            // A token with no prefix role cannot begin an expression.
            spec_rule(old(self).current_token.token_type).prefix == ParseFn::Nothing ==> final(self).had_error,
            old(self).current_token.token_type != TokenType::Eof ==> fuel_lt(
                *final(self),
                *old(self),
            ),
            !final(self).had_error ==> final(self).funpiler.effect@ == old(self).funpiler.effect@ + 1 && final(self).funpiler.locals == old(self).funpiler.locals,
        decreases
                old(self).scanner.dec1(),
                old(self).scanner.dec2(),
                old(self).scanner.dec3(),
                old(self).cur_flag(),
                4int,
    {
        self.parse_precedence(ParsePrecedence::Assignment);
    }

    /// One number literal: its text becomes an IEEE-754 binary64 constant.
    fn number(&mut self, can_assign: bool)
        requires
            old(self).wf(),
        ensures
            parse_bundle(*old(self), *final(self)),
            !final(self).had_error ==> ({
                let lexeme = token_text(old(self).src(), old(self).previous_token);
                &&& double_of_decimal(lexeme) is Some
                &&& final(self).funpiler.chunk@.constants == old(self).funpiler.chunk@.constants.push(ValueV::Number(double_of_decimal(lexeme)->0))
                &&& final(self).funpiler.chunk@.bytes == old(self).funpiler.chunk@.bytes.push(
                    spec_opcode_byte(OpCode::Constant),
                ).push(old(self).funpiler.chunk@.constants.len() as u8)
            }),
            !final(self).had_error ==> final(self).funpiler.effect@ == old(self).funpiler.effect@ + 1 && final(self).funpiler.locals == old(self).funpiler.locals,
        decreases
                old(self).scanner.dec1(),
                old(self).scanner.dec2(),
                old(self).scanner.dec3(),
                old(self).cur_flag(),
                8int,
    {
        let token = self.previous_token;
        if token.length >= 0x8000_0000 {
            self.error_at_previous("Failed to parse number.");
            return ;
        }
        let lexeme = self.token_name(token);
        match num_parse(lexeme.as_slice()) {
            Some(bits) => {
                self.emit_constant(Value::Number(bits));
            },
            None => {
                self.error_at_previous("Failed to parse number.");
            },
        }
    }

    /// One string literal: the bytes between the quotes become a constant.
    fn string(&mut self, can_assign: bool)
        requires
            old(self).wf(),
        ensures
            parse_bundle(*old(self), *final(self)),
            !final(self).had_error && old(self).previous_token.length >= 2 ==> ({
                let t = old(self).previous_token;
                &&& final(self).funpiler.chunk@.constants == old(self).funpiler.chunk@.constants.push(ValueV::Str(old(self).src().subrange(t.start + 1, t.start + t.length - 1)))
                &&& final(self).funpiler.chunk@.bytes == old(self).funpiler.chunk@.bytes.push(
                    spec_opcode_byte(OpCode::Constant),
                ).push(old(self).funpiler.chunk@.constants.len() as u8)
            }),
            !final(self).had_error ==> final(self).funpiler.effect@ == old(self).funpiler.effect@ + 1 && final(self).funpiler.locals == old(self).funpiler.locals,
        decreases
                old(self).scanner.dec1(),
                old(self).scanner.dec2(),
                old(self).scanner.dec3(),
                old(self).cur_flag(),
                8int,
    {
        let token = self.previous_token;
        let mut content: Vec<u8> = Vec::new();
        if token.length >= 2 {
            let inner = Token::new(TokenType::String, token.start + 1, token.length - 2, token.line);
            content = self.token_name(inner);
        }
        self.emit_constant(Value::String(content));
    }

    /// `true`, `false` and `null` compile to their own opcodes.
    fn literal(&mut self, can_assign: bool)
        requires
            old(self).wf(),
        ensures
            parse_bundle(*old(self), *final(self)),
            !final(self).had_error ==> {
                let emitted = match old(self).previous_token.token_type {
                    TokenType::True => spec_opcode_byte(OpCode::True),
                    TokenType::False => spec_opcode_byte(OpCode::False),
                    _ => spec_opcode_byte(OpCode::Null),
                };
                final(self).funpiler.chunk@.bytes == old(self).funpiler.chunk@.bytes.push(emitted)
            },
            !final(self).had_error ==> final(self).funpiler.effect@ == old(self).funpiler.effect@ + 1 && final(self).funpiler.locals == old(self).funpiler.locals,
        decreases
                old(self).scanner.dec1(),
                old(self).scanner.dec2(),
                old(self).scanner.dec3(),
                old(self).cur_flag(),
                8int,
    {
        match self.previous_token.token_type {
            TokenType::True => self.emit_op(OpCode::True),
            TokenType::False => self.emit_op(OpCode::False),
            TokenType::Null => self.emit_op(OpCode::Null),
            _ => self.error_at_previous("Unreachable literal operator...reached."),
        }
    }

    fn grouping(&mut self, can_assign: bool)
        requires
            old(self).wf(),
        ensures
            parse_bundle(*old(self), *final(self)),
            !final(self).had_error ==> final(self).funpiler.effect@ == old(self).funpiler.effect@ + 1 && final(self).funpiler.locals == old(self).funpiler.locals,
        decreases
                old(self).scanner.dec1(),
                old(self).scanner.dec2(),
                old(self).scanner.dec3(),
                old(self).cur_flag(),
                8int,
    {
        self.expression();
        self.consume(TokenType::RightParen, "Expect ')' after expression.");
    }

    fn unary(&mut self, can_assign: bool)
        requires
            old(self).wf(),
        ensures
            parse_bundle(*old(self), *final(self)),
            !final(self).had_error ==> {
                let emitted = if old(self).previous_token.token_type == TokenType::Bang {
                    spec_opcode_byte(OpCode::Not)
                } else {
                    spec_opcode_byte(OpCode::Negate)
                };
                ends_with(final(self).funpiler.chunk@.bytes, seq![emitted])
            },
            !final(self).had_error ==> final(self).funpiler.effect@ == old(self).funpiler.effect@ + 1 && final(self).funpiler.locals == old(self).funpiler.locals,
        decreases
                old(self).scanner.dec1(),
                old(self).scanner.dec2(),
                old(self).scanner.dec3(),
                old(self).cur_flag(),
                8int,
    {
        let operator = self.previous_token.token_type;
        self.parse_precedence(ParsePrecedence::Unary);

        let ghost before = self.funpiler.chunk@.bytes;
        match operator {
            TokenType::Bang => {
                self.emit_op(OpCode::Not);
                proof {
                    lemma_ends_with_one(before, spec_opcode_byte(OpCode::Not));
                }
            },
            TokenType::Minus => {
                self.emit_op(OpCode::Negate);
                proof {
                    lemma_ends_with_one(before, spec_opcode_byte(OpCode::Negate));
                }
            },
            _ => self.error_at_previous("Unreachable unary operator...reached."),
        }
    }

    /// An infix operator: the right operand binds one level tighter, then the
    /// operator's opcodes follow (`!=`, `<=` and `>=` are negations of their
    /// complements).
    fn binary(&mut self, can_assign: bool)
        requires
            old(self).wf(),
        ensures
            parse_bundle(*old(self), *final(self)),
            !final(self).had_error ==> ends_with(
                final(self).funpiler.chunk@.bytes,
                binary_op_tail(old(self).previous_token.token_type),
            ),
            !final(self).had_error ==> final(self).funpiler.effect@ == old(self).funpiler.effect@ && final(self).funpiler.locals == old(self).funpiler.locals,
        decreases
                old(self).scanner.dec1(),
                old(self).scanner.dec2(),
                old(self).scanner.dec3(),
                old(self).cur_flag(),
                8int,
    {
        let operator = self.previous_token.token_type;
        let operator_rule_prec = self.get_rule(operator).precedence;
        match ParsePrecedence::from_u8(operator_rule_prec.as_u8() + 1) {
            Some(new_precedence) => {
                if new_precedence.as_u8() >= 1 {
                    self.parse_precedence(new_precedence);
                } else {
                    self.error_at_current("binary operator mismatch.");
                }
            },
            None => self.error_at_current("binary operator mismatch."),
        }

        let ghost before = self.funpiler.chunk@.bytes;
        match operator {
            TokenType::BangEqual => {
                self.emit_ops(OpCode::Equal, OpCode::Not);
                proof {
                    lemma_ends_with_two(
                        before,
                        spec_opcode_byte(OpCode::Equal),
                        spec_opcode_byte(OpCode::Not),
                    );
                }
            },
            TokenType::EqualEqual => {
                self.emit_op(OpCode::Equal);
                proof {
                    lemma_ends_with_one(before, spec_opcode_byte(OpCode::Equal));
                }
            },
            TokenType::Greater => {
                self.emit_op(OpCode::Greater);
                proof {
                    lemma_ends_with_one(before, spec_opcode_byte(OpCode::Greater));
                }
            },
            TokenType::GreaterEqual => {
                self.emit_ops(OpCode::Less, OpCode::Not);
                proof {
                    lemma_ends_with_two(
                        before,
                        spec_opcode_byte(OpCode::Less),
                        spec_opcode_byte(OpCode::Not),
                    );
                }
            },
            TokenType::Less => {
                self.emit_op(OpCode::Less);
                proof {
                    lemma_ends_with_one(before, spec_opcode_byte(OpCode::Less));
                }
            },
            TokenType::LessEqual => {
                self.emit_ops(OpCode::Greater, OpCode::Not);
                proof {
                    lemma_ends_with_two(
                        before,
                        spec_opcode_byte(OpCode::Greater),
                        spec_opcode_byte(OpCode::Not),
                    );
                }
            },
            TokenType::Plus => {
                self.emit_op(OpCode::Add);
                proof {
                    lemma_ends_with_one(before, spec_opcode_byte(OpCode::Add));
                }
            },
            TokenType::Minus => {
                self.emit_op(OpCode::Subtract);
                proof {
                    lemma_ends_with_one(before, spec_opcode_byte(OpCode::Subtract));
                }
            },
            TokenType::Star => {
                self.emit_op(OpCode::Multiply);
                proof {
                    lemma_ends_with_one(before, spec_opcode_byte(OpCode::Multiply));
                }
            },
            TokenType::Slash => {
                self.emit_op(OpCode::Divide);
                proof {
                    lemma_ends_with_one(before, spec_opcode_byte(OpCode::Divide));
                }
            },
            _ => self.error_at_current("binary operator mismatch."),
        }
    }

    /// Short-circuit `and`: when the left side is falsey, jump over the right
    /// side, leaving the left value as the answer.
    fn and(&mut self, can_assign: bool)
        requires
            old(self).wf(),
        ensures
            parse_bundle(*old(self), *final(self)),
            !final(self).had_error ==> ({
                let b = final(self).funpiler.chunk@.bytes;
                let j = old(self).funpiler.chunk@.bytes.len() as int;
                &&& b.len() >= j + 4
                &&& b[j] == spec_opcode_byte(OpCode::JumpIfFalse)
                &&& b[j + 1] * 256 + b[j + 2] == b.len() - (j + 3)
                &&& b[j + 3] == spec_opcode_byte(OpCode::Pop)
            }),
            !final(self).had_error ==> final(self).funpiler.effect@ == old(self).funpiler.effect@ && final(self).funpiler.locals == old(self).funpiler.locals,
        decreases
                old(self).scanner.dec1(),
                old(self).scanner.dec2(),
                old(self).scanner.dec3(),
                old(self).cur_flag(),
                8int,
    {
        let ghost j = self.funpiler.chunk@.bytes.len() as int;
        let jump = self.emit_jump(OpCode::JumpIfFalse);
        self.emit_op(OpCode::Pop);
        let ghost b_head = self.funpiler.chunk@.bytes;
        self.parse_precedence(ParsePrecedence::And);
        let ghost b_right = self.funpiler.chunk@.bytes;
        self.patch_jump(jump);
        proof {
            if !self.had_error {
                let b = self.funpiler.chunk@.bytes;
                assert(b_right[j] == b_head[j] && b_right[j + 3] == b_head[j + 3]);
                assert(b[j] == spec_opcode_byte(OpCode::JumpIfFalse));
                assert(b[j + 3] == spec_opcode_byte(OpCode::Pop));
                assert(b[j + 1] * 256 + b[j + 2] == b.len() - (j + 3));
            }
        }
        proof {
            assert(old(self).funpiler.chunk@.bytes.is_prefix_of(
                self.funpiler.chunk@.bytes,
            )) by {
                assert(self.funpiler.chunk@.bytes.subrange(
                    0,
                    old(self).funpiler.chunk@.bytes.len() as int,
                ) =~= old(self).funpiler.chunk@.bytes);
            }
        }
    }

    /// Short-circuit `or`: when the left side is falsey, hop over the exit
    /// jump into the right side; otherwise the left value is the answer.
    fn or(&mut self, can_assign: bool)
        requires
            old(self).wf(),
        ensures
            parse_bundle(*old(self), *final(self)),
            !final(self).had_error ==> ({
                let b = final(self).funpiler.chunk@.bytes;
                let j = old(self).funpiler.chunk@.bytes.len() as int;
                &&& b.len() >= j + 7
                &&& b[j] == spec_opcode_byte(OpCode::JumpIfFalse)
                &&& b[j + 1] * 256 + b[j + 2] == 3
                &&& b[j + 3] == spec_opcode_byte(OpCode::Jump)
                &&& b[j + 4] * 256 + b[j + 5] == b.len() - (j + 6)
                &&& b[j + 6] == spec_opcode_byte(OpCode::Pop)
            }),
            !final(self).had_error ==> final(self).funpiler.effect@ == old(self).funpiler.effect@ && final(self).funpiler.locals == old(self).funpiler.locals,
        decreases
                old(self).scanner.dec1(),
                old(self).scanner.dec2(),
                old(self).scanner.dec3(),
                old(self).cur_flag(),
                8int,
    {
        let ghost j = self.funpiler.chunk@.bytes.len() as int;
        let hop = self.emit_jump(OpCode::JumpIfFalse);
        let end_jump = self.emit_jump(OpCode::Jump);
        self.patch_jump(hop);
        proof {
            assert(old(self).funpiler.chunk@.bytes.is_prefix_of(
                self.funpiler.chunk@.bytes,
            )) by {
                assert(self.funpiler.chunk@.bytes.subrange(
                    0,
                    old(self).funpiler.chunk@.bytes.len() as int,
                ) =~= old(self).funpiler.chunk@.bytes);
            }
        }

        self.emit_op(OpCode::Pop);
        let ghost b_head = self.funpiler.chunk@.bytes;
        self.parse_precedence(ParsePrecedence::Or);
        let ghost b_right = self.funpiler.chunk@.bytes;
        self.patch_jump(end_jump);
        proof {
            if !self.had_error {
                let b = self.funpiler.chunk@.bytes;
                assert(b_right[j] == b_head[j] && b_right[j + 1] == b_head[j + 1] && b_right[j + 2]
                    == b_head[j + 2] && b_right[j + 3] == b_head[j + 3] && b_right[j + 6]
                    == b_head[j + 6]);
                assert(b[j] == spec_opcode_byte(OpCode::JumpIfFalse));
                assert(b[j + 1] * 256 + b[j + 2] == 3);
                assert(b[j + 3] == spec_opcode_byte(OpCode::Jump));
                assert(b[j + 4] * 256 + b[j + 5] == b.len() - (j + 6));
                assert(b[j + 6] == spec_opcode_byte(OpCode::Pop));
            }
        }
        proof {
            assert(old(self).funpiler.chunk@.bytes.is_prefix_of(
                self.funpiler.chunk@.bytes,
            )) by {
                assert(self.funpiler.chunk@.bytes.subrange(
                    0,
                    old(self).funpiler.chunk@.bytes.len() as int,
                ) =~= old(self).funpiler.chunk@.bytes);
            }
        }
    }

    /// A name: a local when one is in scope, a global otherwise. When the
    /// context allows assignment and an `=` follows, the reference is a
    /// store; either way the value stays on the stack.
    fn variable(&mut self, can_assign: bool)
        requires
            old(self).wf(),
        ensures
            parse_bundle(*old(self), *final(self)),
            !final(self).had_error ==> final(self).funpiler.chunk@.bytes.len() >= old(self).funpiler.chunk@.bytes.len() + 2 && ({
                let b = final(self).funpiler.chunk@.bytes;
                let opb = b[b.len() - 2];
                &&& (opb == spec_opcode_byte(OpCode::GetLocal) || opb == spec_opcode_byte(
                    OpCode::GetGlobal,
                ) || opb == spec_opcode_byte(OpCode::SetLocal) || opb == spec_opcode_byte(
                    OpCode::SetGlobal,
                ))
                &&& (!can_assign ==> opb == spec_opcode_byte(OpCode::GetLocal) || opb
                    == spec_opcode_byte(OpCode::GetGlobal))
            }),
            !final(self).had_error ==> final(self).funpiler.effect@ == old(self).funpiler.effect@ + 1 && final(self).funpiler.locals == old(self).funpiler.locals,
        decreases
                old(self).scanner.dec1(),
                old(self).scanner.dec2(),
                old(self).scanner.dec3(),
                old(self).cur_flag(),
                8int,
    {
        let identifier_token = self.previous_token;
        let local = self.local_index(identifier_token);
        let (get_op, set_op, index): (OpCode, OpCode, u8) = match local {
            Some(local_slot) => (OpCode::GetLocal, OpCode::SetLocal, local_slot),
            None => (
                OpCode::GetGlobal,
                OpCode::SetGlobal,
                self.global_identifier(identifier_token, false),
            ),
        };

        if can_assign && self.match_token(TokenType::Equal) {
            self.expression();
            self.emit_op(set_op);
            self.emit_byte(index);
        } else {
            self.emit_op(get_op);
            self.emit_byte(index);
        }
    }

    /// The argument list of a call, leaving each argument on the stack.
    fn arguments(&mut self) -> (arg_count: u8)
        requires
            old(self).wf(),
        ensures
            parse_bundle(*old(self), *final(self)),
            !final(self).had_error ==> final(self).funpiler.effect@ == old(self).funpiler.effect@ + arg_count && final(self).funpiler.locals == old(self).funpiler.locals,
        decreases
                old(self).scanner.dec1(),
                old(self).scanner.dec2(),
                old(self).scanner.dec3(),
                old(self).cur_flag(),
                6int,
    {
        let mut arg_count: u8 = 0;
        if !self.check_token(TokenType::RightParen) {
            loop
                invariant
                    self.wf(),
                    parse_bundle(*old(self), *self),
                    !self.had_error ==> self.funpiler.effect@ == old(self).funpiler.effect@
                        + arg_count && self.funpiler.locals == old(self).funpiler.locals,
                ensures
                    self.wf(),
                    parse_bundle(*old(self), *self),
                    !self.had_error ==> self.funpiler.effect@ == old(self).funpiler.effect@
                        + arg_count && self.funpiler.locals == old(self).funpiler.locals,
                decreases
                        self.scanner.dec1(),
                        self.scanner.dec2(),
                        self.scanner.dec3(),
                        self.cur_flag(),
                {
                if arg_count == 255 {
                    self.error_at_current("Cannot have more than 255 arguments");
                    break ;
                }
                if self.check_token(TokenType::Eof) {
                    break ;
                }
                self.expression();
                arg_count = arg_count + 1;
                if !self.match_token(TokenType::Comma) {
                    break ;
                }
            }
        }
        self.consume(TokenType::RightParen, "Expect ')' after arguments.");
        arg_count
    }

    /// A call expression: the callee and the arguments are on the stack, in
    /// that order, when `Call` executes.
    fn call_fn(&mut self)
        requires
            old(self).wf(),
        ensures
            parse_bundle(*old(self), *final(self)),
            !final(self).had_error ==> final(self).funpiler.chunk@.bytes.len() >= 2 && final(self).funpiler.chunk@.bytes[final(self).funpiler.chunk@.bytes.len() - 2]
                == spec_opcode_byte(OpCode::Call),
            !final(self).had_error ==> final(self).funpiler.effect@ == old(self).funpiler.effect@ && final(self).funpiler.locals == old(self).funpiler.locals,
        decreases
                old(self).scanner.dec1(),
                old(self).scanner.dec2(),
                old(self).scanner.dec3(),
                old(self).cur_flag(),
                8int,
    {
        let arg_count = self.arguments();
        self.emit_op(OpCode::Call);
        self.emit_byte(arg_count);
        proof {
            // `Call` pops the callee and the arguments and pushes the one
            // result; its effect depends on this operand, so it is counted
            // here rather than in the opcode table.
            self.funpiler.effect@ = self.funpiler.effect@ - arg_count as int;
        }
    }

    fn call_parse_fn(&mut self, parse_fn: ParseFn, can_assign: bool)
        requires
            old(self).wf(),
        ensures
            parse_bundle(*old(self), *final(self)),
            !final(self).had_error ==> final(self).funpiler.effect@ == old(self).funpiler.effect@ + parse_fn_effect(parse_fn) && final(self).funpiler.locals == old(self).funpiler.locals,
        decreases
                old(self).scanner.dec1(),
                old(self).scanner.dec2(),
                old(self).scanner.dec3(),
                old(self).cur_flag(),
                10int,
    {
        match parse_fn {
            ParseFn::Nothing => (),
            ParseFn::Number => self.number(can_assign),
            ParseFn::Binary => self.binary(can_assign),
            ParseFn::Grouping => self.grouping(can_assign),
            ParseFn::Call => self.call_fn(),
            ParseFn::Unary => self.unary(can_assign),
            ParseFn::Variable => self.variable(can_assign),
            ParseFn::String => self.string(can_assign),
            ParseFn::Literal => self.literal(can_assign),
            ParseFn::And => self.and(can_assign),
            ParseFn::Or => self.or(can_assign),
        }
    }

    /// The Pratt core: the previous token's prefix role, then every infix
    /// whose precedence reaches `precedence`. Prefix handlers may take an
    /// assignment only when called at assignment level; a stray `=` after the
    /// expression is an invalid assignment target.
    fn parse_precedence(&mut self, precedence: ParsePrecedence)
        requires
            old(self).wf(),
            spec_prec(precedence) >= 1,
        ensures
            parse_bundle(*old(self), *final(self)),
            // A token with no prefix role cannot begin an expression.
            spec_rule(old(self).current_token.token_type).prefix == ParseFn::Nothing ==> final(self).had_error,
            !final(self).had_error ==> final(self).funpiler.effect@ == old(self).funpiler.effect@ + 1 && final(self).funpiler.locals == old(self).funpiler.locals,
            old(self).current_token.token_type != TokenType::Eof ==> fuel_lt(
                *final(self),
                *old(self),
            ),
        decreases
                old(self).scanner.dec1(),
                old(self).scanner.dec2(),
                old(self).scanner.dec3(),
                old(self).cur_flag(),
                2int,
    {
        self.advance();
        let prefix_fn = self.get_rule(self.previous_token.token_type).prefix;
        if prefix_fn == ParseFn::Nothing {
            self.error_at_current("Expected expression.");
            return ;
        }

        let can_assign = precedence.le(ParsePrecedence::Assignment);
        self.call_parse_fn(prefix_fn, can_assign);

        loop
            invariant
                self.wf(),
                parse_bundle(*old(self), *self),
                old(self).current_token.token_type != TokenType::Eof ==> fuel_lt(
                    *self,
                    *old(self),
                ),
                spec_prec(precedence) >= 1,
                !self.had_error ==> self.funpiler.effect@ == old(self).funpiler.effect@ + 1
                    && self.funpiler.locals == old(self).funpiler.locals,
            ensures
                self.wf(),
                parse_bundle(*old(self), *self),
                old(self).current_token.token_type != TokenType::Eof ==> fuel_lt(
                    *self,
                    *old(self),
                ),
                !self.had_error ==> self.funpiler.effect@ == old(self).funpiler.effect@ + 1
                    && self.funpiler.locals == old(self).funpiler.locals,
            decreases
                    self.scanner.dec1(),
                    self.scanner.dec2(),
                    self.scanner.dec3(),
                    self.cur_flag(),
        {
            let rule_precedence = self.get_rule(self.current_token.token_type).precedence;
            if !precedence.le(rule_precedence) {
                break ;
            }
            proof {
                assert(self.current_token.token_type != TokenType::Eof);
            }
            self.advance();
            let infix_fn = self.get_rule(self.previous_token.token_type).infix;
            self.call_parse_fn(infix_fn, can_assign);
        }

        if can_assign && self.match_token(TokenType::Equal) {
            self.error_at_current("Invalid assignment target.");
        }
    }
}


impl Compiler {
    // -----------------------------------------------------------------------
    // Statements and declarations
    // -----------------------------------------------------------------------

    fn expression_statement(&mut self)
        requires
            old(self).wf(),
        ensures
            parse_bundle(*old(self), *final(self)),
            !final(self).had_error ==> ends_with(
                final(self).funpiler.chunk@.bytes,
                seq![spec_opcode_byte(OpCode::Pop)],
            ),
            !final(self).had_error ==> balanced_emission(old(self).funpiler, final(self).funpiler, 0),
            old(self).current_token.token_type != TokenType::Eof ==> fuel_lt(
                *final(self),
                *old(self),
            ),
        decreases
                old(self).scanner.dec1(),
                old(self).scanner.dec2(),
                old(self).scanner.dec3(),
                old(self).cur_flag(),
                31int,
    {
        self.expression();
        self.consume_newline("Expect newline after expression.");
        let ghost before = self.funpiler.chunk@.bytes;
        self.emit_op(OpCode::Pop);
        proof {
            lemma_ends_with_one(before, spec_opcode_byte(OpCode::Pop));
        }
    }

    /// `if <expr> ':' NEWLINE <stmt> (else (':' NEWLINE)? <stmt>)?` — with an
    /// `else if` chain allowed without its own colon.
    fn if_statement(&mut self)
        requires
            old(self).wf(),
        ensures
            parse_bundle(*old(self), *final(self)),
            !final(self).had_error ==> (exists|j: int, e: int|
                #![trigger final(self).funpiler.chunk@.bytes[j], final(self).funpiler.chunk@.bytes[e]]
                ({
                    let b = final(self).funpiler.chunk@.bytes;
                    &&& old(self).funpiler.chunk@.bytes.len() <= j
                    &&& j + 4 <= e && e + 3 <= b.len()
                    &&& b[j] == spec_opcode_byte(OpCode::JumpIfFalse)
                    &&& b[j + 1] * 256 + b[j + 2] == e - j - 1
                    &&& b[j + 3] == spec_opcode_byte(OpCode::Pop)
                    &&& b[e - 1] == spec_opcode_byte(OpCode::Jump)
                    &&& b[e] * 256 + b[e + 1] == b.len() - (e + 2)
                    &&& b[e + 2] == spec_opcode_byte(OpCode::Pop)
                })),
            !final(self).had_error ==> balanced_emission(old(self).funpiler, final(self).funpiler, 0),
        decreases
                old(self).scanner.dec1(),
                old(self).scanner.dec2(),
                old(self).scanner.dec3(),
                old(self).cur_flag(),
                33int,
    {
        self.expression();
        self.consume(TokenType::Colon, "Expect ':' after condition.");
        self.consume_newline("Expect newline after ':'");

        let then_jump = self.emit_jump(OpCode::JumpIfFalse);
        self.emit_op(OpCode::Pop);
        self.statement();

        let else_jump = self.emit_jump(OpCode::Jump);

        self.patch_jump(then_jump);
        proof {
            // The fall-through after the unconditional jump is unreachable:
            // the only path arriving here is the patched conditional jump,
            // taken while the condition value was still on the stack.
            self.funpiler.effect@ = self.funpiler.effect@ + 1;
        }
        proof {
            assert(old(self).funpiler.chunk@.bytes.is_prefix_of(
                self.funpiler.chunk@.bytes,
            )) by {
                assert(self.funpiler.chunk@.bytes.subrange(
                    0,
                    old(self).funpiler.chunk@.bytes.len() as int,
                ) =~= old(self).funpiler.chunk@.bytes);
            }
        }

        self.emit_op(OpCode::Pop);
        let ghost b_mid = self.funpiler.chunk@.bytes;

        if self.match_token(TokenType::Else) {
            if !self.check_token(TokenType::If) {
                self.consume(TokenType::Colon, "Expect ':' after 'else'.");
                self.consume_newline("Expect newline after ':'");
            }
            self.statement();
        }
        let ghost b_tail = self.funpiler.chunk@.bytes;
        self.patch_jump(else_jump);
        proof {
            if !self.had_error {
                let b = self.funpiler.chunk@.bytes;
                let j = then_jump - 1;
                let e = else_jump as int;
                assert(b_tail[j] == b_mid[j] && b_tail[j + 1] == b_mid[j + 1] && b_tail[j + 2]
                    == b_mid[j + 2] && b_tail[j + 3] == b_mid[j + 3] && b_tail[e - 1] == b_mid[e
                    - 1] && b_tail[e + 2] == b_mid[e + 2]);
                assert(b[j] == spec_opcode_byte(OpCode::JumpIfFalse));
                assert(b[j + 1] * 256 + b[j + 2] == e - j - 1);
                assert(b[j + 3] == spec_opcode_byte(OpCode::Pop));
                assert(b[e - 1] == spec_opcode_byte(OpCode::Jump));
                assert(b[e] * 256 + b[e + 1] == b.len() - (e + 2));
                assert(b[e + 2] == spec_opcode_byte(OpCode::Pop));
            }
        }
        proof {
            assert(old(self).funpiler.chunk@.bytes.is_prefix_of(
                self.funpiler.chunk@.bytes,
            )) by {
                assert(self.funpiler.chunk@.bytes.subrange(
                    0,
                    old(self).funpiler.chunk@.bytes.len() as int,
                ) =~= old(self).funpiler.chunk@.bytes);
            }
        }
    }

    /// `while <expr> ':' NEWLINE <stmt>`, closed by a backward jump to the
    /// condition.
    fn while_statement(&mut self)
        requires
            old(self).wf(),
        ensures
            parse_bundle(*old(self), *final(self)),
            !final(self).had_error ==> ({
                let b = final(self).funpiler.chunk@.bytes;
                let top = old(self).funpiler.chunk@.bytes.len() as int;
                &&& b.len() >= top + 8
                &&& b[b.len() - 1] == spec_opcode_byte(OpCode::Pop)
                &&& b[b.len() - 4] == spec_opcode_byte(OpCode::JumpBack)
                &&& b[b.len() - 3] * 256 + b[b.len() - 2] == b.len() - 1 - top
                &&& (exists|j: int|
                    #![trigger final(self).funpiler.chunk@.bytes[j]]
                    top <= j && j + 4 <= b.len() && b[j] == spec_opcode_byte(
                        OpCode::JumpIfFalse,
                    ) && b[j + 1] * 256 + b[j + 2] == b.len() - 1 - (j + 3) && b[j + 3]
                        == spec_opcode_byte(OpCode::Pop))
            }),
            !final(self).had_error ==> balanced_emission(old(self).funpiler, final(self).funpiler, 0),
        decreases
                old(self).scanner.dec1(),
                old(self).scanner.dec2(),
                old(self).scanner.dec3(),
                old(self).cur_flag(),
                33int,
    {
        let jump_landing = self.funpiler.chunk.bytes.len();
        self.expression();
        self.consume(TokenType::Colon, "Expect ':' after condition.");
        self.consume_newline("Expect newline after ':'");
        let loop_break_jump = self.emit_jump(OpCode::JumpIfFalse);
        self.emit_op(OpCode::Pop);
        let ghost b_head = self.funpiler.chunk@.bytes;
        self.statement();
        self.emit_back_jump(jump_landing);
        let ghost b_back = self.funpiler.chunk@.bytes;

        self.patch_jump(loop_break_jump);
        proof {
            // The fall-through after the backward jump is unreachable: the
            // only path arriving here is the patched conditional jump, taken
            // while the condition value was still on the stack.
            self.funpiler.effect@ = self.funpiler.effect@ + 1;
        }
        proof {
            assert(old(self).funpiler.chunk@.bytes.is_prefix_of(
                self.funpiler.chunk@.bytes,
            )) by {
                assert(self.funpiler.chunk@.bytes.subrange(
                    0,
                    old(self).funpiler.chunk@.bytes.len() as int,
                ) =~= old(self).funpiler.chunk@.bytes);
            }
        }
        let ghost b_patched = self.funpiler.chunk@.bytes;
        self.emit_op(OpCode::Pop);
        proof {
            if !self.had_error {
                let b = self.funpiler.chunk@.bytes;
                let j = loop_break_jump - 1;
                assert(b_back[j] == b_head[j] && b_back[j + 3] == b_head[j + 3]);
                assert(b_patched[j] == b_back[j] && b_patched[j + 3] == b_back[j + 3]);
                assert(b[b.len() - 1] == spec_opcode_byte(OpCode::Pop));
                assert(b[b.len() - 4] == spec_opcode_byte(OpCode::JumpBack));
                assert(b[b.len() - 3] * 256 + b[b.len() - 2] == b.len() - 1 - jump_landing);
                assert(b[j] == spec_opcode_byte(OpCode::JumpIfFalse));
                assert(b[j + 1] * 256 + b[j + 2] == b.len() - 1 - (j + 3));
                assert(b[j + 3] == spec_opcode_byte(OpCode::Pop));
            }
        }
    }

    /// `return (<expr>)? NEWLINE` — a bare return yields `null`; returning
    /// from the top level is an error.
    fn return_statement(&mut self)
        requires
            old(self).wf(),
        ensures
            parse_bundle(*old(self), *final(self)),
            old(self).funpiler_stack@.len() <= 1 ==> final(self).had_error,
            !final(self).had_error && (old(self).current_token.token_type == TokenType::NewLine
                || old(self).current_token.token_type == TokenType::Eof) ==> final(self).funpiler.chunk@.bytes == old(self).funpiler.chunk@.bytes.push(
                spec_opcode_byte(OpCode::Null),
            ).push(spec_opcode_byte(OpCode::Return)),
            !final(self).had_error ==> ends_with(
                final(self).funpiler.chunk@.bytes,
                seq![spec_opcode_byte(OpCode::Return)],
            ),
            !final(self).had_error ==> balanced_emission(old(self).funpiler, final(self).funpiler, 0),
        decreases
                old(self).scanner.dec1(),
                old(self).scanner.dec2(),
                old(self).scanner.dec3(),
                old(self).cur_flag(),
                33int,
    {
        if self.funpiler_stack.len() <= 1 {
            self.error_at_current("Cannot return from top-level code.");
        }

        if self.match_token(TokenType::NewLine) {
            let ghost before = self.funpiler.chunk@.bytes;
            self.emit_ops(OpCode::Null, OpCode::Return);
            proof {
                lemma_ends_with_one(
                    before.push(spec_opcode_byte(OpCode::Null)),
                    spec_opcode_byte(OpCode::Return),
                );
            }
        } else if self.check_token(TokenType::Eof) {
            let ghost before = self.funpiler.chunk@.bytes;
            self.emit_ops(OpCode::Null, OpCode::Return);
            proof {
                lemma_ends_with_one(
                    before.push(spec_opcode_byte(OpCode::Null)),
                    spec_opcode_byte(OpCode::Return),
                );
            }
        } else {
            self.expression();
            self.consume_newline("Expect newline after return value.");
            let ghost before = self.funpiler.chunk@.bytes;
            self.emit_op(OpCode::Return);
            proof {
                lemma_ends_with_one(before, spec_opcode_byte(OpCode::Return));
            }
        }
    }

    /// `INDENT <decl>* DEDENT`: the declarations of one indented block.
    fn block(&mut self)
        requires
            old(self).wf(),
        ensures
            parse_bundle(*old(self), *final(self)),
            !final(self).had_error ==> balanced_emission(old(self).funpiler, final(self).funpiler, 0),
        decreases
                old(self).scanner.dec1(),
                old(self).scanner.dec2(),
                old(self).scanner.dec3(),
                old(self).cur_flag(),
                34int,
    {
        loop
            invariant
                self.wf(),
                parse_bundle(*old(self), *self),
                !self.had_error ==> balanced_emission(old(self).funpiler, self.funpiler, 0),
            ensures
                self.wf(),
                parse_bundle(*old(self), *self),
                !self.had_error ==> balanced_emission(old(self).funpiler, self.funpiler, 0),
            decreases
                    self.scanner.dec1(),
                    self.scanner.dec2(),
                    self.scanner.dec3(),
                    self.cur_flag(),
        {
            if self.check_token(TokenType::Dedent) {
                break ;
            }
            if self.check_token(TokenType::Eof) {
                break ;
            }
            self.declaration();
        }
        // The end of the source closes the block as a dedent would.
        if self.check_token(TokenType::Dedent) {
            self.advance();
        }
    }

    /// A local `var`: the slot is reserved before the initialiser runs, but
    /// stays unusable inside it; duplicates within the same scope are
    /// rejected, shadowing an outer scope is allowed.
    fn var_local(&mut self)
        requires
            old(self).wf(),
        ensures
            parse_bundle(*old(self), *final(self)),
            // The new local occupies the next slot, named by the declared
            // identifier, live at the current depth once the initialiser is
            // done.
            !final(self).had_error ==> final(self).funpiler.locals@.len() == old(self).funpiler.locals@.len() + 1 && final(self).funpiler.locals@.last().token == old(self).previous_token
                && final(self).funpiler.locals@.last().depth == Some(final(self).funpiler.scope_depth),
            !final(self).had_error ==> balanced_emission(old(self).funpiler, final(self).funpiler, 0),
        decreases
                old(self).scanner.dec1(),
                old(self).scanner.dec2(),
                old(self).scanner.dec3(),
                old(self).cur_flag(),
                33int,
    {
        let new_local = self.previous_token;

        let mut i: usize = self.funpiler.locals.len();
        loop
            invariant
                self.wf(),
                parse_bundle(*old(self), *self),
                self.funpiler == old(self).funpiler,
                token_ok(self.src(), new_local),
                i <= self.funpiler.locals@.len(),
            ensures
                self.wf(),
                parse_bundle(*old(self), *self),
                self.funpiler == old(self).funpiler,
                token_ok(self.src(), new_local),
            decreases i,
        {
            if i == 0 {
                break ;
            }
            i = i - 1;
            let local = self.funpiler.locals[i];
            let outer = match local.depth {
                Some(d) => d < self.funpiler.scope_depth,
                None => false,
            };
            if outer {
                break ;
            }
            if self.identifiers_equal(local.token, new_local) {
                self.error_at_current("Already a variable with this name in scope.");
                break ;
            }
        }

        if self.funpiler.locals.len() >= 255 {
            self.error_at_current("Local variable count has been exceeded.");
        } else {
            self.funpiler.locals.push(Local { token: new_local, depth: None });
        }

        if self.match_token(TokenType::Equal) {
            self.expression();
        } else {
            self.emit_op(OpCode::Null);
        }
        self.consume_newline("Expect newline after expression.");

        let n = self.funpiler.locals.len();
        if n > 0 {
            let d = self.funpiler.scope_depth;
            self.funpiler.locals[n - 1].depth = Some(d);
        }
    }

    /// A global `var`: the initialiser (or `null`) is computed, then stored
    /// by `DefineGlobal`.
    fn var_global(&mut self)
        requires
            old(self).wf(),
            token_ok(old(self).src(), old(self).previous_token),
        ensures
            parse_bundle(*old(self), *final(self)),
            !final(self).had_error ==> final(self).funpiler.chunk@.bytes.len() >= 2 && final(self).funpiler.chunk@.bytes[final(self).funpiler.chunk@.bytes.len() - 2]
                == spec_opcode_byte(OpCode::DefineGlobal),
            !final(self).had_error ==> balanced_emission(old(self).funpiler, final(self).funpiler, 0),
        decreases
                old(self).scanner.dec1(),
                old(self).scanner.dec2(),
                old(self).scanner.dec3(),
                old(self).cur_flag(),
                33int,
    {
        let token = self.previous_token;
        let global_index = self.global_identifier(token, true);

        if self.match_token(TokenType::Equal) {
            self.expression();
        } else {
            self.emit_op(OpCode::Null);
        }
        self.consume_newline("Expect newline after expression.");
        self.emit_op(OpCode::DefineGlobal);
        self.emit_byte(global_index);
    }

    fn var_declaration(&mut self)
        requires
            old(self).wf(),
        ensures
            parse_bundle(*old(self), *final(self)),
            !final(self).had_error ==> balanced_emission(old(self).funpiler, final(self).funpiler, 0),
        decreases
                old(self).scanner.dec1(),
                old(self).scanner.dec2(),
                old(self).scanner.dec3(),
                old(self).cur_flag(),
                34int,
    {
        self.consume(TokenType::Identifier, "Expect variable name.");
        if self.funpiler.scope_depth == 0 {
            self.var_global();
        } else {
            self.var_local();
        }
    }

    /// Compiles a function body in a fresh frame: parameters become locals
    /// 1..arity, the body is one indented block, and the sealed function
    /// always ends in `Null` `Return`.
    fn function(&mut self, name: Vec<u8>) -> (f: Function)
        requires
            old(self).wf(),
        ensures
            parse_bundle(*old(self), *final(self)),
            final(self).funpiler == old(self).funpiler,
            f@.chunk.wf(),
            ends_null_return(f@.chunk.bytes),
        decreases
                old(self).scanner.dec1(),
                old(self).scanner.dec2(),
                old(self).scanner.dec3(),
                old(self).cur_flag(),
                35int,
    {
        self.new_funpiler();
        self.funpiler.name = name;
        self.begin_scope();

        self.consume(TokenType::LeftParen, "Expect '(' after function name.");
        if !self.check_token(TokenType::RightParen) {
            loop
                invariant
                    self.wf(),
                    errors_extended(*old(self), *self),
                    fuel_le(*self, *old(self)),
                    self.source == old(self).source,
                    self.natives == old(self).natives,
                    old(self).functions@.len() <= self.functions@.len(),
                    self.funpiler_stack@ == old(self).funpiler_stack@.push(old(self).funpiler),
                ensures
                    self.wf(),
                    errors_extended(*old(self), *self),
                    fuel_le(*self, *old(self)),
                    self.source == old(self).source,
                    self.natives == old(self).natives,
                    old(self).functions@.len() <= self.functions@.len(),
                    self.funpiler_stack@ == old(self).funpiler_stack@.push(old(self).funpiler),
                decreases
                        self.scanner.dec1(),
                        self.scanner.dec2(),
                        self.scanner.dec3(),
                        self.cur_flag(),
            {
                let ghost iter_start = *self;
                if self.funpiler.arity == 255 {
                    self.error_at_current("Cannot have more than 255 parameters.");
                    break ;
                }
                self.funpiler.arity = self.funpiler.arity + 1;

                self.consume(TokenType::Identifier, "Expect parameter name.");
                let new_local = self.previous_token;

                let mut i: usize = self.funpiler.locals.len();
                loop
                    invariant
                        self.wf(),
                        errors_extended(*old(self), *self),
                        fuel_le(*self, iter_start),
                        fuel_le(iter_start, *old(self)),
                        errors_extended(*old(self), iter_start),
                        self.source == old(self).source,
                        self.natives == old(self).natives,
                        old(self).functions@.len() <= self.functions@.len(),
                        self.funpiler_stack@ == old(self).funpiler_stack@.push(old(self).funpiler),
                        token_ok(self.src(), new_local),
                        i <= self.funpiler.locals@.len(),
                    ensures
                        self.wf(),
                        errors_extended(*old(self), *self),
                        fuel_le(*self, iter_start),
                        fuel_le(iter_start, *old(self)),
                        self.source == old(self).source,
                        self.natives == old(self).natives,
                        old(self).functions@.len() <= self.functions@.len(),
                        self.funpiler_stack@ == old(self).funpiler_stack@.push(old(self).funpiler),
                        token_ok(self.src(), new_local),
                    decreases i,
                {
                    if i == 0 {
                        break ;
                    }
                    i = i - 1;
                    let local = self.funpiler.locals[i];
                    let outer = match local.depth {
                        Some(d) => d < self.funpiler.scope_depth,
                        None => false,
                    };
                    if outer {
                        break ;
                    }
                    if self.identifiers_equal(local.token, new_local) {
                        self.error_at_current("Already a variable with this name in scope.");
                        break ;
                    }
                }

                if self.funpiler.locals.len() >= 255 {
                    self.error_at_current("Local variable count has been exceeded.");
                } else {
                    let d = self.funpiler.scope_depth;
                    self.funpiler.locals.push(Local { token: new_local, depth: Some(d) });
                }

                if !self.match_token(TokenType::Comma) {
                    break ;
                }
            }
        }
        self.consume(TokenType::RightParen, "Expect ')' after parameters.");
        self.consume(TokenType::Colon, "Expect ':' after function definition.");
        self.consume_newline("Expect newline after ':' in function definition.");
        self.consume(TokenType::Indent, "Expect indentation.");
        self.block();

        let f = self.end_funpiler();
        proof {
            assert(self.funpiler_stack@ =~= old(self).funpiler_stack@);
        }
        f
    }

    /// `fn IDENT '(' params ')' ':' NEWLINE INDENT body DEDENT` — allowed at
    /// top level only. The compiled function joins the function table and is
    /// bound to its global slot.
    fn fn_declaration(&mut self)
        requires
            old(self).wf(),
        ensures
            parse_bundle(*old(self), *final(self)),
            !final(self).had_error ==> final(self).functions@.len() >= old(self).functions@.len()
                + 1 && final(self).funpiler.chunk@.bytes.len() >= 4 && final(self).funpiler.chunk@.bytes[final(self).funpiler.chunk@.bytes.len() - 4]
                == spec_opcode_byte(OpCode::Constant) && final(self).funpiler.chunk@.bytes[final(self).funpiler.chunk@.bytes.len() - 2] == spec_opcode_byte(OpCode::DefineGlobal),
            !final(self).had_error ==> balanced_emission(old(self).funpiler, final(self).funpiler, 0),
        decreases
                old(self).scanner.dec1(),
                old(self).scanner.dec2(),
                old(self).scanner.dec3(),
                old(self).cur_flag(),
                36int,
    {
        self.consume(TokenType::Identifier, "Expect function name.");
        if self.funpiler.scope_depth > 0 {
            self.error_at_previous("Cannot declare function inside another function.");
        }
        let name_token = self.previous_token;
        let global_index = self.global_identifier(name_token, true);
        let name = self.token_name(name_token);

        let function = self.function(name);

        if self.functions.len() >= 0xffff_ffff {
            self.error_at_current("Too many functions.");
            return ;
        }
        let func_index = self.functions.len() as u32;
        self.functions.push(function);
        self.emit_constant(Value::Func(func_index));
        let ghost after_constant = self.funpiler.chunk@.bytes;

        self.emit_op(OpCode::DefineGlobal);
        self.emit_byte(global_index);
        proof {
            let b = self.funpiler.chunk@.bytes;
            assert(b[b.len() - 4] == after_constant[after_constant.len() - 2]);
            assert(b[b.len() - 2] == spec_opcode_byte(OpCode::DefineGlobal));
        }
    }

    /// One statement. On an error-free compile its emitted code is stack
    /// balanced: the net effect equals the number of locals it leaves in
    /// scope, and those are popped when their scope closes, so every push is
    /// matched by a pop, a branch or a return.
    fn statement(&mut self)
        requires
            old(self).wf(),
        ensures
            parse_bundle(*old(self), *final(self)),
            !final(self).had_error ==> balanced_emission(old(self).funpiler, final(self).funpiler, 0),
            old(self).current_token.token_type != TokenType::Eof ==> fuel_lt(
                *final(self),
                *old(self),
            ),
        decreases
                old(self).scanner.dec1(),
                old(self).scanner.dec2(),
                old(self).scanner.dec3(),
                old(self).cur_flag(),
                32int,
    {
        if self.match_token(TokenType::If) {
            self.if_statement();
        } else if self.match_token(TokenType::Return) {
            self.return_statement();
        } else if self.match_token(TokenType::While) {
            self.while_statement();
        } else if self.match_token(TokenType::Indent) {
            self.begin_scope();
            self.block();
            self.end_scope();
        } else {
            self.expression_statement();
        }
    }

    /// One declaration; after an error it resynchronises at a statement
    /// boundary. Its emitted code is stack balanced the way `statement`'s is.
    fn declaration(&mut self)
        requires
            old(self).wf(),
        ensures
            parse_bundle(*old(self), *final(self)),
            !final(self).had_error ==> balanced_emission(old(self).funpiler, final(self).funpiler, 0),
            old(self).current_token.token_type != TokenType::Eof ==> fuel_lt(
                *final(self),
                *old(self),
            ),
        decreases
                old(self).scanner.dec1(),
                old(self).scanner.dec2(),
                old(self).scanner.dec3(),
                old(self).cur_flag(),
                33int,
    {
        if self.match_token(TokenType::NewLine) {
            // A line with nothing on it.
            return ;
        }
        if self.match_token(TokenType::Fn) {
            self.fn_declaration();
        } else if self.match_token(TokenType::Var) {
            self.var_declaration();
        } else {
            self.statement();
        }

        if self.panic_mode {
            self.synchronise();
        }
    }
}


/// A token's position appears among the reported errors.
pub open spec fn use_reported(errors: Seq<CompilerError>, t: Token) -> bool {
    exists|k: int|
        0 <= k < errors.len() && (#[trigger] errors[k]).line == t.line && errors[k].start == t.start
            && errors[k].len == t.length
}

/// What has been reported stays reported as the error list grows.
pub proof fn lemma_use_reported_prefix(e1: Seq<CompilerError>, e2: Seq<CompilerError>, t: Token)
    requires
        e1.is_prefix_of(e2),
        use_reported(e1, t),
    ensures
        use_reported(e2, t),
{
    let k = choose|k: int|
        0 <= k < e1.len() && (#[trigger] e1[k]).line == t.line && e1[k].start == t.start
            && e1[k].len == t.length;
    assert(e2.subrange(0, e1.len() as int)[k] == e2[k]);
    assert(e2[k].line == t.line && e2[k].start == t.start && e2[k].len == t.length);
}

impl Compiler {
    /// The end-of-compile check behind forward references: any global still
    /// undeclared when the last token has been consumed is an error, reported
    /// once at every place that used it.
    fn report_undeclared_globals(&mut self)
        requires
            old(self).wf(),
        ensures
            final(self).wf(),
            errors_extended(*old(self), *final(self)),
            final(self).globals == old(self).globals,
            final(self).natives == old(self).natives,
            final(self).functions == old(self).functions,
            final(self).funpiler_stack == old(self).funpiler_stack,
            final(self).funpiler == old(self).funpiler,
            final(self).source == old(self).source,
            final(self).scanner == old(self).scanner,
            final(self).current_token == old(self).current_token,
            old(self).had_error ==> final(self).had_error,
            forall|i: int|
                0 <= i < final(self).globals@.len() && !(#[trigger] final(self).globals@[i]).declared ==> (forall|j: int|
                    0 <= j < final(self).globals@[i].uses@.len() ==> use_reported(
                        final(self).errors@,
                        #[trigger] final(self).globals@[i].uses@[j],
                    )),
    {
        let ghost pre = *self;
        let mut i: usize = 0;
        while i < self.globals.len()
            invariant
                pre == *old(self),
                pre.wf(),
                self.wf(),
                errors_extended(pre, *self),
                self.globals == pre.globals,
                self.natives == pre.natives,
                self.functions == pre.functions,
                self.funpiler_stack == pre.funpiler_stack,
                self.funpiler == pre.funpiler,
                self.scanner == pre.scanner,
                self.source == pre.source,
                self.current_token == pre.current_token,
                self.previous_token == pre.previous_token,
                pre.had_error ==> self.had_error,
                i <= self.globals@.len(),
                forall|a: int|
                    0 <= a < i && !(#[trigger] self.globals@[a]).declared ==> (forall|j: int|
                        0 <= j < self.globals@[a].uses@.len() ==> use_reported(
                            self.errors@,
                            #[trigger] self.globals@[a].uses@[j],
                        )),
            decreases self.globals@.len() - i,
        {
            if !self.globals[i].declared {
                let mut j: usize = 0;
                while j < self.globals[i].uses.len()
                    invariant
                        pre == *old(self),
                        pre.wf(),
                        self.wf(),
                        errors_extended(pre, *self),
                        self.globals == pre.globals,
                        self.natives == pre.natives,
                        self.functions == pre.functions,
                        self.funpiler_stack == pre.funpiler_stack,
                        self.funpiler == pre.funpiler,
                        self.scanner == pre.scanner,
                        self.source == pre.source,
                        self.current_token == pre.current_token,
                        self.previous_token == pre.previous_token,
                        pre.had_error ==> self.had_error,
                        i < self.globals@.len(),
                        j <= self.globals@[i as int].uses@.len(),
                        forall|a: int|
                            0 <= a < i && !(#[trigger] self.globals@[a]).declared ==> (forall|
                                b: int,
                            |
                                0 <= b < self.globals@[a].uses@.len() ==> use_reported(
                                    self.errors@,
                                    #[trigger] self.globals@[a].uses@[b],
                                )),
                        forall|b: int|
                            0 <= b < j ==> use_reported(
                                self.errors@,
                                #[trigger] self.globals@[i as int].uses@[b],
                            ),
                    decreases self.globals@[i as int].uses@.len() - j,
                {
                    let ghost before = *self;
                    self.panic_mode = false;
                    let t = self.globals[i].uses[j];
                    self.error_at(t, "Undefined variable.");
                    proof {
                        assert(self.errors@.last().line == t.line && self.errors@.last().start
                            == t.start && self.errors@.last().len == t.length);
                        assert(use_reported(self.errors@, t));
                        assert forall|a: int|
                            0 <= a < i && !(#[trigger] self.globals@[a]).declared implies (forall|
                            b: int,
                        |
                            0 <= b < self.globals@[a].uses@.len() ==> use_reported(
                                self.errors@,
                                #[trigger] self.globals@[a].uses@[b],
                            )) by {
                            assert forall|b: int|
                                0 <= b < self.globals@[a].uses@.len() implies use_reported(
                                self.errors@,
                                #[trigger] self.globals@[a].uses@[b],
                            ) by {
                                lemma_use_reported_prefix(
                                    before.errors@,
                                    self.errors@,
                                    self.globals@[a].uses@[b],
                                );
                            }
                        }
                        assert forall|b: int|
                            0 <= b < j + 1 implies use_reported(
                            self.errors@,
                            #[trigger] self.globals@[i as int].uses@[b],
                        ) by {
                            if b < j {
                                lemma_use_reported_prefix(
                                    before.errors@,
                                    self.errors@,
                                    self.globals@[i as int].uses@[b],
                                );
                            }
                        }
                    }
                    j = j + 1;
                }
            }
            i = i + 1;
        }
    }

    /// Copies the error list for the caller.
    fn copy_errors(&self) -> (es: Vec<CompilerError>)
        ensures
            es@ == self.errors@,
    {
        let mut out: Vec<CompilerError> = Vec::new();
        let mut i: usize = 0;
        while i < self.errors.len()
            invariant
                i <= self.errors@.len(),
                out@ =~= self.errors@.subrange(0, i as int),
            decreases self.errors@.len() - i,
        {
            out.push(self.errors[i]);
            proof {
                assert(out@ =~= self.errors@.subrange(0, i + 1));
            }
            i = i + 1;
        }
        proof {
            assert(out@ =~= self.errors@);
        }
        out
    }

    /// Runs the whole compile: every declaration of the source, the implicit
    /// `Null` `Return` that seals the top-level function, and the
    /// end-of-compile check on forward references. It succeeds exactly when
    /// no error was reported; on failure it yields every reported error —
    /// never an empty list — each lying at a token span of the source, with
    /// every use of a still-undeclared global reported (`use_reported`). On
    /// success every compiled function ends in `Null` `Return`, and the
    /// output carries the natives as installed and one slot per global.
    pub fn compile(&mut self) -> (r: Result<CompilerOutput, Vec<CompilerError>>)
        requires
            old(self).wf(),
        ensures
            final(self).wf(),
            final(self).source == old(self).source,
            errors_extended(*old(self), *final(self)),
            (r is Ok <==> !final(self).had_error),
            (r is Ok ==> final(self).errors@.len() == 0),
            // A successful compile consumed the whole source: the scanner
            // stands at the end and the lookahead is `Eof`.
            (r is Ok ==> final(self).current_token.token_type == TokenType::Eof && final(self).scanner.next == old(self).src().len()),
            (r matches Err(es) ==> es@ == final(self).errors@ && es@.len() > 0),
            (forall|k: int|
                0 <= k < final(self).errors@.len() ==> (#[trigger] final(self).errors@[k]).start
                    + final(self).errors@[k].len <= old(self).src().len()),
            (forall|i: int|
                0 <= i < final(self).globals@.len() && !(#[trigger] final(self).globals@[i]).declared ==> (forall|j: int|
                    0 <= j < final(self).globals@[i].uses@.len() ==> use_reported(
                        final(self).errors@,
                        #[trigger] final(self).globals@[i].uses@[j],
                    ))),
            (r matches Ok(out) ==> {
                &&& out.script_function@.chunk.wf()
                &&& ends_null_return(out.script_function@.chunk.bytes)
                &&& (forall|i: int|
                    0 <= i < out.functions@.len() ==> (#[trigger] out.functions@[i])@.chunk.wf()
                        && ends_null_return(out.functions@[i]@.chunk.bytes))
                &&& out.globals_count == final(self).globals@.len()
                &&& out.globals_count <= 256
                &&& out.natives@ == old(self).natives@
            }),
    {
        let ghost start = *old(self);
        self.new_funpiler();
        let mut script_name: Vec<u8> = Vec::new();
        script_name.push('s' as u8);
        script_name.push('c' as u8);
        script_name.push('r' as u8);
        script_name.push('i' as u8);
        script_name.push('p' as u8);
        script_name.push('t' as u8);
        self.funpiler.name = script_name;
        self.advance();
        let ghost base = self.funpiler_stack@;
        loop
            invariant
                start == *old(self),
                self.wf(),
                self.funpiler_stack@ == base,
                base.len() >= 1,
                errors_extended(start, *self),
                self.source == start.source,
                self.natives == start.natives,
            ensures
                start == *old(self),
                self.wf(),
                self.funpiler_stack@ == base,
                base.len() >= 1,
                errors_extended(start, *self),
                self.source == start.source,
                self.natives == start.natives,
                self.current_token.token_type == TokenType::Eof,
            decreases
                    self.scanner.dec1(),
                    self.scanner.dec2(),
                    self.scanner.dec3(),
                    self.cur_flag(),
        {
            if self.match_token(TokenType::Eof) {
                break ;
            }
            self.declaration();
        }

        let script_function = self.end_funpiler();

        self.report_undeclared_globals();

        if self.had_error {
            let es = self.copy_errors();
            return Err(es);
        }
        let mut natives_out: Vec<NativeFunction> = Vec::new();
        core::mem::swap(&mut self.natives, &mut natives_out);
        let mut functions_out: Vec<Function> = Vec::new();
        core::mem::swap(&mut self.functions, &mut functions_out);
        Ok(
            CompilerOutput {
                script_function,
                globals_count: self.globals.len(),
                natives: natives_out,
                functions: functions_out,
            },
        )
    }
}

} // verus!
