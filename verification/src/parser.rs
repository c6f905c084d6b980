//! The parser: from tokens to a tree of programs joined by pipes.
//!
//! ```text
//! pipeline -> program ( "|" pipeline )?
//! program  -> Command Flag* Argument*
//! ```

use vstd::prelude::*;
use vstd::string::*;
use crate::scanner::{
    resolved, texts, token_models, tokenize, tokens_of_text, Command, Op, Token, TokenModel,
};

verus! {

/// One command with its flags and arguments, flags first.
#[derive(Debug, PartialEq, Eq)]
pub struct Program {
    pub command: Command,
    pub arguments: Vec<String>,
}

/// What a `Program` stands for.
pub struct ProgramModel {
    pub command: Command,
    pub arguments: Seq<Seq<char>>,
}

impl View for Program {
    type V = ProgramModel;

    open spec fn view(&self) -> ProgramModel {
        ProgramModel { command: self.command, arguments: texts(self.arguments@) }
    }
}

/// The pieces of `s` between single spaces. There is always at least one,
/// and two spaces in a row hold an empty piece between them.
pub open spec fn pieces(s: Seq<char>) -> Seq<Seq<char>>
    decreases s.len(),
{
    if s.len() == 0 {
        seq![Seq::empty()]
    } else {
        let before = pieces(s.drop_last());
        if s.last() == ' ' {
            before.push(Seq::empty())
        } else {
            before.drop_last().push(before.last().push(s.last()))
        }
    }
}

/// The program that a line of space-separated words names: its first word
/// resolved to a command, the others its arguments.
pub open spec fn built(s: Seq<char>) -> ProgramModel {
    let parts = pieces(s);
    ProgramModel { command: resolved(parts[0]), arguments: parts.subrange(1, parts.len() as int) }
}

impl Program {
    /// Builds a program from a line of words separated by single spaces,
    /// without regard to quotes, flags or pipes. It never fails.
    pub fn build(buffer: &String) -> (r: Result<Self, &'static str>)
        ensures
            r is Ok,
            r->Ok_0@ == built(buffer@),
    {
        let line = buffer.as_str();
        let mut parts: Vec<String> = Vec::new();
        let mut current: String = String::new();
        for c in iter: line.chars()
            invariant
                iter.seq() == line@,
                pieces(line@.take(iter.index() as int)) == texts(parts@).push(current@),
        {
            proof {
                let upto = line@.take(iter.index() + 1);
                assert(upto.drop_last() =~= line@.take(iter.index() as int));
            }
            if c == ' ' {
                parts.push(current);
                current = String::new();
            } else {
                current.push(c);
            }
        }
        assert(line@.take(line@.len() as int) =~= line@);
        parts.push(current);
        let first = parts.remove(0);
        proof {
            let all = pieces(buffer@);
            assert(texts(parts@) =~= all.subrange(1, all.len() as int));
        }
        Ok(Program { command: Command::from_string(first), arguments: parts })
    }
}

/// Two expressions joined by an operator.
#[derive(Debug, PartialEq, Eq)]
pub struct Binary {
    pub left: Box<Expr>,
    pub right: Box<Expr>,
    pub operator: Op,
}

/// A parsed line: one program, or a pipe between two expressions.
#[derive(Debug, PartialEq, Eq)]
pub enum Expr {
    Binary(Binary),
    Program(Program),
}

/// What an `Expr` stands for.
pub enum ExprModel {
    Binary { left: Box<ExprModel>, right: Box<ExprModel>, operator: Op },
    Program(ProgramModel),
}

impl Expr {
    /// The model of this expression.
    pub open spec fn model(&self) -> ExprModel
        decreases self,
    {
        match self {
            Expr::Binary(binary) => ExprModel::Binary {
                left: Box::new((*binary.left).model()),
                right: Box::new((*binary.right).model()),
                operator: binary.operator,
            },
            Expr::Program(program) => ExprModel::Program(program@),
        }
    }
}

impl View for Expr {
    type V = ExprModel;

    open spec fn view(&self) -> ExprModel {
        self.model()
    }
}

/// How many flags stand in `tokens` from `from` on without a break.
pub open spec fn flag_run(tokens: Seq<TokenModel>, from: int) -> nat
    decreases tokens.len() - from,
{
    if 0 <= from < tokens.len() && tokens[from] is Flag {
        1 + flag_run(tokens, from + 1)
    } else {
        0
    }
}

/// How many arguments stand in `tokens` from `from` on without a break.
pub open spec fn argument_run(tokens: Seq<TokenModel>, from: int) -> nat
    decreases tokens.len() - from,
{
    if 0 <= from < tokens.len() && tokens[from] is Argument {
        1 + argument_run(tokens, from + 1)
    } else {
        0
    }
}

/// The text that a flag or an argument carries.
pub open spec fn word_of(token: TokenModel) -> Seq<char> {
    match token {
        TokenModel::Flag(text) => text,
        TokenModel::Argument(text) => text,
        _ => Seq::empty(),
    }
}

/// The texts of `tokens[from..to]`, in order.
pub open spec fn words(tokens: Seq<TokenModel>, from: int, to: int) -> Seq<Seq<char>> {
    tokens.subrange(from, to).map_values(|t: TokenModel| word_of(t))
}

/// Where the program that starts at `pos` ends: behind its command, its
/// run of flags and the run of arguments after them.
pub open spec fn program_end(tokens: Seq<TokenModel>, pos: int) -> int {
    let flags_end = pos + 1 + flag_run(tokens, pos + 1);
    flags_end + argument_run(tokens, flags_end)
}

/// The program that starts at `pos` and the position behind it, or `None`
/// where no command stands at `pos`.
pub open spec fn program_at(tokens: Seq<TokenModel>, pos: int) -> Option<(ProgramModel, int)> {
    if 0 <= pos < tokens.len() && tokens[pos] is Command {
        let end = program_end(tokens, pos);
        Some(
            (
                ProgramModel {
                    command: tokens[pos]->Command_0,
                    arguments: words(tokens, pos + 1, end),
                },
                end,
            ),
        )
    } else {
        None
    }
}

/// The pipeline that starts at `pos` and the position behind what was
/// consumed, or as error the position at which a command is missing: `pos`
/// itself, or the position behind a pipe. A token behind the last program
/// that is no pipe is consumed and ends the pipeline.
pub open spec fn pipeline_at(tokens: Seq<TokenModel>, pos: int) -> Result<(ExprModel, int), int>
    decreases tokens.len() - pos,
{
    match program_at(tokens, pos) {
        None => Err(pos),
        Some((program, end)) => if end < tokens.len() {
            if tokens[end] == TokenModel::Operator(Op::Pipe) {
                match pipeline_at(tokens, end + 1) {
                    Err(at) => Err(at),
                    Ok((rest, stop)) => Ok(
                        (
                            ExprModel::Binary {
                                left: Box::new(ExprModel::Program(program)),
                                right: Box::new(rest),
                                operator: Op::Pipe,
                            },
                            stop,
                        ),
                    ),
                }
            } else {
                Ok((ExprModel::Program(program), end + 1))
            }
        } else {
            Ok((ExprModel::Program(program), end))
        },
    }
}

/// The expression that the line `text` parses to, or `None` where it has
/// no command at its start or behind a pipe.
pub open spec fn parsed(text: Seq<char>) -> Option<ExprModel> {
    match pipeline_at(tokens_of_text(text), 0) {
        Ok((expr, _)) => Some(expr),
        Err(_) => None,
    }
}

/// A run of flags holds flags only and stays within the tokens.
pub proof fn lemma_flag_run(tokens: Seq<TokenModel>, from: int)
    requires
        0 <= from <= tokens.len(),
    ensures
        from + flag_run(tokens, from) <= tokens.len(),
        forall|i: int| from <= i < from + flag_run(tokens, from) ==> #[trigger] tokens[i] is Flag,
    decreases tokens.len() - from,
{
    if from < tokens.len() && tokens[from] is Flag {
        lemma_flag_run(tokens, from + 1);
    }
}

/// A run of arguments holds arguments only and stays within the tokens.
pub proof fn lemma_argument_run(tokens: Seq<TokenModel>, from: int)
    requires
        0 <= from <= tokens.len(),
    ensures
        from + argument_run(tokens, from) <= tokens.len(),
        forall|i: int|
            from <= i < from + argument_run(tokens, from) ==> #[trigger] tokens[i] is Argument,
    decreases tokens.len() - from,
{
    if from < tokens.len() && tokens[from] is Argument {
        lemma_argument_run(tokens, from + 1);
    }
}

/// Parses one program at the cursor `pos` and moves the cursor behind it.
pub fn parse_program(tokens: &Vec<Token>, pos: &mut usize) -> (r: Result<Program, &'static str>)
    ensures
        match r {
            Ok(program) => program_at(token_models(tokens@), *old(pos) as int) == Some(
                (program@, *final(pos) as int),
            ),
            Err(message) => {
                &&& program_at(token_models(tokens@), *old(pos) as int) is None
                &&& *final(pos) == *old(pos)
                &&& message@ == "No command found"@
            },
        },
{
    let ghost models = token_models(tokens@);
    let start: usize = *pos;
    if start >= tokens.len() {
        return Err("No command found");
    }
    let command = match &tokens[start] {
        Token::Command(command) => *command,
        _ => {
            return Err("No command found");
        },
    };
    let mut arguments: Vec<String> = Vec::new();
    let mut at: usize = start + 1;
    loop
        invariant
            start < at <= tokens.len(),
            models == token_models(tokens@),
            flag_run(models, start + 1) == (at - start - 1) + flag_run(models, at as int),
            texts(arguments@) == words(models, start + 1, at as int),
        ensures
            flag_run(models, at as int) == 0,
        decreases tokens.len() - at,
    {
        if at >= tokens.len() {
            break;
        }
        match &tokens[at] {
            Token::Flag(flag) => {
                let ghost before = texts(arguments@);
                arguments.push(flag.clone());
                assert(words(models, start + 1, at as int + 1) =~= before.push(flag@));
                at = at + 1;
            },
            _ => {
                break;
            },
        }
    }
    let flags_end: usize = at;
    loop
        invariant
            flags_end <= at <= tokens.len(),
            start < flags_end,
            models == token_models(tokens@),
            argument_run(models, flags_end as int) == (at - flags_end) + argument_run(
                models,
                at as int,
            ),
            texts(arguments@) == words(models, start + 1, at as int),
        ensures
            argument_run(models, at as int) == 0,
        decreases tokens.len() - at,
    {
        if at >= tokens.len() {
            break;
        }
        match &tokens[at] {
            Token::Argument(argument) => {
                let ghost before = texts(arguments@);
                arguments.push(argument.clone());
                assert(words(models, start + 1, at as int + 1) =~= before.push(argument@));
                at = at + 1;
            },
            _ => {
                break;
            },
        }
    }
    *pos = at;
    Ok(Program { command, arguments })
}

/// Parses a pipeline at the cursor `pos`: a program, and after a pipe
/// another pipeline. The token behind the last program, if there is one, is
/// consumed.
pub fn parse_pipe(tokens: &Vec<Token>, pos: &mut usize) -> (r: Result<Expr, &'static str>)
    ensures
        match r {
            Ok(expr) => pipeline_at(token_models(tokens@), *old(pos) as int) == Ok::<
                (ExprModel, int),
                int,
            >((expr@, *final(pos) as int)),
            Err(message) => {
                &&& pipeline_at(token_models(tokens@), *old(pos) as int) == Err::<
                    (ExprModel, int),
                    int,
                >(*final(pos) as int)
                &&& message@ == "No command found"@
            },
        },
    decreases tokens.len() - *old(pos),
{
    let ghost models = token_models(tokens@);
    let ghost start = *pos as int;
    let program = match parse_program(tokens, pos) {
        Ok(program) => program,
        Err(message) => {
            return Err(message);
        },
    };
    proof {
        lemma_flag_run(models, start + 1);
        lemma_argument_run(models, start + 1 + flag_run(models, start + 1));
    }
    let end: usize = *pos;
    let left = Expr::Program(program);
    if end >= tokens.len() {
        return Ok(left);
    }
    *pos = end + 1;
    match &tokens[end] {
        Token::Operator(Op::Pipe) => {
            let right = match parse_pipe(tokens, pos) {
                Ok(right) => right,
                Err(message) => {
                    return Err(message);
                },
            };
            let ghost left_model = left@;
            let ghost right_model = right@;
            let expr = Expr::Binary(
                Binary { left: Box::new(left), right: Box::new(right), operator: Op::Pipe },
            );
            assert(expr@ == ExprModel::Binary {
                left: Box::new(left_model),
                right: Box::new(right_model),
                operator: Op::Pipe,
            });
            Ok(expr)
        },
        _ => Ok(left),
    }
}

/// Parses a line into an expression.
pub fn parse(buffer: String) -> (r: Result<Expr, &'static str>)
    ensures
        match r {
            Ok(expr) => parsed(buffer@) == Some(expr@),
            Err(message) => parsed(buffer@) is None && message@ == "No command found"@,
        },
{
    let tokens = tokenize(buffer);
    let mut pos: usize = 0;
    parse_pipe(&tokens, &mut pos)
}

} // verus!
