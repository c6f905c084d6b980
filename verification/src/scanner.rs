//! The lexer: splitting a line into lexemes and classifying them as tokens.

use vstd::prelude::*;
use vstd::string::*;
use crate::text::{is_space, is_whitespace, same_text, starts_with_char, trim, trimmed};

verus! {

/// The commands that the shell recognises, and `Unknown` for any other word.
#[derive(Debug, Copy, Clone, PartialEq, Eq, Structural)]
pub enum Command {
    Exit,
    Unknown,
    Ls,
    Cd,
    Echo,
    Wc,
    Grep,
    Cat,
}

/// The operators that join programs.
#[derive(Debug, Copy, Clone, PartialEq, Eq, Structural)]
pub enum Op {
    Pipe,
}

/// A classified lexeme.
#[derive(Debug, PartialEq, Eq)]
pub enum Token {
    Operator(Op),
    Command(Command),
    Flag(String),
    Argument(String),
}

/// What a `Token` stands for: the text of a flag or argument as characters.
pub enum TokenModel {
    Operator(Op),
    Command(Command),
    Flag(Seq<char>),
    Argument(Seq<char>),
}

impl View for Token {
    type V = TokenModel;

    open spec fn view(&self) -> TokenModel {
        match *self {
            Token::Operator(op) => TokenModel::Operator(op),
            Token::Command(command) => TokenModel::Command(command),
            Token::Flag(text) => TokenModel::Flag(text@),
            Token::Argument(text) => TokenModel::Argument(text@),
        }
    }
}

impl Clone for Token {
    fn clone(&self) -> (r: Self)
        ensures
            r@ == self@,
    {
        match self {
            Token::Operator(op) => Token::Operator(*op),
            Token::Command(command) => Token::Command(*command),
            Token::Flag(text) => Token::Flag(text.clone()),
            Token::Argument(text) => Token::Argument(text.clone()),
        }
    }
}

/// The keyword table: the command that the word `s` names, if any. The match
/// is exact and case-sensitive.
pub open spec fn keyword(s: Seq<char>) -> Option<Command> {
    if s == "exit"@ {
        Some(Command::Exit)
    } else if s == "ls"@ {
        Some(Command::Ls)
    } else if s == "cd"@ {
        Some(Command::Cd)
    } else if s == "echo"@ {
        Some(Command::Echo)
    } else if s == "wc"@ {
        Some(Command::Wc)
    } else if s == "grep"@ {
        Some(Command::Grep)
    } else if s == "cat"@ {
        Some(Command::Cat)
    } else {
        None
    }
}

/// Looks `word` up in the keyword table.
pub fn lookup(word: &str) -> (r: Option<Command>)
    ensures
        r == keyword(word@),
{
    if same_text(word, "exit") {
        Some(Command::Exit)
    } else if same_text(word, "ls") {
        Some(Command::Ls)
    } else if same_text(word, "cd") {
        Some(Command::Cd)
    } else if same_text(word, "echo") {
        Some(Command::Echo)
    } else if same_text(word, "wc") {
        Some(Command::Wc)
    } else if same_text(word, "grep") {
        Some(Command::Grep)
    } else if same_text(word, "cat") {
        Some(Command::Cat)
    } else {
        None
    }
}

impl Command {
    /// Looks the trimmed `command` up in the keyword table.
    pub fn try_from_string(command: String) -> (r: Option<Command>)
        ensures
            r == keyword(trimmed(command@)),
    {
        lookup(trim(command.as_str()))
    }

    /// Resolves `command` to the command it names, or to `Unknown`.
    pub fn from_string(command: String) -> (r: Command)
        ensures
            r == resolved(command@),
    {
        match Command::try_from_string(command) {
            Some(found) => found,
            None => Command::Unknown,
        }
    }
}

/// The command that `s` names once trimmed, `Unknown` when it names none.
pub open spec fn resolved(s: Seq<char>) -> Command {
    match keyword(trimmed(s)) {
        Some(found) => found,
        None => Command::Unknown,
    }
}

/// Whether a word that begins with `-` counts as a flag after `previous`:
/// only after a command, an argument or another flag.
pub open spec fn admits_flag(previous: Option<TokenModel>) -> bool {
    match previous {
        Some(TokenModel::Command(_)) => true,
        Some(TokenModel::Argument(_)) => true,
        Some(TokenModel::Flag(_)) => true,
        Some(TokenModel::Operator(_)) => false,
        None => false,
    }
}

/// The token that the lexeme `s` becomes after the token `previous`, or
/// `None` where the lexeme is dropped.
pub open spec fn classify(previous: Option<TokenModel>, s: Seq<char>) -> Option<TokenModel> {
    let word = trimmed(s);
    match keyword(word) {
        Some(command) => Some(TokenModel::Command(command)),
        None => if word == "|"@ {
            Some(TokenModel::Operator(Op::Pipe))
        } else if word.len() > 0 && word[0] == '-' {
            if admits_flag(previous) {
                Some(TokenModel::Flag(word))
            } else {
                None
            }
        } else {
            Some(TokenModel::Argument(word))
        },
    }
}

/// The model of an optional token.
pub open spec fn token_model(token: Option<Token>) -> Option<TokenModel> {
    match token {
        Some(t) => Some(t@),
        None => None,
    }
}

impl Token {
    /// Classifies the lexeme `s`, given the token that came before it.
    pub fn try_from_string(curr: &Option<Token>, s: &String) -> (r: Option<Token>)
        ensures
            token_model(r) == classify(token_model(*curr), s@),
    {
        let word = trim(s.as_str());
        if let Some(command) = lookup(word) {
            Some(Token::Command(command))
        } else if same_text(word, "|") {
            Some(Token::Operator(Op::Pipe))
        } else if starts_with_char(word, '-') {
            match curr {
                Some(Token::Command(_)) => Some(Token::Flag(String::from_str(word))),
                Some(Token::Argument(_)) => Some(Token::Flag(String::from_str(word))),
                Some(Token::Flag(_)) => Some(Token::Flag(String::from_str(word))),
                Some(Token::Operator(_)) => None,
                None => None,
            }
        } else {
            Some(Token::Argument(String::from_str(word)))
        }
    }
}

/// The state of the splitting pass: the lexemes emitted so far, the lexeme
/// being accumulated, and whether the pass is inside double quotes.
pub struct SplitState {
    pub lexemes: Seq<Seq<char>>,
    pub buffer: Seq<char>,
    pub quoted: bool,
}

/// The state before any character is read.
pub open spec fn split_start() -> SplitState {
    SplitState { lexemes: Seq::empty(), buffer: Seq::empty(), quoted: false }
}

/// One character of the splitting pass. A double quote opens quoting, or
/// closes it and emits the buffer; whitespace outside quotes emits a
/// non-empty buffer and is dropped; any other character joins the buffer.
pub open spec fn split_step(state: SplitState, c: char) -> SplitState {
    if c == '"' {
        if state.quoted {
            SplitState {
                lexemes: state.lexemes.push(state.buffer),
                buffer: Seq::empty(),
                quoted: false,
            }
        } else {
            SplitState { quoted: true, ..state }
        }
    } else if is_space(c) && !state.quoted {
        if state.buffer.len() > 0 {
            SplitState { lexemes: state.lexemes.push(state.buffer), buffer: Seq::empty(), ..state }
        } else {
            state
        }
    } else {
        SplitState { buffer: state.buffer.push(c), ..state }
    }
}

/// The state of the splitting pass after all of `text`.
pub open spec fn split_state(text: Seq<char>) -> SplitState
    decreases text.len(),
{
    if text.len() == 0 {
        split_start()
    } else {
        split_step(split_state(text.drop_last()), text.last())
    }
}

/// The lexemes of `text`. What is still in the buffer at the end of the
/// text, unquoted or inside an open quote, is not among them.
pub open spec fn lexemes_of(text: Seq<char>) -> Seq<Seq<char>> {
    split_state(text).lexemes
}

/// The characters of each string of `v`.
pub open spec fn texts(v: Seq<String>) -> Seq<Seq<char>> {
    v.map_values(|s: String| s@)
}

/// `String::push` of the standard library: afterwards the string holds the
/// characters it held before, and then `c`. Taken on trust.
pub assume_specification[ String::push ](s: &mut String, c: char)
    ensures
        final(s)@ == old(s)@.push(c),
;

/// Splits `text` into lexemes, honouring double quotes.
pub fn split(text: String) -> (res: Vec<String>)
    ensures
        texts(res@) == lexemes_of(text@),
{
    let line = text.as_str();
    let mut res: Vec<String> = Vec::new();
    let mut buffer: String = String::new();
    let mut in_quote = false;
    assert(texts(res@) =~= Seq::<Seq<char>>::empty());
    for c in iter: line.chars()
        invariant
            iter.seq() == line@,
            split_state(line@.take(iter.index() as int)) == (SplitState {
                lexemes: texts(res@),
                buffer: buffer@,
                quoted: in_quote,
            }),
    {
        proof {
            let upto = line@.take(iter.index() + 1);
            assert(upto.drop_last() =~= line@.take(iter.index() as int));
        }
        let ghost before = texts(res@);
        let ghost emitted = buffer@;
        if c == '"' {
            if in_quote {
                in_quote = false;
                res.push(buffer);
                buffer = String::new();
                assert(texts(res@) =~= before.push(emitted));
            } else {
                in_quote = true;
            }
        } else if is_whitespace(c) && !in_quote {
            if !buffer.as_str().is_empty() {
                res.push(buffer);
                buffer = String::new();
                assert(texts(res@) =~= before.push(emitted));
            }
        } else {
            buffer.push(c);
        }
    }
    assert(line@.take(line@.len() as int) =~= line@);
    res
}

/// The models of the tokens of `v`.
pub open spec fn token_models(v: Seq<Token>) -> Seq<TokenModel> {
    v.map_values(|t: Token| t@)
}

/// The last token of `tokens`, if there is one.
pub open spec fn last_token(tokens: Seq<TokenModel>) -> Option<TokenModel> {
    if tokens.len() > 0 {
        Some(tokens.last())
    } else {
        None
    }
}

/// The tokens of a sequence of lexemes: each lexeme is classified after the
/// token emitted before it, and a dropped lexeme leaves no token.
pub open spec fn tokens_of(lexemes: Seq<Seq<char>>) -> Seq<TokenModel>
    decreases lexemes.len(),
{
    if lexemes.len() == 0 {
        Seq::empty()
    } else {
        let before = tokens_of(lexemes.drop_last());
        match classify(last_token(before), lexemes.last()) {
            Some(token) => before.push(token),
            None => before,
        }
    }
}

/// The tokens of the line `text`.
pub open spec fn tokens_of_text(text: Seq<char>) -> Seq<TokenModel> {
    tokens_of(lexemes_of(text))
}

/// A pass over the lexemes of a line that hands out one token at a time
/// and remembers the token it handed out last.
pub struct Scanner {
    input: Vec<String>,
    position: usize,
    curr: Option<Token>,
}

impl Scanner {
    /// The lexemes of the line.
    pub closed spec fn lexemes(&self) -> Seq<Seq<char>> {
        texts(self.input@)
    }

    /// How many lexemes have been read.
    pub closed spec fn position(&self) -> nat {
        self.position as nat
    }

    /// The tokens handed out so far: those of the lexemes that were read.
    pub open spec fn emitted(&self) -> Seq<TokenModel> {
        tokens_of(self.lexemes().subrange(0, self.position() as int))
    }

    /// The scanner is within its lexemes and remembers the last token.
    pub closed spec fn wf(&self) -> bool {
        &&& self.position <= self.input.len()
        &&& token_model(self.curr) == last_token(self.emitted())
    }

    /// A scanner at the start of `text`.
    pub fn new(text: &String) -> (r: Scanner)
        ensures
            r.wf(),
            r.lexemes() == lexemes_of(text@),
            r.position() == 0,
            r.emitted() == Seq::<TokenModel>::empty(),
    {
        Scanner { input: split(text.clone()), position: 0, curr: None }
    }

    /// Hands out the next token, passing over the lexemes that are dropped,
    /// or `None` once every lexeme has been read.
    pub fn next(&mut self) -> (r: Option<Token>)
        requires
            old(self).wf(),
        ensures
            final(self).wf(),
            final(self).lexemes() == old(self).lexemes(),
            match r {
                Some(token) => {
                    &&& final(self).emitted() == old(self).emitted().push(token@)
                    &&& old(self).position() < final(self).position() <= old(self).lexemes().len()
                },
                None => {
                    &&& final(self).emitted() == old(self).emitted()
                    &&& final(self).position() == old(self).lexemes().len()
                },
            },
    {
        while self.position < self.input.len()
            invariant
                self.wf(),
                self.input == old(self).input,
                self.position >= old(self).position,
                self.emitted() == old(self).emitted(),
            decreases self.input.len() - self.position,
        {
            proof {
                let upto = self.lexemes().subrange(0, self.position as int + 1);
                assert(upto.drop_last() =~= self.lexemes().subrange(0, self.position as int));
            }
            let result = Token::try_from_string(&self.curr, &self.input[self.position]);
            self.position = self.position + 1;
            match result {
                Some(token) => {
                    self.curr = Some(token.clone());
                    return Some(token);
                },
                None => {},
            }
        }
        None
    }
}

/// Turns a line into its tokens.
pub fn tokenize(text: String) -> (tokens: Vec<Token>)
    ensures
        token_models(tokens@) == tokens_of_text(text@),
{
    let mut scanner = Scanner::new(&text);
    let mut tokens: Vec<Token> = Vec::new();
    loop
        invariant
            scanner.wf(),
            scanner.lexemes() == lexemes_of(text@),
            scanner.position() <= scanner.lexemes().len(),
            token_models(tokens@) == scanner.emitted(),
        ensures
            token_models(tokens@) == tokens_of_text(text@),
        decreases scanner.lexemes().len() - scanner.position(),
    {
        match scanner.next() {
            Some(token) => {
                tokens.push(token);
            },
            None => {
                assert(scanner.lexemes().subrange(0, scanner.lexemes().len() as int)
                    =~= scanner.lexemes());
                break;
            },
        }
    }
    tokens
}

} // verus!
