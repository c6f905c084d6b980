//! What holds of the lexer and the parser on whole lines, and of the
//! evaluator on whole pipelines.

use vstd::prelude::*;
use crate::parser::{
    argument_run, flag_run, lemma_argument_run, lemma_flag_run, parsed, pipeline_at, program_at,
    words, ExprModel, ProgramModel,
};
use crate::scanner::{
    admits_flag, classify, keyword, last_token, lexemes_of, split_state, split_step, tokens_of,
    tokens_of_text, Command, Op, SplitState, TokenModel,
};
use crate::evaluator::{
    after, executable_of, leaves, pending, started, EffectModel, EvaluatorModel, Event, Failure,
    StepModel,
};
use crate::programs::{argument_at, attached, SpawnModel, Stream};
use crate::text::{is_space, skip_back, skip_front, trimmed};

verus! {

/// A word as it stands unquoted in a line: not empty, and without
/// whitespace or double quotes.
pub open spec fn plain(word: Seq<char>) -> bool {
    &&& word.len() > 0
    &&& forall|i: int| 0 <= i < word.len() ==> !is_space(#[trigger] word[i]) && word[i] != '"'
}

/// A plain word that begins with `-`.
pub open spec fn flag_word(word: Seq<char>) -> bool {
    plain(word) && word[0] == '-'
}

/// A plain word that is neither a keyword, nor the pipe, nor begins with `-`.
pub open spec fn argument_word(word: Seq<char>) -> bool {
    &&& plain(word)
    &&& word[0] != '-'
    &&& keyword(word) is None
    &&& word != "|"@
}

/// The splitting pass stands between two lexemes.
pub open spec fn at_boundary(state: SplitState) -> bool {
    state.buffer.len() == 0 && !state.quoted
}

/// `words`, each followed by one space.
pub open spec fn spaced(words: Seq<Seq<char>>) -> Seq<char>
    decreases words.len(),
{
    if words.len() == 0 {
        Seq::empty()
    } else {
        spaced(words.drop_last()) + words.last().push(' ')
    }
}

/// The line that holds `words` with one space between them and a newline
/// at its end.
pub open spec fn line_of(words: Seq<Seq<char>>) -> Seq<char> {
    if words.len() == 0 {
        seq!['\n']
    } else {
        spaced(words.drop_last()) + words.last().push('\n')
    }
}

/// The splitting pass reads a line one character at a time.
pub proof fn lemma_split_push(text: Seq<char>, c: char)
    ensures
        split_state(text.push(c)) == split_step(split_state(text), c),
{
    assert(text.push(c).drop_last() =~= text);
}

/// Characters that neither toggle quoting nor separate lexemes all join
/// the buffer.
pub proof fn lemma_buffered_run(text: Seq<char>, run: Seq<char>)
    requires
        forall|i: int|
            0 <= i < run.len() ==> #[trigger] run[i] != '"' && (split_state(text).quoted
                || !is_space(run[i])),
    ensures
        split_state(text + run) == (SplitState {
            buffer: split_state(text).buffer + run,
            ..split_state(text)
        }),
    decreases run.len(),
{
    let state = split_state(text);
    if run.len() == 0 {
        assert(text + run =~= text);
        assert(state.buffer + run =~= state.buffer);
    } else {
        let head = run.drop_last();
        assert forall|i: int| 0 <= i < head.len() implies #[trigger] head[i] != '"' && (
        state.quoted || !is_space(head[i])) by {
            assert(head[i] == run[i]);
        }
        lemma_buffered_run(text, head);
        assert(text + run =~= (text + head).push(run.last()));
        lemma_split_push(text + head, run.last());
        assert((state.buffer + head).push(run.last()) =~= state.buffer + run);
    }
}

/// A plain word followed by whitespace is one lexeme.
pub proof fn lemma_word_is_one_lexeme(text: Seq<char>, word: Seq<char>, end: char)
    requires
        at_boundary(split_state(text)),
        plain(word),
        is_space(end),
    ensures
        split_state(text + word.push(end)) == (SplitState {
            lexemes: split_state(text).lexemes.push(word),
            buffer: Seq::empty(),
            quoted: false,
        }),
{
    let state = split_state(text);
    lemma_buffered_run(text, word);
    assert(text + word.push(end) =~= (text + word).push(end));
    lemma_split_push(text + word, end);
    assert(state.buffer + word =~= word);
}

/// Text between double quotes is one lexeme, whatever whitespace it holds
/// and whatever it begins with.
pub proof fn lemma_quoted_is_one_lexeme(text: Seq<char>, body: Seq<char>)
    requires
        at_boundary(split_state(text)),
        forall|i: int| 0 <= i < body.len() ==> body[i] != '"',
    ensures
        split_state(text.push('"') + body.push('"')) == (SplitState {
            lexemes: split_state(text).lexemes.push(body),
            buffer: Seq::empty(),
            quoted: false,
        }),
{
    let state = split_state(text);
    let opened = text.push('"');
    lemma_split_push(text, '"');
    lemma_buffered_run(opened, body);
    assert(opened + body.push('"') =~= (opened + body).push('"'));
    lemma_split_push(opened + body, '"');
    assert(state.buffer + body =~= body);
}

/// After words that are each followed by a space, the pass stands between
/// two lexemes and has emitted the words.
pub proof fn lemma_spaced_lexemes(words: Seq<Seq<char>>)
    requires
        forall|i: int| 0 <= i < words.len() ==> plain(#[trigger] words[i]),
    ensures
        split_state(spaced(words)) == (SplitState {
            lexemes: words,
            buffer: Seq::empty(),
            quoted: false,
        }),
    decreases words.len(),
{
    if words.len() == 0 {
        assert(split_state(spaced(words)).lexemes =~= words);
    } else {
        let head = words.drop_last();
        assert forall|i: int| 0 <= i < head.len() implies plain(#[trigger] head[i]) by {
            assert(head[i] == words[i]);
        }
        lemma_spaced_lexemes(head);
        assert(plain(words[words.len() - 1]));
        lemma_word_is_one_lexeme(spaced(head), words.last(), ' ');
        assert(head.push(words.last()) =~= words);
    }
}

/// The lexemes of a line of plain words are the words.
pub proof fn lemma_line_lexemes(words: Seq<Seq<char>>)
    requires
        forall|i: int| 0 <= i < words.len() ==> plain(#[trigger] words[i]),
    ensures
        lexemes_of(line_of(words)) == words,
{
    if words.len() == 0 {
        lemma_split_push(Seq::empty(), '\n');
        assert(Seq::<char>::empty().push('\n') =~= seq!['\n']);
        assert(lexemes_of(line_of(words)) =~= words);
    } else {
        let head = words.drop_last();
        assert forall|i: int| 0 <= i < head.len() implies plain(#[trigger] head[i]) by {
            assert(head[i] == words[i]);
        }
        lemma_spaced_lexemes(head);
        assert(plain(words[words.len() - 1]));
        lemma_word_is_one_lexeme(spaced(head), words.last(), '\n');
        assert(head.push(words.last()) =~= words);
    }
}

/// Trimming leaves a plain word as it is.
pub proof fn lemma_trimmed_plain(word: Seq<char>)
    requires
        plain(word),
    ensures
        trimmed(word) == word,
{
    assert(!is_space(word[0]));
    assert(!is_space(word[word.len() - 1]));
    assert(skip_front(word, 0) == 0);
    assert(skip_back(word, 0, word.len() as int) == word.len());
    assert(word.subrange(0, word.len() as int) =~= word);
}

/// Every keyword is a plain word that begins with a letter.
pub proof fn lemma_keyword_plain(word: Seq<char>)
    requires
        keyword(word) is Some,
    ensures
        plain(word),
        word[0] != '-',
        word != "|"@,
{
    reveal_strlit("exit");
    reveal_strlit("ls");
    reveal_strlit("cd");
    reveal_strlit("echo");
    reveal_strlit("wc");
    reveal_strlit("grep");
    reveal_strlit("cat");
    reveal_strlit("|");
}

/// A word that begins with `-` is neither a keyword nor the pipe.
pub proof fn lemma_flag_word_is_no_keyword(word: Seq<char>)
    requires
        word.len() > 0,
        word[0] == '-',
    ensures
        keyword(word) is None,
        word != "|"@,
{
    reveal_strlit("exit");
    reveal_strlit("ls");
    reveal_strlit("cd");
    reveal_strlit("echo");
    reveal_strlit("wc");
    reveal_strlit("grep");
    reveal_strlit("cat");
    reveal_strlit("|");
}

/// The tokens of lexemes are those of all but the last, and then the
/// token of the last, if it has one.
pub proof fn lemma_tokens_push(lexemes: Seq<Seq<char>>, lexeme: Seq<char>)
    ensures
        tokens_of(lexemes.push(lexeme)) == (match classify(
            last_token(tokens_of(lexemes)),
            lexeme,
        ) {
            Some(token) => tokens_of(lexemes).push(token),
            None => tokens_of(lexemes),
        }),
{
    assert(lexemes.push(lexeme).drop_last() =~= lexemes);
}

/// A line that holds one keyword lexes to exactly one token: the command
/// that the keyword names.
pub proof fn lemma_single_keyword(word: Seq<char>)
    requires
        keyword(word) is Some,
    ensures
        tokens_of_text(line_of(seq![word])) == seq![TokenModel::Command(keyword(word)->Some_0)],
{
    let line = seq![word];
    lemma_keyword_plain(word);
    lemma_trimmed_plain(word);
    lemma_line_lexemes(line);
    let none = Seq::<Seq<char>>::empty();
    lemma_tokens_push(none, word);
    assert(none.push(word) =~= line);
    assert(tokens_of(none) =~= Seq::<TokenModel>::empty());
    assert(Seq::<TokenModel>::empty().push(TokenModel::Command(keyword(word)->Some_0))
        =~= seq![TokenModel::Command(keyword(word)->Some_0)]);
}

/// In `<cmd> <flag1> <flag2> <arg1>` the program gets the two flags and
/// the argument, in that order.
pub proof fn lemma_flags_before_argument(
    cmd: Seq<char>,
    flag1: Seq<char>,
    flag2: Seq<char>,
    arg1: Seq<char>,
)
    requires
        keyword(cmd) is Some,
        flag_word(flag1),
        flag_word(flag2),
        argument_word(arg1),
    ensures
        parsed(line_of(seq![cmd, flag1, flag2, arg1])) == Some(
            ExprModel::Program(
                ProgramModel { command: keyword(cmd)->Some_0, arguments: seq![flag1, flag2, arg1] },
            ),
        ),
{
    let line = seq![cmd, flag1, flag2, arg1];
    let command = keyword(cmd)->Some_0;
    lemma_keyword_plain(cmd);
    lemma_trimmed_plain(cmd);
    lemma_trimmed_plain(flag1);
    lemma_trimmed_plain(flag2);
    lemma_trimmed_plain(arg1);
    lemma_flag_word_is_no_keyword(flag1);
    lemma_flag_word_is_no_keyword(flag2);
    lemma_line_lexemes(line);
    let l0 = Seq::<Seq<char>>::empty();
    let l1 = l0.push(cmd);
    let l2 = l1.push(flag1);
    let l3 = l2.push(flag2);
    lemma_tokens_push(l0, cmd);
    lemma_tokens_push(l1, flag1);
    lemma_tokens_push(l2, flag2);
    lemma_tokens_push(l3, arg1);
    assert(l3.push(arg1) =~= line);
    let tokens = seq![
        TokenModel::Command(command),
        TokenModel::Flag(flag1),
        TokenModel::Flag(flag2),
        TokenModel::Argument(arg1),
    ];
    assert(tokens_of(l0) =~= Seq::<TokenModel>::empty());
    assert(tokens_of(l1) =~= seq![TokenModel::Command(command)]);
    assert(tokens_of(l2) =~= seq![TokenModel::Command(command), TokenModel::Flag(flag1)]);
    assert(tokens_of(l3) =~= seq![
        TokenModel::Command(command),
        TokenModel::Flag(flag1),
        TokenModel::Flag(flag2),
    ]);
    assert(tokens_of(line) =~= tokens);
    assert(flag_run(tokens, 3) == 0);
    assert(flag_run(tokens, 2) == 1);
    assert(flag_run(tokens, 1) == 2);
    assert(argument_run(tokens, 4) == 0);
    assert(argument_run(tokens, 3) == 1);
    assert(words(tokens, 1, 4) =~= seq![flag1, flag2, arg1]);
    assert(program_at(tokens, 0) == Some(
        (ProgramModel { command, arguments: seq![flag1, flag2, arg1] }, 4int),
    ));
}

/// In `<cmd> <arg1> <flag1>` the program gets the argument alone: a flag
/// behind an argument is left out.
pub proof fn lemma_flag_after_argument(cmd: Seq<char>, arg1: Seq<char>, flag1: Seq<char>)
    requires
        keyword(cmd) is Some,
        argument_word(arg1),
        flag_word(flag1),
    ensures
        parsed(line_of(seq![cmd, arg1, flag1])) == Some(
            ExprModel::Program(
                ProgramModel { command: keyword(cmd)->Some_0, arguments: seq![arg1] },
            ),
        ),
{
    let line = seq![cmd, arg1, flag1];
    let command = keyword(cmd)->Some_0;
    lemma_keyword_plain(cmd);
    lemma_trimmed_plain(cmd);
    lemma_trimmed_plain(flag1);
    lemma_trimmed_plain(arg1);
    lemma_flag_word_is_no_keyword(flag1);
    lemma_line_lexemes(line);
    let l0 = Seq::<Seq<char>>::empty();
    let l1 = l0.push(cmd);
    let l2 = l1.push(arg1);
    lemma_tokens_push(l0, cmd);
    lemma_tokens_push(l1, arg1);
    lemma_tokens_push(l2, flag1);
    assert(l2.push(flag1) =~= line);
    let tokens = seq![
        TokenModel::Command(command),
        TokenModel::Argument(arg1),
        TokenModel::Flag(flag1),
    ];
    assert(tokens_of(l0) =~= Seq::<TokenModel>::empty());
    assert(tokens_of(l1) =~= seq![TokenModel::Command(command)]);
    assert(tokens_of(l2) =~= seq![TokenModel::Command(command), TokenModel::Argument(arg1)]);
    assert(tokens_of(line) =~= tokens);
    assert(flag_run(tokens, 1) == 0);
    assert(argument_run(tokens, 2) == 0);
    assert(argument_run(tokens, 1) == 1);
    assert(words(tokens, 1, 2) =~= seq![arg1]);
    assert(program_at(tokens, 0) == Some((ProgramModel { command, arguments: seq![arg1] }, 2int)));
}

/// In `<cmd> "<body>"` the program gets the trimmed body as its one
/// argument, whatever whitespace the body holds and whether or not it
/// begins with `-`, unless the trimmed body is a keyword or the pipe.
pub proof fn lemma_quoted_argument(cmd: Seq<char>, body: Seq<char>)
    requires
        keyword(cmd) is Some,
        forall|i: int| 0 <= i < body.len() ==> body[i] != '"',
        keyword(trimmed(body)) is None,
        trimmed(body) != "|"@,
    ensures
        parsed(cmd.push(' ').push('"') + body.push('"').push('\n')) == Some(
            ExprModel::Program(
                ProgramModel { command: keyword(cmd)->Some_0, arguments: seq![trimmed(body)] },
            ),
        ),
{
    let command = keyword(cmd)->Some_0;
    let word = trimmed(body);
    let none = Seq::<char>::empty();
    let head = cmd.push(' ');
    let quoted = head.push('"') + body.push('"');
    let line = cmd.push(' ').push('"') + body.push('"').push('\n');
    lemma_keyword_plain(cmd);
    lemma_trimmed_plain(cmd);
    lemma_word_is_one_lexeme(none, cmd, ' ');
    assert(none + cmd.push(' ') =~= head);
    lemma_quoted_is_one_lexeme(head, body);
    lemma_split_push(quoted, '\n');
    assert(line =~= quoted.push('\n'));
    let l0 = Seq::<Seq<char>>::empty();
    let l1 = l0.push(cmd);
    assert(lexemes_of(line) =~= l1.push(body));
    lemma_tokens_push(l0, cmd);
    lemma_tokens_push(l1, body);
    assert(tokens_of(l0) =~= Seq::<TokenModel>::empty());
    assert(tokens_of(l1) =~= seq![TokenModel::Command(command)]);
    let tokens = tokens_of(l1.push(body));
    if word.len() > 0 && word[0] == '-' {
        assert(tokens =~= seq![TokenModel::Command(command), TokenModel::Flag(word)]);
        assert(flag_run(tokens, 2) == 0);
        assert(flag_run(tokens, 1) == 1);
        assert(argument_run(tokens, 2) == 0);
    } else {
        assert(tokens =~= seq![TokenModel::Command(command), TokenModel::Argument(word)]);
        assert(flag_run(tokens, 1) == 0);
        assert(argument_run(tokens, 2) == 0);
        assert(argument_run(tokens, 1) == 1);
    }
    assert(words(tokens, 1, 2) =~= seq![word]);
    assert(program_at(tokens, 0) == Some((ProgramModel { command, arguments: seq![word] }, 2int)));
}

/// The tokens that a program takes in are its flags first and then its
/// arguments: behind the command stands a run of flags, and behind that a
/// run of arguments that reaches to the program's end.
pub proof fn lemma_flags_stand_first(tokens: Seq<TokenModel>, pos: int)
    requires
        program_at(tokens, pos) is Some,
    ensures
        ({
            let flags_end = pos + 1 + flag_run(tokens, pos + 1);
            let end = program_at(tokens, pos)->Some_0.1;
            &&& pos < flags_end <= end <= tokens.len()
            &&& forall|i: int| pos < i < flags_end ==> #[trigger] tokens[i] is Flag
            &&& forall|i: int| flags_end <= i < end ==> #[trigger] tokens[i] is Argument
            &&& program_at(tokens, pos)->Some_0.0.arguments.len() == end - pos - 1
        }),
{
    let flags_end = pos + 1 + flag_run(tokens, pos + 1);
    lemma_flag_run(tokens, pos + 1);
    lemma_argument_run(tokens, flags_end);
}

/// A flag never stands first among the tokens of a line, nor behind an
/// operator.
pub proof fn lemma_flag_follows_word(lexemes: Seq<Seq<char>>, i: int)
    requires
        0 <= i < tokens_of(lexemes).len(),
        tokens_of(lexemes)[i] is Flag,
    ensures
        i > 0,
        !(tokens_of(lexemes)[i - 1] is Operator),
    decreases lexemes.len(),
{
    if lexemes.len() > 0 {
        let before = tokens_of(lexemes.drop_last());
        if i < before.len() {
            lemma_flag_follows_word(lexemes.drop_last(), i);
        } else {
            assert(classify(last_token(before), lexemes.last()) is Some);
            assert(admits_flag(last_token(before)));
        }
    }
}

/// A pipeline nests to the right: what stands left of a pipe is a single
/// program.
pub proof fn lemma_pipeline_nests_right(tokens: Seq<TokenModel>, pos: int)
    requires
        pipeline_at(tokens, pos) is Ok,
    ensures
        match pipeline_at(tokens, pos)->Ok_0.0 {
            ExprModel::Binary { left, right, operator } => *left is Program && operator
                == Op::Pipe,
            ExprModel::Program(_) => true,
        },
{
}

/// In `<cmd1> | <cmd2>` the pipe joins the two programs.
pub proof fn lemma_pipe_of_two_commands(cmd1: Seq<char>, cmd2: Seq<char>)
    requires
        keyword(cmd1) is Some,
        keyword(cmd2) is Some,
    ensures
        parsed(line_of(seq![cmd1, "|"@, cmd2])) == Some(
            ExprModel::Binary {
                left: Box::new(
                    ExprModel::Program(
                        ProgramModel { command: keyword(cmd1)->Some_0, arguments: Seq::empty() },
                    ),
                ),
                right: Box::new(
                    ExprModel::Program(
                        ProgramModel { command: keyword(cmd2)->Some_0, arguments: Seq::empty() },
                    ),
                ),
                operator: Op::Pipe,
            },
        ),
{
    let bar = "|"@;
    let line = seq![cmd1, bar, cmd2];
    let first = keyword(cmd1)->Some_0;
    let second = keyword(cmd2)->Some_0;
    reveal_strlit("|");
    reveal_strlit("exit");
    reveal_strlit("ls");
    reveal_strlit("cd");
    reveal_strlit("echo");
    reveal_strlit("wc");
    reveal_strlit("grep");
    reveal_strlit("cat");
    assert(bar.len() == 1 && bar[0] == '|');
    assert(plain(bar));
    assert(keyword(bar) is None);
    lemma_keyword_plain(cmd1);
    lemma_keyword_plain(cmd2);
    lemma_trimmed_plain(cmd1);
    lemma_trimmed_plain(bar);
    lemma_trimmed_plain(cmd2);
    lemma_line_lexemes(line);
    let l0 = Seq::<Seq<char>>::empty();
    let l1 = l0.push(cmd1);
    let l2 = l1.push(bar);
    lemma_tokens_push(l0, cmd1);
    lemma_tokens_push(l1, bar);
    lemma_tokens_push(l2, cmd2);
    assert(l2.push(cmd2) =~= line);
    let tokens = seq![
        TokenModel::Command(first),
        TokenModel::Operator(Op::Pipe),
        TokenModel::Command(second),
    ];
    assert(tokens_of(l0) =~= Seq::<TokenModel>::empty());
    assert(tokens_of(l1) =~= seq![TokenModel::Command(first)]);
    assert(tokens_of(l2) =~= seq![TokenModel::Command(first), TokenModel::Operator(Op::Pipe)]);
    assert(tokens_of(line) =~= tokens);
    assert(flag_run(tokens, 1) == 0);
    assert(argument_run(tokens, 1) == 0);
    assert(flag_run(tokens, 3) == 0);
    assert(argument_run(tokens, 3) == 0);
    assert(words(tokens, 1, 1) =~= Seq::<Seq<char>>::empty());
    assert(words(tokens, 3, 3) =~= Seq::<Seq<char>>::empty());
    assert(program_at(tokens, 0) == Some(
        (ProgramModel { command: first, arguments: Seq::empty() }, 1int),
    ));
    assert(program_at(tokens, 2) == Some(
        (ProgramModel { command: second, arguments: Seq::empty() }, 3int),
    ));
    assert(pipeline_at(tokens, 2) == Ok::<(ExprModel, int), int>(
        (ExprModel::Program(ProgramModel { command: second, arguments: Seq::empty() }), 3int),
    ));
}

/// An expression has at least one stage.
pub proof fn lemma_leaves_nonempty(expr: ExprModel)
    ensures
        leaves(expr).len() >= 1,
    decreases expr,
{
    match expr {
        ExprModel::Program(_) => {},
        ExprModel::Binary { left, right, operator } => {
            lemma_leaves_nonempty(*left);
            lemma_leaves_nonempty(*right);
        },
    }
}

/// The state after the first `count` stages have each started a process.
pub open spec fn after_spawns(state: EvaluatorModel, count: nat) -> EvaluatorModel
    decreases count,
{
    if count == 0 {
        state
    } else {
        after(after_spawns(state, (count - 1) as nat), Event::Spawned)
    }
}

/// In a pipeline whose stages are all run as processes, each stage is
/// started in turn with all its arguments; the first reads the input of the
/// line and every other the pipe of the stage before it; the last writes the
/// output of the line and every other a new pipe. Once all are started the
/// line is over, and the process to wait for is that of the last stage.
pub proof fn lemma_pipeline_wiring(
    expr: ExprModel,
    stdin: Option<Stream>,
    stdout: Option<Stream>,
    count: nat,
)
    requires
        forall|k: int|
            0 <= k < leaves(expr).len() ==> executable_of(#[trigger] leaves(expr)[k].command)
                is Some,
        count <= leaves(expr).len(),
    ensures
        ({
            let stages = leaves(expr);
            let state = after_spawns(started(expr, stdin, stdout), count);
            &&& state == EvaluatorModel {
                cursor: count,
                fed: count > 0,
                ..started(expr, stdin, stdout)
            }
            &&& count < stages.len() ==> pending(state) == StepModel::Run(
                EffectModel::Spawn(
                    SpawnModel {
                        executable: executable_of(stages[count as int].command)->Some_0,
                        arguments: stages[count as int].arguments,
                        stdin: if count == 0 {
                            attached(stdin)
                        } else {
                            Stream::Upstream
                        },
                        stdout: if count + 1 < stages.len() {
                            Stream::Piped
                        } else {
                            attached(stdout)
                        },
                    },
                ),
            )
            &&& count == stages.len() ==> pending(state) == StepModel::Finished(
                Ok(Some((count - 1) as usize)),
            )
        }),
    decreases count,
{
    lemma_leaves_nonempty(expr);
    let stages = leaves(expr);
    if count > 0 {
        let before = (count - 1) as nat;
        lemma_pipeline_wiring(expr, stdin, stdout, before);
        assert(executable_of(stages[before as int].command) is Some);
    }
    if count < stages.len() {
        assert(executable_of(stages[count as int].command) is Some);
    }
}

/// A line that is one unknown command is reported; it starts no process
/// and does not fail.
pub proof fn lemma_unknown_command(
    program: ProgramModel,
    stdin: Option<Stream>,
    stdout: Option<Stream>,
)
    requires
        program.command == Command::Unknown,
    ensures
        ({
            let state = started(ExprModel::Program(program), stdin, stdout);
            &&& pending(state) == StepModel::Run(EffectModel::Report("Unknown command"@))
            &&& pending(after(state, Event::Done)) == StepModel::Finished(Ok(None))
        }),
{
}

/// A `cd` whose directory cannot be entered ends the line with the failure
/// of the built-in.
pub proof fn lemma_cd_failure(program: ProgramModel, stdin: Option<Stream>, stdout: Option<Stream>)
    requires
        program.command == Command::Cd,
        argument_at(program.arguments, 0) is Some,
    ensures
        ({
            let state = started(ExprModel::Program(program), stdin, stdout);
            &&& pending(state) == StepModel::Run(
                EffectModel::ChangeDir(argument_at(program.arguments, 0)->Some_0),
            )
            &&& pending(after(state, Event::Failed)) == StepModel::Finished(
                Err(Failure::ChangeDir),
            )
        }),
{
}

/// Where `exit` is the next stage, the line ends with the request to stop
/// the shell, and no event changes that.
pub proof fn lemma_exit_stops(state: EvaluatorModel, event: Event)
    requires
        state.failure is None,
        state.cursor < state.stages.len(),
        state.stages[state.cursor as int].command == Command::Exit,
    ensures
        pending(state) == StepModel::Finished(Err(Failure::Exit)),
        after(state, event) == state,
{
}

} // verus!
