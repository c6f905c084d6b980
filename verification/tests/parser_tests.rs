use minishell::parser::{parse, parse_pipe, parse_program, Binary, Expr, Program};
use minishell::programs::{get_arg, map_error};
use minishell::scanner::{tokenize, Command, Op, Token};

fn program(command: Command, arguments: &[&str]) -> Program {
    Program { command, arguments: arguments.iter().map(|s| s.to_string()).collect() }
}

fn pipe(left: Expr, right: Expr) -> Expr {
    Expr::Binary(Binary { left: Box::new(left), right: Box::new(right), operator: Op::Pipe })
}

#[test]
fn flags_before_arguments_are_all_kept() {
    assert_eq!(
        parse("ls -l -a dir\n".to_string()),
        Ok(Expr::Program(program(Command::Ls, &["-l", "-a", "dir"])))
    );
}

#[test]
fn flag_after_an_argument_is_dropped() {
    assert_eq!(
        parse("ls dir -l\n".to_string()),
        Ok(Expr::Program(program(Command::Ls, &["dir"])))
    );
}

#[test]
fn quoted_text_is_a_single_argument() {
    assert_eq!(
        parse("echo \"-a b\"\n".to_string()),
        Ok(Expr::Program(program(Command::Echo, &["-a b"])))
    );
    assert_eq!(
        parse("echo \"hello   world\" again\n".to_string()),
        Ok(Expr::Program(program(Command::Echo, &["hello   world", "again"])))
    );
}

#[test]
fn pipe_of_two_programs() {
    assert_eq!(
        parse("ls | wc\n".to_string()),
        Ok(pipe(
            Expr::Program(program(Command::Ls, &[])),
            Expr::Program(program(Command::Wc, &[]))
        ))
    );
}

#[test]
fn pipes_nest_to_the_right() {
    assert_eq!(
        parse("cat file | grep -v x | wc -l\n".to_string()),
        Ok(pipe(
            Expr::Program(program(Command::Cat, &["file"])),
            pipe(
                Expr::Program(program(Command::Grep, &["-v", "x"])),
                Expr::Program(program(Command::Wc, &["-l"]))
            )
        ))
    );
}

#[test]
fn unknown_word_is_no_command() {
    assert_eq!(parse("nosuchcmd\n".to_string()), Err("No command found"));
}

#[test]
fn empty_line_is_no_command() {
    assert_eq!(parse("\n".to_string()), Err("No command found"));
    assert_eq!(parse("".to_string()), Err("No command found"));
}

#[test]
fn dangling_pipe_is_no_command() {
    assert_eq!(parse("ls |\n".to_string()), Err("No command found"));
    assert_eq!(parse("| ls\n".to_string()), Err("No command found"));
    assert_eq!(parse("ls | | wc\n".to_string()), Err("No command found"));
}

#[test]
fn tokens_behind_the_last_program_are_ignored() {
    assert_eq!(
        parse("ls dir -l more | wc\n".to_string()),
        Ok(Expr::Program(program(Command::Ls, &["dir"])))
    );
    assert_eq!(
        parse("ls wc\n".to_string()),
        Ok(Expr::Program(program(Command::Ls, &[])))
    );
}

#[test]
fn parse_program_moves_the_cursor_behind_the_program() {
    let tokens = tokenize("ls -l dir | wc\n".to_string());
    let mut pos: usize = 0;
    assert_eq!(parse_program(&tokens, &mut pos), Ok(program(Command::Ls, &["-l", "dir"])));
    assert_eq!(pos, 3);
    assert_eq!(parse_program(&tokens, &mut pos), Err("No command found"));
    assert_eq!(pos, 3);
    pos = 4;
    assert_eq!(parse_program(&tokens, &mut pos), Ok(program(Command::Wc, &[])));
    assert_eq!(pos, 5);
    assert_eq!(parse_program(&tokens, &mut pos), Err("No command found"));
    pos = 9;
    assert_eq!(parse_program(&tokens, &mut pos), Err("No command found"));
    assert_eq!(pos, 9);
}

#[test]
fn parse_pipe_consumes_the_token_behind_the_program() {
    let tokens = vec![
        Token::Command(Command::Ls),
        Token::Argument("dir".to_string()),
        Token::Flag("-l".to_string()),
        Token::Argument("more".to_string()),
    ];
    let mut pos: usize = 0;
    assert_eq!(parse_pipe(&tokens, &mut pos), Ok(Expr::Program(program(Command::Ls, &["dir"]))));
    assert_eq!(pos, 3);
}

#[test]
fn parse_pipe_reads_the_whole_chain() {
    let tokens = tokenize("ls | wc\n".to_string());
    let mut pos: usize = 0;
    assert_eq!(
        parse_pipe(&tokens, &mut pos),
        Ok(pipe(
            Expr::Program(program(Command::Ls, &[])),
            Expr::Program(program(Command::Wc, &[]))
        ))
    );
    assert_eq!(pos, 3);
}

#[test]
fn get_arg_trims_and_skips_blanks() {
    let args = vec![" dir ".to_string(), "   ".to_string(), "".to_string(), "x".to_string()];
    assert_eq!(get_arg(&args, 0), Some("dir"));
    assert_eq!(get_arg(&args, 1), None);
    assert_eq!(get_arg(&args, 2), None);
    assert_eq!(get_arg(&args, 3), Some("x"));
    assert_eq!(get_arg(&args, 4), None);
    assert_eq!(get_arg(&Vec::new(), 0), None);
}

#[test]
fn map_error_replaces_only_the_error() {
    let fine: Result<u32, String> = Ok(7);
    let bad: Result<u32, String> = Err("boom".to_string());
    assert_eq!(map_error(fine, "Command failed"), Ok(7));
    assert_eq!(map_error(bad, "Command failed"), Err("Command failed"));
}

#[test]
fn build_splits_at_single_spaces() {
    assert_eq!(
        Program::build(&"ls -l dir".to_string()),
        Ok(program(Command::Ls, &["-l", "dir"]))
    );
    assert_eq!(
        Program::build(&"echo a  b ".to_string()),
        Ok(program(Command::Echo, &["a", "", "b", ""]))
    );
    assert_eq!(Program::build(&"".to_string()), Ok(program(Command::Unknown, &[])));
    assert_eq!(Program::build(&"cd\n".to_string()), Ok(program(Command::Cd, &[])));
    assert_eq!(
        Program::build(&"what is this".to_string()),
        Ok(program(Command::Unknown, &["is", "this"]))
    );
}

#[test]
fn parse_pipe_stops_where_the_command_is_missing() {
    let tokens = tokenize("ls | wc | x\n".to_string());
    let mut pos: usize = 0;
    assert_eq!(parse_pipe(&tokens, &mut pos), Err("No command found"));
    assert_eq!(pos, 4);
    let mut at_pipe: usize = 1;
    assert_eq!(parse_pipe(&tokens, &mut at_pipe), Err("No command found"));
    assert_eq!(at_pipe, 1);
}
