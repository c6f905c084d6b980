use minishell::scanner::{split, tokenize, Command, Op, Token};
use minishell::text::{is_whitespace, same_text, starts_with_char, trim};

fn strings(items: &[&str]) -> Vec<String> {
    items.iter().map(|s| s.to_string()).collect()
}

#[test]
fn whitespace_class_is_that_of_the_standard_library() {
    let mut code: u32 = 0;
    while code <= 0x10FFFF {
        if let Some(c) = char::from_u32(code) {
            assert_eq!(is_whitespace(c), c.is_whitespace(), "code point {:#x}", code);
        }
        code += 1;
    }
}

#[test]
fn trim_takes_whitespace_off_both_ends() {
    assert_eq!(trim("  ls \t\n"), "ls");
    assert_eq!(trim("a b"), "a b");
    assert_eq!(trim(" \u{3000}x y\u{a0}"), "x y");
    assert_eq!(trim("   "), "");
    assert_eq!(trim(""), "");
    for sample in ["  ls \t\n", "\n", " -a b ", "\u{2003}wide\u{2003}", "x"] {
        assert_eq!(trim(sample), sample.trim());
    }
}

#[test]
fn same_text_compares_characters() {
    assert!(same_text("grep", "grep"));
    assert!(!same_text("grep", "gre"));
    assert!(!same_text("grep", "grip"));
    assert!(same_text("", ""));
}

#[test]
fn starts_with_char_looks_at_the_first_character() {
    assert!(starts_with_char("-l", '-'));
    assert!(!starts_with_char("l-", '-'));
    assert!(!starts_with_char("", '-'));
}

#[test]
fn command_lookup_knows_every_keyword() {
    assert_eq!(Command::try_from_string("exit".to_string()), Some(Command::Exit));
    assert_eq!(Command::try_from_string("ls".to_string()), Some(Command::Ls));
    assert_eq!(Command::try_from_string("cd".to_string()), Some(Command::Cd));
    assert_eq!(Command::try_from_string("echo".to_string()), Some(Command::Echo));
    assert_eq!(Command::try_from_string("wc".to_string()), Some(Command::Wc));
    assert_eq!(Command::try_from_string("grep".to_string()), Some(Command::Grep));
    assert_eq!(Command::try_from_string("cat".to_string()), Some(Command::Cat));
}

#[test]
fn command_lookup_trims_and_is_case_sensitive() {
    assert_eq!(Command::try_from_string("  ls\n".to_string()), Some(Command::Ls));
    assert_eq!(Command::try_from_string("LS".to_string()), None);
    assert_eq!(Command::try_from_string("lss".to_string()), None);
    assert_eq!(Command::try_from_string("".to_string()), None);
    assert_eq!(Command::try_from_string("|".to_string()), None);
}

#[test]
fn command_resolution_falls_back_to_unknown() {
    assert_eq!(Command::from_string("cat".to_string()), Command::Cat);
    assert_eq!(Command::from_string("nosuchcmd".to_string()), Command::Unknown);
}

#[test]
fn token_classification_follows_the_previous_token() {
    let dash = "-l".to_string();
    assert_eq!(Token::try_from_string(&None, &dash), None);
    assert_eq!(Token::try_from_string(&Some(Token::Operator(Op::Pipe)), &dash), None);
    assert_eq!(
        Token::try_from_string(&Some(Token::Command(Command::Ls)), &dash),
        Some(Token::Flag("-l".to_string()))
    );
    assert_eq!(
        Token::try_from_string(&Some(Token::Argument("x".to_string())), &dash),
        Some(Token::Flag("-l".to_string()))
    );
    assert_eq!(
        Token::try_from_string(&Some(Token::Flag("-a".to_string())), &dash),
        Some(Token::Flag("-l".to_string()))
    );
}

#[test]
fn token_classification_of_keywords_pipe_and_words() {
    assert_eq!(
        Token::try_from_string(&None, &"grep".to_string()),
        Some(Token::Command(Command::Grep))
    );
    assert_eq!(
        Token::try_from_string(&None, &"|".to_string()),
        Some(Token::Operator(Op::Pipe))
    );
    assert_eq!(
        Token::try_from_string(&None, &" file.txt ".to_string()),
        Some(Token::Argument("file.txt".to_string()))
    );
    assert_eq!(
        Token::try_from_string(&None, &"Echo".to_string()),
        Some(Token::Argument("Echo".to_string()))
    );
    assert_eq!(
        Token::try_from_string(&None, &"".to_string()),
        Some(Token::Argument("".to_string()))
    );
}

#[test]
fn token_clone_keeps_the_token() {
    let tokens = vec![
        Token::Operator(Op::Pipe),
        Token::Command(Command::Wc),
        Token::Flag("-l".to_string()),
        Token::Argument("a b".to_string()),
    ];
    for token in tokens.iter() {
        assert_eq!(&token.clone(), token);
    }
}

#[test]
fn split_breaks_at_whitespace() {
    assert_eq!(split("ls -l dir\n".to_string()), strings(&["ls", "-l", "dir"]));
}

#[test]
fn split_collapses_runs_of_whitespace() {
    assert_eq!(split("  ls   -l \t dir  \n".to_string()), strings(&["ls", "-l", "dir"]));
}

#[test]
fn split_keeps_quoted_whitespace_and_strips_quotes() {
    assert_eq!(split("echo \"-a b\"\n".to_string()), strings(&["echo", "-a b"]));
    assert_eq!(split("echo \"  two  spaces \" x\n".to_string()), strings(&["echo", "  two  spaces ", "x"]));
}

#[test]
fn split_emits_an_empty_quoted_lexeme() {
    assert_eq!(split("echo \"\"\n".to_string()), strings(&["echo", ""]));
}

#[test]
fn split_joins_a_word_with_the_quote_that_follows_it() {
    assert_eq!(split("ab\"c d\" e\n".to_string()), strings(&["abc d", "e"]));
    assert_eq!(split("\"ab\"cd \n".to_string()), strings(&["ab", "cd"]));
}

#[test]
fn split_drops_what_is_left_in_the_buffer() {
    assert_eq!(split("ls".to_string()), strings(&[]));
    assert_eq!(split("ls -l".to_string()), strings(&["ls"]));
    assert_eq!(split("echo \"abc\n".to_string()), strings(&["echo"]));
    assert_eq!(split("".to_string()), strings(&[]));
}

#[test]
fn single_keyword_lexes_to_one_command() {
    let table = [
        ("exit", Command::Exit),
        ("ls", Command::Ls),
        ("cd", Command::Cd),
        ("echo", Command::Echo),
        ("wc", Command::Wc),
        ("grep", Command::Grep),
        ("cat", Command::Cat),
    ];
    for (word, command) in table {
        assert_eq!(tokenize(format!("{}\n", word)), vec![Token::Command(command)]);
    }
}

#[test]
fn pipe_lexes_to_an_operator() {
    assert_eq!(
        tokenize("ls | wc\n".to_string()),
        vec![
            Token::Command(Command::Ls),
            Token::Operator(Op::Pipe),
            Token::Command(Command::Wc),
        ]
    );
}

#[test]
fn unknown_word_lexes_to_an_argument() {
    assert_eq!(
        tokenize("nosuchcmd\n".to_string()),
        vec![Token::Argument("nosuchcmd".to_string())]
    );
}

#[test]
fn flag_is_dropped_at_the_start_and_after_a_pipe() {
    assert_eq!(tokenize("-a ls\n".to_string()), vec![Token::Command(Command::Ls)]);
    assert_eq!(
        tokenize("ls | -a -b wc\n".to_string()),
        vec![
            Token::Command(Command::Ls),
            Token::Operator(Op::Pipe),
            Token::Command(Command::Wc),
        ]
    );
}

#[test]
fn flags_and_arguments_keep_their_order() {
    assert_eq!(
        tokenize("grep -i -v needle file\n".to_string()),
        vec![
            Token::Command(Command::Grep),
            Token::Flag("-i".to_string()),
            Token::Flag("-v".to_string()),
            Token::Argument("needle".to_string()),
            Token::Argument("file".to_string()),
        ]
    );
}

#[test]
fn quoted_text_is_one_token() {
    assert_eq!(
        tokenize("echo \"a b\"\n".to_string()),
        vec![Token::Command(Command::Echo), Token::Argument("a b".to_string())]
    );
    assert_eq!(
        tokenize("echo \"-a b\"\n".to_string()),
        vec![Token::Command(Command::Echo), Token::Flag("-a b".to_string())]
    );
}

#[test]
fn quoted_keyword_with_blanks_is_still_a_command() {
    assert_eq!(
        tokenize("\" ls \"\n".to_string()),
        vec![Token::Command(Command::Ls)]
    );
}

#[test]
fn characters_lists_the_characters() {
    assert_eq!(minishell::text::characters("a\u{e9}\u{4e16}|"), vec!['a', '\u{e9}', '\u{4e16}', '|']);
    assert_eq!(minishell::text::characters(""), Vec::<char>::new());
}

#[test]
fn split_keeps_characters_beyond_ascii() {
    assert_eq!(
        split("echo h\u{e9}llo\u{3000}\"w\u{f6}rld \u{4e16}\"\n".to_string()),
        strings(&["echo", "h\u{e9}llo", "w\u{f6}rld \u{4e16}"])
    );
}

#[test]
fn scanner_hands_out_the_tokens_one_by_one() {
    let mut scanner = minishell::scanner::Scanner::new(&"-x ls -l | -a wc f\n".to_string());
    assert_eq!(scanner.next(), Some(Token::Command(Command::Ls)));
    assert_eq!(scanner.next(), Some(Token::Flag("-l".to_string())));
    assert_eq!(scanner.next(), Some(Token::Operator(Op::Pipe)));
    assert_eq!(scanner.next(), Some(Token::Command(Command::Wc)));
    assert_eq!(scanner.next(), Some(Token::Argument("f".to_string())));
    assert_eq!(scanner.next(), None);
    assert_eq!(scanner.next(), None);
}

#[test]
fn scanner_of_an_empty_line_has_no_token() {
    let mut scanner = minishell::scanner::Scanner::new(&"\n".to_string());
    assert_eq!(scanner.next(), None);
}

#[test]
fn lookup_matches_the_whole_word_only() {
    assert_eq!(minishell::scanner::lookup("wc"), Some(Command::Wc));
    assert_eq!(minishell::scanner::lookup(" wc"), None);
    assert_eq!(minishell::scanner::lookup("w"), None);
    assert_eq!(minishell::scanner::lookup("wcc"), None);
}

#[test]
fn flag_never_stands_first_or_behind_a_pipe() {
    for line in ["-a\n", "-a -b ls -c | -d | wc -e f -g\n", "| -x\n", "ls|-l\n"] {
        let tokens = tokenize(line.to_string());
        for (i, token) in tokens.iter().enumerate() {
            if let Token::Flag(_) = token {
                assert!(i > 0);
                assert!(!matches!(tokens[i - 1], Token::Operator(_)));
            }
        }
    }
}
