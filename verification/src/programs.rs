//! The commands of the shell: what each one asks of the operating system.
//!
//! Nothing here starts a process or changes a directory. Each function says
//! what is to be done, and the caller does it.

use vstd::prelude::*;
use vstd::string::*;
use crate::scanner::texts;
use crate::text::{trim, trimmed};

verus! {

/// How a standard stream of a process is attached.
#[derive(Debug, Copy, Clone, PartialEq, Eq, Structural)]
pub enum Stream {
    /// The stream of the shell itself.
    Inherit,
    /// A new pipe, whose other end the next stage reads.
    Piped,
    /// The reading end of the pipe that the stage before writes to.
    Upstream,
}

/// A process to start: the executable, looked up on the search path, its
/// arguments, and its standard input and output.
#[derive(Debug, PartialEq, Eq)]
pub struct Spawn {
    pub executable: String,
    pub arguments: Vec<String>,
    pub stdin: Stream,
    pub stdout: Stream,
}

/// What a `Spawn` stands for.
pub struct SpawnModel {
    pub executable: Seq<char>,
    pub arguments: Seq<Seq<char>>,
    pub stdin: Stream,
    pub stdout: Stream,
}

impl View for Spawn {
    type V = SpawnModel;

    open spec fn view(&self) -> SpawnModel {
        SpawnModel {
            executable: self.executable@,
            arguments: texts(self.arguments@),
            stdin: self.stdin,
            stdout: self.stdout,
        }
    }
}

/// The stream to attach where `stream` may be missing: the shell's own.
pub open spec fn attached(stream: Option<Stream>) -> Stream {
    match stream {
        Some(s) => s,
        None => Stream::Inherit,
    }
}

/// The trimmed argument at `index`, or `None` where `args` is shorter or
/// that argument is blank.
pub open spec fn argument_at(args: Seq<Seq<char>>, index: int) -> Option<Seq<char>> {
    if 0 <= index < args.len() && trimmed(args[index]).len() > 0 {
        Some(trimmed(args[index]))
    } else {
        None
    }
}

/// The model of an optional string slice.
pub open spec fn optional_text(s: Option<&str>) -> Option<Seq<char>> {
    match s {
        Some(text) => Some(text@),
        None => None,
    }
}

/// The model of an optional string.
pub open spec fn optional_string(s: Option<String>) -> Option<Seq<char>> {
    match s {
        Some(text) => Some(text@),
        None => None,
    }
}

/// Returns the trimmed argument at `index`, unless it is missing or blank.
pub fn get_arg(args: &Vec<String>, index: usize) -> (r: Option<&str>)
    ensures
        optional_text(r) == argument_at(texts(args@), index as int),
{
    if args.len() > index {
        let arg = trim(args[index].as_str());
        if arg.is_empty() {
            None
        } else {
            Some(arg)
        }
    } else {
        None
    }
}

/// Replaces the error of `res`, whatever it is, by `message`.
pub fn map_error<T, E>(res: Result<T, E>, message: &'static str) -> (r: Result<T, &'static str>)
    ensures
        match res {
            Ok(value) => r == Ok::<T, &'static str>(value),
            Err(_) => r == Err::<T, &'static str>(message),
        },
{
    match res {
        Ok(value) => Ok(value),
        Err(_) => Err(message),
    }
}

/// Copies a list of strings.
pub fn copy_strings(args: &Vec<String>) -> (r: Vec<String>)
    ensures
        texts(r@) == texts(args@),
{
    let mut r: Vec<String> = Vec::new();
    let mut i: usize = 0;
    while i < args.len()
        invariant
            i <= args.len(),
            r@.len() == i,
            forall|k: int| 0 <= k < i ==> r@[k]@ == args@[k]@,
        decreases args.len() - i,
    {
        r.push(args[i].clone());
        i = i + 1;
    }
    r
}

/// Describes the process that runs `cmd` with `args`. A stream that is not
/// given is the shell's own.
pub fn execute_command(
    cmd: &str,
    args: Vec<String>,
    stdin: Option<Stream>,
    stdout: Option<Stream>,
) -> (r: Spawn)
    ensures
        r@ == (SpawnModel {
            executable: cmd@,
            arguments: texts(args@),
            stdin: attached(stdin),
            stdout: attached(stdout),
        }),
{
    let stdin = match stdin {
        Some(stream) => stream,
        None => Stream::Inherit,
    };
    let stdout = match stdout {
        Some(stream) => stream,
        None => Stream::Inherit,
    };
    Spawn { executable: String::from_str(cmd), arguments: args, stdin, stdout }
}

/// The directory that `cd` changes to: its first argument, trimmed. `None`
/// where there is none, and then `cd` does nothing.
pub fn cd(args: &Vec<String>) -> (r: Option<String>)
    ensures
        optional_string(r) == argument_at(texts(args@), 0),
{
    match get_arg(args, 0) {
        Some(arg) => Some(String::from_str(arg)),
        None => None,
    }
}

/// The process that lists a directory.
pub fn ls(args: &Vec<String>, stdin: Option<Stream>, stdout: Option<Stream>) -> (r: Spawn)
    ensures
        r@ == (SpawnModel {
            executable: "ls"@,
            arguments: texts(args@),
            stdin: attached(stdin),
            stdout: attached(stdout),
        }),
{
    execute_command("ls", copy_strings(args), stdin, stdout)
}

/// The process that prints its arguments.
pub fn echo(args: &Vec<String>, stdin: Option<Stream>, stdout: Option<Stream>) -> (r: Spawn)
    ensures
        r@ == (SpawnModel {
            executable: "echo"@,
            arguments: texts(args@),
            stdin: attached(stdin),
            stdout: attached(stdout),
        }),
{
    execute_command("echo", copy_strings(args), stdin, stdout)
}

/// The process that counts lines, words and bytes.
pub fn wc(args: &Vec<String>, stdin: Option<Stream>, stdout: Option<Stream>) -> (r: Spawn)
    ensures
        r@ == (SpawnModel {
            executable: "wc"@,
            arguments: texts(args@),
            stdin: attached(stdin),
            stdout: attached(stdout),
        }),
{
    execute_command("wc", copy_strings(args), stdin, stdout)
}

/// The process that searches for a pattern.
pub fn grep(args: &Vec<String>, stdin: Option<Stream>, stdout: Option<Stream>) -> (r: Spawn)
    ensures
        r@ == (SpawnModel {
            executable: "grep"@,
            arguments: texts(args@),
            stdin: attached(stdin),
            stdout: attached(stdout),
        }),
{
    execute_command("grep", copy_strings(args), stdin, stdout)
}

/// The process that concatenates files.
pub fn cat(args: &Vec<String>, stdin: Option<Stream>, stdout: Option<Stream>) -> (r: Spawn)
    ensures
        r@ == (SpawnModel {
            executable: "cat"@,
            arguments: texts(args@),
            stdin: attached(stdin),
            stdout: attached(stdout),
        }),
{
    execute_command("cat", copy_strings(args), stdin, stdout)
}

} // verus!
