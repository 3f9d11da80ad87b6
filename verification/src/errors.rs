//! Errors, as every stage of the pipeline reports them.
use vstd::prelude::*;
use vstd::string::*;

verus! {

pub type Result<T> = std::result::Result<T, Error>;

/// Which stage of the pipeline raised an error.
#[derive(Debug, Clone, Copy, PartialEq, Eq, Structural)]
pub enum ErrorKind {
    /// Raised while encoding or executing bytecode.
    Runtime,
    /// Raised by the type checker; the virtual machine never produces it.
    Type,
    /// Raised by the lexical analyser.
    Lexer,
}

/// An error: its kind and a message for a human reader.
#[derive(Debug)]
pub struct Error {
    pub message: String,
    pub kind: ErrorKind,
}

/// What an [`Error`] says: the characters of its message and its kind.
pub struct ErrorView {
    pub message: Seq<char>,
    pub kind: ErrorKind,
}

impl View for Error {
    type V = ErrorView;

    open spec fn view(&self) -> ErrorView {
        ErrorView { message: self.message@, kind: self.kind }
    }
}

/// A result as contracts speak of it: the value, or what the error says.
pub open spec fn outcome<T>(result: Result<T>) -> core::result::Result<T, ErrorView> {
    match result {
        Ok(value) => Ok(value),
        Err(err) => Err(err@),
    }
}

/// The runtime error that carries `message`.
pub open spec fn runtime(message: Seq<char>) -> ErrorView {
    ErrorView { message, kind: ErrorKind::Runtime }
}

/// The type error that carries `message`.
pub open spec fn type_mismatch(message: Seq<char>) -> ErrorView {
    ErrorView { message, kind: ErrorKind::Type }
}

/// The lexical error that carries `message`.
pub open spec fn lexical(message: Seq<char>) -> ErrorView {
    ErrorView { message, kind: ErrorKind::Lexer }
}

pub fn lexer_err(message: String) -> (err: Error)
    ensures
        err@ == lexical(message@),
{
    Error { message, kind: ErrorKind::Lexer }
}

pub fn runtime_err(message: &str) -> (err: Error)
    ensures
        err@ == runtime(message@),
{
    Error { message: String::from_str(message), kind: ErrorKind::Runtime }
}

pub fn typecheck_err(message: &str) -> (err: Error)
    ensures
        err@ == type_mismatch(message@),
{
    Error { message: String::from_str(message), kind: ErrorKind::Type }
}

impl Error {
    pub fn is_typecheck_err(&self) -> (yes: bool)
        ensures
            yes == (self.kind == ErrorKind::Type),
    {
        self.kind == ErrorKind::Type
    }

    /// The message alone, as the error prints.
    pub fn to_string(&self) -> (text: String)
        ensures
            text@ == self.message@,
    {
        self.message.clone()
    }
}

/// The character that writes the digit `d`.
pub open spec fn digit(d: nat) -> char {
    if d == 0 {
        '0'
    } else if d == 1 {
        '1'
    } else if d == 2 {
        '2'
    } else if d == 3 {
        '3'
    } else if d == 4 {
        '4'
    } else if d == 5 {
        '5'
    } else if d == 6 {
        '6'
    } else if d == 7 {
        '7'
    } else if d == 8 {
        '8'
    } else {
        '9'
    }
}

/// `n` written in base ten, most significant digit first, without leading zeros.
pub open spec fn decimal(n: nat) -> Seq<char>
    decreases n,
{
    if n < 10 {
        seq![digit(n)]
    } else {
        decimal(n / 10).push(digit(n % 10))
    }
}

fn digit_text(d: u64) -> (text: &'static str)
    requires
        d < 10,
    ensures
        text@ == seq![digit(d as nat)],
{
    proof {
        reveal_strlit("0");
        reveal_strlit("1");
        reveal_strlit("2");
        reveal_strlit("3");
        reveal_strlit("4");
        reveal_strlit("5");
        reveal_strlit("6");
        reveal_strlit("7");
        reveal_strlit("8");
        reveal_strlit("9");
    }
    let text = if d == 0 {
        "0"
    } else if d == 1 {
        "1"
    } else if d == 2 {
        "2"
    } else if d == 3 {
        "3"
    } else if d == 4 {
        "4"
    } else if d == 5 {
        "5"
    } else if d == 6 {
        "6"
    } else if d == 7 {
        "7"
    } else if d == 8 {
        "8"
    } else {
        "9"
    };
    assert(text@ =~= seq![digit(d as nat)]);
    text
}

/// Writes `n` in base ten.
pub fn decimal_string(n: u64) -> (text: String)
    ensures
        text@ == decimal(n as nat),
    decreases n,
{
    if n < 10 {
        String::from_str(digit_text(n))
    } else {
        let text = decimal_string(n / 10).concat(digit_text(n % 10));
        assert(text@ =~= decimal(n as nat));
        text
    }
}

/// The message of the runtime error for a constant that a pool does not hold:
/// `what`, then the index in base ten.
pub open spec fn indexed_message(what: Seq<char>, index: nat) -> Seq<char> {
    what + decimal(index)
}

/// The runtime error for index `index` missing from the pool that `what` names.
pub fn indexed_err(what: &str, index: u64) -> (err: Error)
    ensures
        err@ == runtime(indexed_message(what@, index as nat)),
{
    let number = decimal_string(index);
    let message = String::from_str(what).concat(number.as_str());
    Error { message, kind: ErrorKind::Runtime }
}

/// The message of the runtime error for a call that returned too few results.
pub open spec fn arity_message(expected: nat, returned: nat) -> Seq<char> {
    "caller expected "@ + decimal(expected) + " results, callee returned "@ + decimal(returned)
}

/// The runtime error for a callee that returned `returned` results where the
/// caller expected `expected`.
pub fn arity_err(expected: u64, returned: u64) -> (err: Error)
    ensures
        err@ == runtime(arity_message(expected as nat, returned as nat)),
{
    let wanted = decimal_string(expected);
    let got = decimal_string(returned);
    let message = String::from_str("caller expected ").concat(wanted.as_str()).concat(
        " results, callee returned ",
    ).concat(got.as_str());
    Error { message, kind: ErrorKind::Runtime }
}

} // verus!
