use vstd::prelude::*;
use vstd::string::*;

verus! {

/// Declares `std::io::Error` so that it can be carried, unchanged and unread,
/// as the transport failure of a run.
#[verifier::external_type_specification]
#[verifier::external_body]
pub struct ExIoError(std::io::Error);

/// Name reported for a program whose name cannot be read as text.
pub const UNKNOWN_PROGRAM: &'static str = "unknwown";

/// How a child process ended: the success flag and the exit code, which is
/// absent when the process was ended by a signal.
#[derive(Clone, Copy, Debug, PartialEq, Eq, Structural)]
pub struct ExitState {
    pub success: bool,
    pub code: Option<i32>,
}

/// A child process that ran and ended without success.
#[derive(Debug)]
pub struct ChildError {
    /// Name of the program that was run.
    pub program: String,
    /// Exit code of the child, absent when it was ended by a signal.
    pub code: Option<i32>,
}

/// Error of running a command: a failure of the process machinery itself,
/// or a child that ended without success.
#[derive(Debug)]
pub enum CmdSpawnError {
    /// Spawning the process or waiting for it failed.
    IO(std::io::Error),
    /// The process ran and ended without success.
    ChildError(ChildError),
}

/// The name a failed child is reported under.
pub open spec fn reported_program(program: Option<Seq<char>>) -> Seq<char> {
    match program {
        Some(p) => p,
        None => UNKNOWN_PROGRAM@,
    }
}

/// Outcome of a finished child: success when the status says so, else a
/// `ChildError` with the reported name and the exit code.
pub fn classify_exit(program: Option<String>, status: ExitState) -> (r: Result<(), ChildError>)
    ensures
        r is Ok <==> status.success,
        r is Err ==> r->Err_0.code == status.code,
        r is Err ==> r->Err_0.program@ == reported_program(
            match program { Some(p) => Some(p@), None => None },
        ),
{
    if status.success {
        Ok(())
    } else {
        let name = match program {
            Some(p) => p,
            None => String::from_str(UNKNOWN_PROGRAM),
        };
        Err(ChildError { program: name, code: status.code })
    }
}

/// Outcome of running a command, from what waiting on it gave: a failure to
/// spawn or to wait is passed on as `IO`, and a finished child is classified
/// by `classify_exit`.
pub fn spawn_outcome(program: Option<String>, waited: Result<ExitState, std::io::Error>) -> (r: Result<(), CmdSpawnError>)
    ensures
        match waited {
            Err(e) => r == Err::<(), CmdSpawnError>(CmdSpawnError::IO(e)),
            Ok(status) => {
                &&& (r is Ok <==> status.success)
                &&& (!status.success ==> match r {
                    Err(CmdSpawnError::ChildError(c)) => {
                        &&& c.code == status.code
                        &&& c.program@ == reported_program(
                            match program { Some(p) => Some(p@), None => None },
                        )
                    },
                    _ => false,
                })
            },
        },
{
    match waited {
        Err(e) => Err(CmdSpawnError::IO(e)),
        Ok(status) => match classify_exit(program, status) {
            Ok(()) => Ok(()),
            Err(c) => Err(CmdSpawnError::ChildError(c)),
        },
    }
}

/// The character of a decimal digit.
pub open spec fn digit_char(d: nat) -> char {
    "0123456789"@[d as int]
}

/// Decimal digits of a natural number, most significant first.
pub open spec fn decimal_nat(n: nat) -> Seq<char>
    decreases n,
{
    if n < 10 {
        seq![digit_char(n)]
    } else {
        decimal_nat(n / 10).push(digit_char(n % 10))
    }
}

/// Decimal text of an integer, with a leading `-` when it is negative.
pub open spec fn decimal_int(n: int) -> Seq<char> {
    if n < 0 {
        seq!['-'] + decimal_nat((-n) as nat)
    } else {
        decimal_nat(n as nat)
    }
}

/// Text of an exit code: its decimal form, or `unknown` when there is none.
pub open spec fn code_text(code: Option<i32>) -> Seq<char> {
    match code {
        Some(c) => decimal_int(c as int),
        None => "unknown"@,
    }
}

/// Message describing a failed child.
pub open spec fn child_message(program: Seq<char>, code: Option<i32>) -> Seq<char> {
    "program \""@ + program + "\" failed with status code "@ + code_text(code)
}

fn digit_str(d: u32) -> (r: &'static str)
    requires
        d < 10,
    ensures
        r@ == seq![digit_char(d as nat)],
{
    proof {
        reveal_strlit("0123456789");
    }
    let r = match d {
        0 => "0",
        1 => "1",
        2 => "2",
        3 => "3",
        4 => "4",
        5 => "5",
        6 => "6",
        7 => "7",
        8 => "8",
        _ => "9",
    };
    proof {
        reveal_strlit("0");
        reveal_strlit("1");
        reveal_strlit("2");
        reveal_strlit("3");
        reveal_strlit("4");
        reveal_strlit("5");
        reveal_strlit("6");
        reveal_strlit("7");
        reveal_strlit("8");
        reveal_strlit("9");
        assert(r@ =~= seq![digit_char(d as nat)]);
    }
    r
}

fn push_decimal(s: &mut String, n: u32)
    ensures
        final(s)@ == old(s)@ + decimal_nat(n as nat),
    decreases n,
{
    if n >= 10 {
        push_decimal(s, n / 10);
    }
    s.append(digit_str(n % 10));
    proof {
        assert(final(s)@ =~= old(s)@ + decimal_nat(n as nat));
    }
}

fn push_code(s: &mut String, code: Option<i32>)
    ensures
        final(s)@ == old(s)@ + code_text(code),
{
    match code {
        Some(c) => {
            if c < 0 {
                s.append("-");
                let m: u32 = (-(c as i64)) as u32;
                push_decimal(s, m);
                proof {
                    reveal_strlit("-");
                    assert(final(s)@ =~= old(s)@ + code_text(code));
                }
            } else {
                push_decimal(s, c as u32);
            }
        },
        None => {
            s.append("unknown");
        },
    }
}

impl ChildError {
    /// Message describing this failure, naming the program and the exit code.
    pub fn message(&self) -> (r: String)
        ensures
            r@ == child_message(self.program@, self.code),
    {
        let mut s = String::from_str("program \"");
        s.append(self.program.as_str());
        s.append("\" failed with status code ");
        push_code(&mut s, self.code);
        proof {
            assert(s@ =~= child_message(self.program@, self.code));
        }
        s
    }
}

/// Relies on `std::io::Error`'s `Display`: the operating system's description
/// of the error, which may differ between machines.
#[verifier::external_body]
fn io_error_text(e: &std::io::Error) -> (r: String) {
    e.to_string()
}

impl CmdSpawnError {
    /// Message describing this error: `command IO error ` and the system's
    /// description, or `child ` and the child's message.
    pub fn message(&self) -> (r: String)
        ensures
            match self {
                CmdSpawnError::IO(_) => "command IO error "@.is_prefix_of(r@),
                CmdSpawnError::ChildError(c) => r@ == "child "@ + child_message(c.program@, c.code),
            },
    {
        match self {
            CmdSpawnError::IO(e) => {
                let mut s = String::from_str("command IO error ");
                let t = io_error_text(e);
                s.append(t.as_str());
                proof {
                    assert(s@.subrange(0, "command IO error "@.len() as int) =~= "command IO error "@);
                }
                s
            },
            CmdSpawnError::ChildError(c) => {
                let s = String::from_str("child ");
                let m = c.message();
                s.concat(m.as_str())
            },
        }
    }
}

} // verus!
