//! The command line that carries a bundle's identities to the child.
//!
//! The line is the quoted executable path followed by the four identities in
//! decimal, each token separated from the next by one space:
//! `"<exe>" <memory> <lock> <ready> <ack>`. Decimal digits need no quoting.
//! The first token of a command line is read up to the closing quote with no
//! escapes, so a path that holds a double quote cannot be carried; nor can one
//! that holds a NUL, which would end the line early.

use vstd::prelude::*;
use vstd::string::*;
use crate::bundle::SynchronizationBundle;
use crate::error::ChannelError;

verus! {

/// The character of one decimal digit.
pub open spec fn digit(d: nat) -> char
    recommends
        d < 10,
{
    if d == 0 {
        '0'
    } else if d == 1 {
        '1'
    } else if d == 2 {
        '2'
    } else if d == 3 {
        '3'
    } else if d == 4 {
        '4'
    } else if d == 5 {
        '5'
    } else if d == 6 {
        '6'
    } else if d == 7 {
        '7'
    } else if d == 8 {
        '8'
    } else {
        '9'
    }
}

/// The decimal numeral of `n`, without leading zeros.
pub open spec fn decimal(n: nat) -> Seq<char>
    decreases n,
{
    if n < 10 {
        seq![digit(n)]
    } else {
        decimal(n / 10).push(digit(n % 10))
    }
}

/// A decimal numeral holds digits only, and at least one: neither white space
/// nor a quote, so that it is one token of a command line as it stands.
pub proof fn lemma_decimal_is_plain(n: nat)
    ensures
        decimal(n).len() >= 1,
        forall|i: int| 0 <= i < decimal(n).len() ==> '0' <= #[trigger] decimal(n)[i] <= '9',
    decreases n,
{
    if n >= 10 {
        lemma_decimal_is_plain(n / 10);
    }
}

/// Whether a path can stand between double quotes as the first token of a
/// command line: it is not empty and holds neither a double quote nor a NUL.
pub open spec fn safe_executable(exe: Seq<char>) -> bool {
    &&& exe.len() > 0
    &&& forall|i: int| 0 <= i < exe.len() ==> exe[i] != '"' && exe[i] != '\0'
}

/// The command line for an executable and a bundle.
pub open spec fn command_line(exe: Seq<char>, bundle: SynchronizationBundle) -> Seq<char> {
    seq!['"'] + exe + seq!['"'] + seq![' '] + decimal(bundle.memory.id as nat) + seq![' ']
        + decimal(bundle.lock.id as nat) + seq![' '] + decimal(bundle.ready_event.id as nat)
        + seq![' '] + decimal(bundle.ack_event.id as nat)
}

/// What the child needs to find its end of the channel: its own path and the
/// bundle's identities.
#[derive(Debug, PartialEq, Eq)]
pub struct ChannelArgs {
    pub exe: String,
    pub bundle: SynchronizationBundle,
}

fn digit_text(d: u64) -> (text: &'static str)
    requires
        d < 10,
    ensures
        text@ == seq![digit(d as nat)],
{
    proof {
        reveal_strlit("0");
        reveal_strlit("1");
        reveal_strlit("2");
        reveal_strlit("3");
        reveal_strlit("4");
        reveal_strlit("5");
        reveal_strlit("6");
        reveal_strlit("7");
        reveal_strlit("8");
        reveal_strlit("9");
    }
    if d == 0 {
        "0"
    } else if d == 1 {
        "1"
    } else if d == 2 {
        "2"
    } else if d == 3 {
        "3"
    } else if d == 4 {
        "4"
    } else if d == 5 {
        "5"
    } else if d == 6 {
        "6"
    } else if d == 7 {
        "7"
    } else if d == 8 {
        "8"
    } else {
        "9"
    }
}

fn append_decimal(line: &mut String, n: u64)
    ensures
        final(line)@ == old(line)@ + decimal(n as nat),
    decreases n,
{
    if n >= 10 {
        append_decimal(line, n / 10);
    }
    line.append(digit_text(n % 10));
}

/// Whether `exe` can be carried as the first token of a command line.
pub fn is_safe_executable(exe: &str) -> (safe: bool)
    ensures
        safe == safe_executable(exe@),
{
    let n: usize = exe.unicode_len();
    if n == 0 {
        return false;
    }
    let mut i: usize = 0;
    while i < n
        invariant
            n == exe@.len(),
            i <= n,
            forall|k: int| 0 <= k < i ==> exe@[k] != '"' && exe@[k] != '\0',
        decreases n - i,
    {
        let c = exe.get_char(i);
        if c == '"' || c == '\0' {
            return false;
        }
        i = i + 1;
    }
    true
}

impl ChannelArgs {
    /// Encodes the executable path and the four identities as one command line.
    ///
    /// The line depends on nothing but `self`. A path that cannot be quoted is
    /// refused with [`ChannelError::UnsafeExecutable`].
    pub fn to_cmd_line(&self) -> (encoded: Result<String, ChannelError>)
        ensures
            match encoded {
                Ok(line) => safe_executable(self.exe@) && line@ == command_line(
                    self.exe@,
                    self.bundle,
                ),
                Err(refusal) => !safe_executable(self.exe@) && refusal
                    == ChannelError::UnsafeExecutable,
            },
    {
        if !is_safe_executable(self.exe.as_str()) {
            return Err(ChannelError::UnsafeExecutable);
        }
        proof {
            reveal_strlit("\"");
            reveal_strlit("\" ");
            reveal_strlit(" ");
        }
        let mut line = String::from_str("\"");
        line.append(self.exe.as_str());
        line.append("\" ");
        append_decimal(&mut line, self.bundle.memory.id);
        line.append(" ");
        append_decimal(&mut line, self.bundle.lock.id);
        line.append(" ");
        append_decimal(&mut line, self.bundle.ready_event.id);
        line.append(" ");
        append_decimal(&mut line, self.bundle.ack_event.id);
        assert(line@ =~= command_line(self.exe@, self.bundle));
        Ok(line)
    }
}

} // verus!
