//! Reading the command line back, as the child does when it starts.
//!
//! [`parse`] says which lines are command lines and what they stand for.
//! It undoes [`command_line`]: a line is read back to an executable and a
//! bundle exactly when it is the command line of these two.

use vstd::prelude::*;
use vstd::string::*;
use crate::bundle::{Handle, SynchronizationBundle};
use crate::cmdline::{command_line, decimal, is_safe_executable, safe_executable, ChannelArgs};
use crate::error::ChannelError;

verus! {

/// Whether `c` is a decimal digit.
pub open spec fn is_digit(c: char) -> bool {
    '0' <= c && c <= '9'
}

/// The number that a decimal digit stands for.
pub open spec fn digit_value(c: char) -> nat
    recommends
        is_digit(c),
{
    (c as int - '0' as int) as nat
}

/// Whether `s` is made of decimal digits only.
pub open spec fn all_digits(s: Seq<char>) -> bool {
    forall|i: int| 0 <= i < s.len() ==> is_digit(#[trigger] s[i])
}

/// Whether `s` is a decimal numeral: digits, at least one, and no zero in
/// front of another digit.
pub open spec fn is_numeral(s: Seq<char>) -> bool {
    s.len() >= 1 && all_digits(s) && (s.len() == 1 || s[0] != '0')
}

/// The number that a sequence of decimal digits stands for.
pub open spec fn numeral_value(s: Seq<char>) -> nat
    decreases s.len(),
{
    if s.len() == 0 {
        0
    } else {
        numeral_value(s.drop_last()) * 10 + digit_value(s.last())
    }
}

/// The end of the digits that start at `from`: the first place at or after
/// `from` that holds no digit.
pub open spec fn digits_end(line: Seq<char>, from: int) -> int
    decreases line.len() - from,
{
    if 0 <= from < line.len() && is_digit(line[from]) {
        digits_end(line, from + 1)
    } else {
        from
    }
}

/// The first place at or after `from` that holds a double quote, or the
/// line's length if there is none.
pub open spec fn quote_at(line: Seq<char>, from: int) -> int
    decreases line.len() - from,
{
    if 0 <= from < line.len() && line[from] != '"' {
        quote_at(line, from + 1)
    } else {
        from
    }
}

/// The identity that stands at `at` as one more token: a space, then a
/// numeral no greater than the greatest identity. With the identity comes the
/// place where the token ends.
pub open spec fn token(line: Seq<char>, at: int) -> Option<(u64, int)> {
    let end = digits_end(line, at + 1);
    let numeral = line.subrange(at + 1, end);
    if 0 <= at < line.len() && line[at] == ' ' && is_numeral(numeral) && numeral_value(numeral)
        <= u64::MAX {
        Some((numeral_value(numeral) as u64, end))
    } else {
        None
    }
}

/// What a line stands for as a command line: the path between the first two
/// double quotes, which must be one that can be carried, and four identities
/// after it, with nothing left over.
pub open spec fn parse(line: Seq<char>) -> Option<(Seq<char>, SynchronizationBundle)> {
    let close = quote_at(line, 1);
    if line.len() < 2 || line[0] != '"' || close >= line.len() || !safe_executable(
        line.subrange(1, close),
    ) {
        None
    } else {
        match token(line, close + 1) {
            None => None,
            Some((memory, after_memory)) => match token(line, after_memory) {
                None => None,
                Some((lock, after_lock)) => match token(line, after_lock) {
                    None => None,
                    Some((ready, after_ready)) => match token(line, after_ready) {
                        None => None,
                        Some((ack, end)) => if end == line.len() {
                            Some(
                                (
                                    line.subrange(1, close),
                                    SynchronizationBundle {
                                        memory: Handle { id: memory },
                                        lock: Handle { id: lock },
                                        ready_event: Handle { id: ready },
                                        ack_event: Handle { id: ack },
                                    },
                                ),
                            )
                        } else {
                            None
                        },
                    },
                },
            },
        }
    }
}

/// The decimal numeral of a number is a numeral, and it stands for that
/// number.
pub proof fn lemma_decimal_is_numeral(n: nat)
    ensures
        is_numeral(decimal(n)),
        numeral_value(decimal(n)) == n,
    decreases n,
{
    let s = decimal(n);
    assert(numeral_value(s) == numeral_value(s.drop_last()) * 10 + digit_value(s.last()));
    if n >= 10 {
        let t = decimal(n / 10);
        lemma_decimal_is_numeral(n / 10);
        assert(s.drop_last() =~= t);
        assert forall|i: int| 0 <= i < s.len() implies is_digit(#[trigger] s[i]) by {}
        // A numeral that begins with a zero is the zero alone, and n / 10 is
        // not zero.
        if t[0] == '0' {
            assert(numeral_value(t) == numeral_value(t.drop_last()) * 10 + digit_value(t.last()));
        }
    }
}

/// A numeral is the decimal numeral of the number it stands for.
pub proof fn lemma_numeral_is_decimal(s: Seq<char>)
    requires
        is_numeral(s),
    ensures
        decimal(numeral_value(s)) == s,
    decreases s.len(),
{
    if s.len() == 1 {
        assert(s.drop_last() =~= Seq::<char>::empty());
        assert(numeral_value(Seq::<char>::empty()) == 0);
    } else {
        let t = s.drop_last();
        assert forall|i: int| 0 <= i < t.len() implies is_digit(#[trigger] t[i]) by {}
        lemma_numeral_is_decimal(t);
    }
}

proof fn lemma_digits_end(line: Seq<char>, from: int, end: int)
    requires
        0 <= from <= end <= line.len(),
        all_digits(line.subrange(from, end)),
        end == line.len() || !is_digit(line[end]),
    ensures
        digits_end(line, from) == end,
    decreases end - from,
{
    if from < end {
        assert(line.subrange(from, end)[0] == line[from]);
        assert forall|i: int| 0 <= i < end - (from + 1) implies is_digit(
            #[trigger] line.subrange(from + 1, end)[i],
        ) by {
            assert(line.subrange(from + 1, end)[i] == line.subrange(from, end)[i + 1]);
        }
        lemma_digits_end(line, from + 1, end);
    }
}

proof fn lemma_digits_end_bounds(line: Seq<char>, from: int)
    requires
        0 <= from <= line.len(),
    ensures
        from <= digits_end(line, from) <= line.len(),
        all_digits(line.subrange(from, digits_end(line, from))),
        digits_end(line, from) == line.len() || !is_digit(line[digits_end(line, from)]),
    decreases line.len() - from,
{
    if from < line.len() && is_digit(line[from]) {
        lemma_digits_end_bounds(line, from + 1);
        let end = digits_end(line, from);
        assert forall|i: int| 0 <= i < end - from implies is_digit(
            #[trigger] line.subrange(from, end)[i],
        ) by {
            if i > 0 {
                assert(line.subrange(from, end)[i] == line.subrange(from + 1, end)[i - 1]);
            }
        }
    }
}

proof fn lemma_quote_at(line: Seq<char>, from: int, close: int)
    requires
        0 <= from <= close <= line.len(),
        forall|i: int| from <= i < close ==> line[i] != '"',
        close == line.len() || line[close] == '"',
    ensures
        quote_at(line, from) == close,
    decreases close - from,
{
    if from < close {
        lemma_quote_at(line, from + 1, close);
    }
}

proof fn lemma_token_of_decimal(line: Seq<char>, at: int, id: u64)
    requires
        0 <= at,
        at + 1 + decimal(id as nat).len() <= line.len(),
        line[at] == ' ',
        line.subrange(at + 1, at + 1 + decimal(id as nat).len()) == decimal(id as nat),
        at + 1 + decimal(id as nat).len() == line.len() || line[at + 1 + decimal(
            id as nat,
        ).len()] == ' ',
    ensures
        token(line, at) == Some((id, at + 1 + decimal(id as nat).len())),
{
    lemma_decimal_is_numeral(id as nat);
    lemma_digits_end(line, at + 1, at + 1 + decimal(id as nat).len());
}

proof fn lemma_token_is_decimal(line: Seq<char>, at: int)
    requires
        token(line, at).is_some(),
    ensures
        ({
            let (id, end) = token(line, at).unwrap();
            &&& at + 1 < end <= line.len()
            &&& line[at] == ' '
            &&& line.subrange(at + 1, end) == decimal(id as nat)
        }),
{
    lemma_digits_end_bounds(line, at + 1);
    lemma_numeral_is_decimal(line.subrange(at + 1, digits_end(line, at + 1)));
}

/// Reading undoes encoding: the command line of an executable that can be
/// carried and of a bundle is read back as that executable and that bundle.
/// So no two of them share a command line.
pub proof fn lemma_parse_undoes_command_line(exe: Seq<char>, bundle: SynchronizationBundle)
    requires
        safe_executable(exe),
    ensures
        parse(command_line(exe, bundle)) == Some((exe, bundle)),
{
    let line = command_line(exe, bundle);
    let d1 = decimal(bundle.memory.id as nat);
    let d2 = decimal(bundle.lock.id as nat);
    let d3 = decimal(bundle.ready_event.id as nat);
    let d4 = decimal(bundle.ack_event.id as nat);
    let close: int = exe.len() as int + 1;
    let a1: int = close + 1;
    let a2: int = a1 + 1 + d1.len();
    let a3: int = a2 + 1 + d2.len();
    let a4: int = a3 + 1 + d3.len();
    let end: int = a4 + 1 + d4.len();
    assert forall|i: int| 1 <= i < close implies line[i] != '"' by {}
    lemma_quote_at(line, 1, close);
    assert(line.subrange(a1 + 1, a2) =~= d1);
    assert(line.subrange(a2 + 1, a3) =~= d2);
    assert(line.subrange(a3 + 1, a4) =~= d3);
    assert(line.subrange(a4 + 1, end) =~= d4);
    lemma_token_of_decimal(line, a1, bundle.memory.id);
    lemma_token_of_decimal(line, a2, bundle.lock.id);
    lemma_token_of_decimal(line, a3, bundle.ready_event.id);
    lemma_token_of_decimal(line, a4, bundle.ack_event.id);
}

/// What is read from a line is what the line encodes: a line that stands for
/// an executable and a bundle is the command line of the two, and the
/// executable is one that can be carried.
pub proof fn lemma_parse_is_exact(line: Seq<char>)
    requires
        parse(line).is_some(),
    ensures
        safe_executable(parse(line).unwrap().0),
        line == command_line(parse(line).unwrap().0, parse(line).unwrap().1),
{
    let (exe, bundle) = parse(line).unwrap();
    let close = quote_at(line, 1);
    lemma_quote_at_bounds(line, 1);
    let (_, a2) = token(line, close + 1).unwrap();
    let (_, a3) = token(line, a2).unwrap();
    let (_, a4) = token(line, a3).unwrap();
    lemma_token_is_decimal(line, close + 1);
    lemma_token_is_decimal(line, a2);
    lemma_token_is_decimal(line, a3);
    lemma_token_is_decimal(line, a4);
}

proof fn lemma_quote_at_bounds(line: Seq<char>, from: int)
    requires
        0 <= from <= line.len(),
    ensures
        from <= quote_at(line, from) <= line.len(),
        forall|i: int| from <= i < quote_at(line, from) ==> line[i] != '"',
        quote_at(line, from) == line.len() || line[quote_at(line, from)] == '"',
    decreases line.len() - from,
{
    if from < line.len() && line[from] != '"' {
        lemma_quote_at_bounds(line, from + 1);
    }
}

/// Two command lines are the same only if they are of the same executable
/// and the same bundle.
pub proof fn lemma_command_line_is_injective(
    exe: Seq<char>,
    bundle: SynchronizationBundle,
    other_exe: Seq<char>,
    other_bundle: SynchronizationBundle,
)
    requires
        safe_executable(exe),
        safe_executable(other_exe),
        command_line(exe, bundle) == command_line(other_exe, other_bundle),
    ensures
        exe == other_exe,
        bundle == other_bundle,
{
    lemma_parse_undoes_command_line(exe, bundle);
    lemma_parse_undoes_command_line(other_exe, other_bundle);
}

proof fn lemma_value_of_prefix(s: Seq<char>, k: int)
    requires
        0 <= k <= s.len(),
    ensures
        numeral_value(s.take(k)) <= numeral_value(s),
    decreases s.len() - k,
{
    if k == s.len() {
        assert(s.take(k) =~= s);
    } else {
        lemma_value_of_prefix(s.drop_last(), k);
        assert(s.drop_last().take(k) =~= s.take(k));
    }
}

fn chars_of(line: &str) -> (chars: Vec<char>)
    ensures
        chars@ == line@,
{
    let n: usize = line.unicode_len();
    let mut chars: Vec<char> = Vec::new();
    let mut i: usize = 0;
    while i < n
        invariant
            n == line@.len(),
            i <= n,
            chars@ == line@.subrange(0, i as int),
        decreases n - i,
    {
        chars.push(line.get_char(i));
        i = i + 1;
    }
    chars
}

fn value_of_digit(c: char) -> (d: u64)
    requires
        is_digit(c),
    ensures
        d == digit_value(c),
{
    if c == '0' {
        0
    } else if c == '1' {
        1
    } else if c == '2' {
        2
    } else if c == '3' {
        3
    } else if c == '4' {
        4
    } else if c == '5' {
        5
    } else if c == '6' {
        6
    } else if c == '7' {
        7
    } else if c == '8' {
        8
    } else {
        9
    }
}

fn read_token(chars: &Vec<char>, at: usize) -> (read: Option<(u64, usize)>)
    ensures
        match read {
            Some((id, end)) => token(chars@, at as int) == Some((id, end as int)),
            None => token(chars@, at as int).is_none(),
        },
{
    let n: usize = chars.len();
    if at >= n || chars[at] != ' ' {
        return None;
    }
    let start: usize = at + 1;
    let mut end: usize = start;
    while end < n && chars[end] >= '0' && chars[end] <= '9'
        invariant
            n == chars@.len(),
            start <= end <= n,
            digits_end(chars@, start as int) == digits_end(chars@, end as int),
        decreases n - end,
    {
        end = end + 1;
    }
    proof {
        lemma_digits_end_bounds(chars@, start as int);
    }
    let ghost numeral = chars@.subrange(start as int, end as int);
    if end == start {
        return None;
    }
    if end - start > 1 && chars[start] == '0' {
        return None;
    }
    assert(is_numeral(numeral));
    let mut id: u64 = 0;
    let mut i: usize = start;
    while i < end
        invariant
            start <= i <= end <= n,
            n == chars@.len(),
            start == at + 1,
            digits_end(chars@, start as int) == end,
            numeral == chars@.subrange(start as int, end as int),
            all_digits(numeral),
            id == numeral_value(chars@.subrange(start as int, i as int)),
        decreases end - i,
    {
        let c = chars[i];
        assert(is_digit(c)) by {
            assert(numeral[i - start] == c);
        }
        let d: u64 = value_of_digit(c);
        let ghost longer = chars@.subrange(start as int, i + 1);
        proof {
            assert(longer.drop_last() =~= chars@.subrange(start as int, i as int));
        }
        if id > (u64::MAX - d) / 10 {
            proof {
                lemma_value_of_prefix(numeral, i + 1 - start);
                assert(numeral.take(i + 1 - start) =~= longer);
            }
            return None;
        }
        id = id * 10 + d;
        i = i + 1;
    }
    Some((id, end))
}

impl ChannelArgs {
    /// Reads a command line back: the executable and the bundle that the line
    /// stands for. A line that stands for none is refused with
    /// [`ChannelError::MalformedCommandLine`].
    pub fn from_cmd_line(line: &str) -> (read: Result<ChannelArgs, ChannelError>)
        ensures
            match read {
                Ok(args) => parse(line@) == Some((args.exe@, args.bundle)),
                Err(refusal) => parse(line@).is_none() && refusal
                    == ChannelError::MalformedCommandLine,
            },
    {
        let chars = chars_of(line);
        let n: usize = chars.len();
        if n < 2 || chars[0] != '"' {
            return Err(ChannelError::MalformedCommandLine);
        }
        let mut close: usize = 1;
        while close < n && chars[close] != '"'
            invariant
                n == chars@.len(),
                1 <= close <= n,
                quote_at(chars@, 1) == quote_at(chars@, close as int),
            decreases n - close,
        {
            close = close + 1;
        }
        if close >= n {
            return Err(ChannelError::MalformedCommandLine);
        }
        let exe = line.substring_char(1, close);
        if !is_safe_executable(exe) {
            return Err(ChannelError::MalformedCommandLine);
        }
        let (memory, after_memory) = match read_token(&chars, close + 1) {
            Some(found) => found,
            None => {
                return Err(ChannelError::MalformedCommandLine);
            },
        };
        let (lock, after_lock) = match read_token(&chars, after_memory) {
            Some(found) => found,
            None => {
                return Err(ChannelError::MalformedCommandLine);
            },
        };
        let (ready, after_ready) = match read_token(&chars, after_lock) {
            Some(found) => found,
            None => {
                return Err(ChannelError::MalformedCommandLine);
            },
        };
        let (ack, end) = match read_token(&chars, after_ready) {
            Some(found) => found,
            None => {
                return Err(ChannelError::MalformedCommandLine);
            },
        };
        if end != n {
            return Err(ChannelError::MalformedCommandLine);
        }
        Ok(
            ChannelArgs {
                exe: String::from_str(exe),
                bundle: SynchronizationBundle {
                    memory: Handle { id: memory },
                    lock: Handle { id: lock },
                    ready_event: Handle { id: ready },
                    ack_event: Handle { id: ack },
                },
            },
        )
    }
}

} // verus!
