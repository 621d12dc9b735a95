//! Windows command lines: how arguments are quoted so that the program at the
//! other end splits the line into exactly these arguments again.

use crate::error;
use crate::error::{ErrorKind, PlatformError};
use vstd::prelude::*;

verus! {

/// The quotation mark, as a UTF-16 code unit.
pub const QUOTE: u16 = 0x22;

/// The backslash, as a UTF-16 code unit.
pub const BACKSLASH: u16 = 0x5c;

/// The space, as a UTF-16 code unit.
pub const SPACE: u16 = 0x20;

/// `count` backslashes.
pub open spec fn backslashes(count: nat) -> Seq<u16> {
    Seq::new(count, |i: int| BACKSLASH)
}

/// The number of backslashes that `units` begin with.
pub open spec fn leading(units: Seq<u16>) -> nat
    decreases units.len(),
{
    if units.len() > 0 && units[0] == BACKSLASH {
        1 + leading(units.drop_first())
    } else {
        0
    }
}

/// What stands between the quotation marks of an argument: backslashes are
/// doubled before a quotation mark and at the end, and a quotation mark gets a
/// backslash before it.
pub open spec fn quoted_body(argument: Seq<u16>) -> Seq<u16>
    decreases argument.len(),
{
    let n = leading(argument);
    if n >= argument.len() {
        backslashes(2 * n)
    } else {
        let unit = argument[n as int];
        let rest = quoted_body(argument.skip(n as int + 1));
        if unit == QUOTE {
            backslashes(2 * n + 1) + seq![QUOTE] + rest
        } else {
            backslashes(n) + seq![unit] + rest
        }
    }
}

/// A quoted argument.
pub open spec fn quoted(argument: Seq<u16>) -> Seq<u16> {
    seq![QUOTE] + quoted_body(argument) + seq![QUOTE]
}

/// How the rest of a quoted argument is read, behind its first quotation mark:
/// the argument, and what follows its last quotation mark. An even number of
/// backslashes before a quotation mark stands for half as many and the mark ends
/// the argument; an odd number stands for half as many and a quotation mark;
/// other backslashes stand for themselves.
pub open spec fn unquoted_body(line: Seq<u16>) -> Option<(Seq<u16>, Seq<u16>)>
    decreases line.len(),
{
    let n = leading(line);
    if n >= line.len() {
        None
    } else if line[n as int] == QUOTE && n % 2 == 0 {
        Some((backslashes(n / 2), line.skip(n as int + 1)))
    } else {
        match unquoted_body(line.skip(n as int + 1)) {
            None => None,
            Some((argument, rest)) => if line[n as int] == QUOTE {
                Some((backslashes(n / 2) + seq![QUOTE] + argument, rest))
            } else {
                Some((backslashes(n) + seq![line[n as int]] + argument, rest))
            },
        }
    }
}

/// The arguments of a line of quoted arguments with a space between each two.
pub open spec fn split_line(line: Seq<u16>) -> Option<Seq<Seq<u16>>>
    decreases line.len(),
    via split_line_terminates
{
    if line.len() == 0 || line[0] != QUOTE {
        None
    } else {
        match unquoted_body(line.drop_first()) {
            None => None,
            Some((argument, rest)) => if rest.len() == 0 {
                Some(seq![argument])
            } else if rest[0] != SPACE {
                None
            } else {
                match split_line(rest.drop_first()) {
                    None => None,
                    Some(arguments) => Some(seq![argument] + arguments),
                }
            },
        }
    }
}

#[via_fn]
proof fn split_line_terminates(line: Seq<u16>) {
    if line.len() > 0 && line[0] == QUOTE {
        lemma_rest_is_shorter(line.drop_first());
    }
}

proof fn lemma_rest_is_shorter(line: Seq<u16>)
    ensures
        unquoted_body(line) matches Some((argument, rest)) ==> rest.len() <= line.len(),
    decreases line.len(),
{
    let n = leading(line);
    if n < line.len() && !(line[n as int] == QUOTE && n % 2 == 0) {
        lemma_rest_is_shorter(line.skip(n as int + 1));
    }
}

/// The line of several arguments: each quoted, with a space between each two.
pub open spec fn joined_line(arguments: Seq<Seq<u16>>) -> Seq<u16>
    decreases arguments.len(),
{
    if arguments.len() == 0 {
        seq![]
    } else if arguments.len() == 1 {
        quoted(arguments[0])
    } else {
        quoted(arguments[0]) + seq![SPACE] + joined_line(arguments.drop_first())
    }
}

proof fn lemma_leading(units: Seq<u16>)
    ensures
        leading(units) <= units.len(),
        units.take(leading(units) as int) == backslashes(leading(units)),
        leading(units) < units.len() ==> units[leading(units) as int] != BACKSLASH,
    decreases units.len(),
{
    if units.len() > 0 && units[0] == BACKSLASH {
        let rest = units.drop_first();
        lemma_leading(rest);
        let n = leading(rest);
        assert(units.take(n as int + 1) =~= backslashes(n + 1)) by {
            assert forall|i: int| 0 <= i < n + 1 implies units[i] == BACKSLASH by {
                if i > 0 {
                    assert(rest.take(n as int)[i - 1] == backslashes(n)[i - 1]);
                }
            }
        }
    }
}

proof fn lemma_leading_of(count: nat, rest: Seq<u16>)
    requires
        rest.len() > 0 ==> rest[0] != BACKSLASH,
    ensures
        leading(backslashes(count) + rest) == count,
    decreases count,
{
    let units = backslashes(count) + rest;
    if count > 0 {
        assert(units.drop_first() =~= backslashes((count - 1) as nat) + rest);
        lemma_leading_of((count - 1) as nat, rest);
    } else {
        assert(units =~= rest);
    }
}

proof fn lemma_unquote(argument: Seq<u16>, rest: Seq<u16>)
    ensures
        unquoted_body(quoted_body(argument) + seq![QUOTE] + rest) == Some((argument, rest)),
    decreases argument.len(),
{
    lemma_leading(argument);
    let n = leading(argument);
    let line = quoted_body(argument) + seq![QUOTE] + rest;
    if n >= argument.len() {
        assert(argument =~= backslashes(n));
        let tail = seq![QUOTE] + rest;
        assert(line =~= backslashes(2 * n) + tail);
        lemma_leading_of(2 * n, tail);
        assert(line.skip(2 * n as int + 1) =~= rest);
    } else {
        let unit = argument[n as int];
        let after = argument.skip(n as int + 1);
        lemma_unquote(after, rest);
        let remainder = quoted_body(after) + seq![QUOTE] + rest;
        assert(argument =~= backslashes(n) + seq![unit] + after) by {
            assert(argument =~= argument.take(n as int) + seq![unit] + after);
        }
        if unit == QUOTE {
            let m = 2 * n + 1;
            let tail = seq![QUOTE] + remainder;
            assert(line =~= backslashes(m) + tail);
            lemma_leading_of(m, tail);
            assert(line.skip(m as int + 1) =~= remainder);
            assert(m / 2 == n && m % 2 == 1);
        } else {
            let tail = seq![unit] + remainder;
            assert(line =~= backslashes(n) + tail);
            lemma_leading_of(n, tail);
            assert(line.skip(n as int + 1) =~= remainder);
        }
    }
}

/// A quoted argument is read as the argument, and nothing of what follows it is
/// taken for part of it.
pub proof fn quoted_arguments_are_read_back(argument: Seq<u16>, rest: Seq<u16>)
    ensures
        unquoted_body((quoted(argument) + rest).drop_first()) == Some((argument, rest)),
{
    assert((quoted(argument) + rest).drop_first() =~= quoted_body(argument) + seq![QUOTE] + rest);
    lemma_unquote(argument, rest);
}

/// A line of arguments is split into exactly these arguments.
pub proof fn joined_lines_are_split_back(arguments: Seq<Seq<u16>>)
    requires
        arguments.len() > 0,
    ensures
        split_line(joined_line(arguments)) == Some(arguments),
    decreases arguments.len(),
{
    let first = arguments[0];
    let line = joined_line(arguments);
    if arguments.len() == 1 {
        let nothing = Seq::<u16>::empty();
        quoted_arguments_are_read_back(first, nothing);
        assert(quoted(first) + nothing =~= line);
        assert(seq![first] =~= arguments);
    } else {
        let others = arguments.drop_first();
        let rest = seq![SPACE] + joined_line(others);
        quoted_arguments_are_read_back(first, rest);
        assert(quoted(first) + rest =~= line);
        assert(rest.drop_first() =~= joined_line(others));
        joined_lines_are_split_back(others);
        assert(seq![first] + others =~= arguments);
    }
}

fn push_backslashes(line: &mut Vec<u16>, count: usize)
    ensures
        final(line)@ == old(line)@ + backslashes(count as nat),
{
    assert(line@ =~= old(line)@ + backslashes(0));
    for i in 0..count
        invariant
            line@ == old(line)@ + backslashes(i as nat),
    {
        line.push(BACKSLASH);
        assert(line@ =~= old(line)@ + backslashes((i + 1) as nat));
    }
}

/// The refusal of an argument that holds a NUL.
pub open spec fn nul_refusal() -> PlatformError {
    error::bad_input("Windows authorization argument contains a NUL code unit")
}

/// Quotes an argument.
pub fn windows_quote_command_argument(argument: &[u16]) -> (result: Result<
    Vec<u16>,
    PlatformError,
>)
    ensures
        match result {
            Ok(text) => !argument@.contains(0) && text@ == quoted(argument@),
            Err(refusal) => argument@.contains(0) && refusal == nul_refusal(),
        },
{
    for i in 0..argument.len()
        invariant
            forall|k: int| 0 <= k < i ==> argument@[k] != 0,
    {
        if argument[i] == 0 {
            assert(argument@[i as int] == 0);
            return Err(
                PlatformError::Policy {
                    kind: ErrorKind::InvalidInput,
                    message: "Windows authorization argument contains a NUL code unit",
                },
            );
        }
    }
    let mut line: Vec<u16> = Vec::new();
    line.push(QUOTE);
    let mut pending: usize = 0;
    let ghost whole = seq![QUOTE] + quoted_body(argument@);
    assert(argument@.skip(0) =~= argument@);
    for i in 0..argument.len()
        invariant
            pending <= i,
            whole == seq![QUOTE] + quoted_body(argument@),
            forall|k: int| i - pending <= k < i ==> argument@[k] == BACKSLASH,
            whole == line@ + quoted_body(argument@.skip(i - pending)),
    {
        let unit: u16 = argument[i];
        if unit == BACKSLASH {
            pending = pending + 1;
        } else {
            let ghost start = i - pending;
            let ghost tail = argument@.skip(start);
            let ghost after = argument@.skip(i + 1);
            proof {
                assert(tail =~= backslashes(pending as nat) + (seq![unit] + after));
                lemma_leading_of(pending as nat, seq![unit] + after);
                assert(tail.skip(pending as int + 1) =~= after);
            }
            let ghost before = line@;
            push_backslashes(&mut line, pending);
            if unit == QUOTE {
                push_backslashes(&mut line, pending);
                line.push(BACKSLASH);
                assert(line@ =~= before + backslashes((2 * pending + 1) as nat));
            }
            line.push(unit);
            assert(whole =~= line@ + quoted_body(after));
            pending = 0;
        }
    }
    proof {
        let tail = argument@.skip(argument@.len() - pending);
        let nothing = Seq::<u16>::empty();
        assert(tail =~= backslashes(pending as nat) + nothing);
        lemma_leading_of(pending as nat, nothing);
    }
    let ghost before = line@;
    push_backslashes(&mut line, pending);
    push_backslashes(&mut line, pending);
    assert(line@ =~= before + backslashes((2 * pending) as nat));
    line.push(QUOTE);
    assert(line@ =~= quoted(argument@));
    Ok(line)
}

/// What arguments are.
pub open spec fn argument_views(arguments: Seq<Vec<u16>>) -> Seq<Seq<u16>> {
    arguments.map_values(|argument: Vec<u16>| argument@)
}

/// The arguments at and behind `i`, as they follow on a line.
spec fn remaining(arguments: Seq<Seq<u16>>, i: int) -> Seq<u16> {
    if i >= arguments.len() {
        seq![]
    } else if i == 0 {
        joined_line(arguments)
    } else {
        seq![SPACE] + joined_line(arguments.skip(i))
    }
}

/// The line that hands arguments to a program, ended by a NUL.
pub fn authorization_parameters(arguments: &[Vec<u16>]) -> (result: Result<Vec<u16>, PlatformError>)
    ensures
        match result {
            Ok(line) => {
                &&& forall|i: int|
                    #![trigger arguments@[i]]
                    0 <= i < arguments@.len() ==> !arguments@[i]@.contains(0)
                &&& line@ == joined_line(argument_views(arguments@)).push(0)
            },
            Err(refusal) => {
                &&& exists|i: int|
                    #![trigger arguments@[i]]
                    0 <= i < arguments@.len() && arguments@[i]@.contains(0)
                &&& refusal == nul_refusal()
            },
        },
{
    let ghost all = argument_views(arguments@);
    let mut line: Vec<u16> = Vec::new();
    assert(joined_line(all) =~= line@ + remaining(all, 0));
    for i in 0..arguments.len()
        invariant
            all == argument_views(arguments@),
            joined_line(all) == line@ + remaining(all, i as int),
            i > 0 <==> line@.len() > 0,
            forall|k: int|
                #![trigger arguments@[k]]
                0 <= k < i ==> !arguments@[k]@.contains(0),
    {
        let ghost before = line@;
        if line.len() != 0 {
            line.push(SPACE);
        }
        let mut text = match windows_quote_command_argument(&arguments[i]) {
            Ok(text) => text,
            Err(refusal) => {
                return Err(refusal);
            },
        };
        line.append(&mut text);
        proof {
            let here = all.skip(i as int);
            assert(here[0] == arguments@[i as int]@);
            assert(here.drop_first() =~= all.skip(i + 1));
            assert(all.skip(0) =~= all);
            assert(joined_line(all) =~= line@ + remaining(all, i + 1));
        }
    }
    assert(remaining(all, arguments@.len() as int) =~= seq![]);
    assert(joined_line(all) =~= line@);
    line.push(0);
    Ok(line)
}

/// How a line is read behind the first quotation mark of an argument: a mark behind an
/// even number of backslashes ends the argument, one behind an odd number stands for
/// itself, each time with half as many backslashes before it; backslashes before
/// anything else stand for themselves.
pub proof fn marks_end_behind_even_backslashes(
    count: nat,
    unit: u16,
    line: Seq<u16>,
    argument: Seq<u16>,
    rest: Seq<u16>,
)
    requires
        unquoted_body(line) == Some((argument, rest)),
        unit != 0x22 && unit != 0x5c,
    ensures
        ({
            let many = |n: nat| Seq::new(n, |i: int| 0x5cu16);
            &&& unquoted_body(many(2 * count) + seq![0x22u16] + line) == Some((many(count), line))
            &&& unquoted_body(many(2 * count + 1) + seq![0x22u16] + line) == Some(
                (many(count) + seq![0x22u16] + argument, rest),
            )
            &&& unquoted_body(many(count) + seq![unit] + line) == Some(
                (many(count) + seq![unit] + argument, rest),
            )
        }),
{
    let many = |n: nat| Seq::new(n, |i: int| 0x5cu16);
    assert forall|n: nat| #[trigger] many(n) == backslashes(n) by {
        assert(many(n) =~= backslashes(n));
    }
    let mark = seq![0x22u16];
    let even = backslashes(2 * count) + mark + line;
    assert(even =~= backslashes(2 * count) + (mark + line));
    lemma_leading_of(2 * count, mark + line);
    assert(even[2 * count as int] == 0x22);
    assert(even.skip(2 * count as int + 1) =~= line);
    let odd = backslashes(2 * count + 1) + mark + line;
    assert(odd =~= backslashes(2 * count + 1) + (mark + line));
    lemma_leading_of(2 * count + 1, mark + line);
    assert(odd[2 * count as int + 1] == 0x22);
    assert(odd.skip(2 * count as int + 2) =~= line);
    let other = backslashes(count) + seq![unit] + line;
    assert(other =~= backslashes(count) + (seq![unit] + line));
    lemma_leading_of(count, seq![unit] + line);
    assert(other[count as int] == unit);
    assert(other.skip(count as int + 1) =~= line);
}

/// A line is one argument in quotation marks, or one, a space and the line of the
/// others.
pub proof fn lines_are_arguments_with_spaces(
    argument: Seq<u16>,
    line: Seq<u16>,
    others: Seq<Seq<u16>>,
    body: Seq<u16>,
)
    requires
        split_line(line) == Some(others),
        unquoted_body(body + seq![0x20u16] + line) == Some((argument, seq![0x20u16] + line)),
    ensures
        split_line(seq![0x22u16] + body + seq![0x20u16] + line) == Some(seq![argument] + others),
{
    let whole = seq![0x22u16] + body + seq![0x20u16] + line;
    assert(whole.drop_first() =~= body + seq![0x20u16] + line);
    let rest = seq![0x20u16] + line;
    assert(rest.drop_first() =~= line);
}

/// Arguments are handed over exactly where none holds a zero, on a line that ends with
/// one and that splits into exactly these arguments; one argument by itself is read back
/// from its quotation.
pub proof fn arguments_are_handed_over_as_they_are(
    arguments: &[Vec<u16>],
    result: Result<Vec<u16>, PlatformError>,
    argument: &[u16],
    alone: Result<Vec<u16>, PlatformError>,
)
    requires
        call_ensures(authorization_parameters, (arguments,), result),
        call_ensures(windows_quote_command_argument, (argument,), alone),
    ensures
        result matches Ok(line) ==> {
            &&& line@.len() > 0 && line@.last() == 0
            &&& arguments@.len() > 0 ==> split_line(line@.drop_last()) == Some(
                argument_views(arguments@),
            )
            &&& arguments@.len() == 0 ==> line@.len() == 1
        },
        alone is Ok <==> !argument@.contains(0u16),
        alone matches Ok(line) ==> line@.len() >= 2 && line@[0] == 0x22 && line@.last() == 0x22
            && unquoted_body(line@.drop_first()) == Some((argument@, Seq::<u16>::empty())),
{
    if let Ok(line) = result {
        let views = argument_views(arguments@);
        assert(line@.drop_last() =~= joined_line(views));
        if arguments@.len() > 0 {
            joined_lines_are_split_back(views);
        }
    }
    if let Ok(line) = alone {
        quoted_arguments_are_read_back(argument@, Seq::empty());
        assert(quoted(argument@) + Seq::<u16>::empty() =~= line@);
    }
}

} // verus!
