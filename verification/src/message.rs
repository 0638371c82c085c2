//! The command decoder: one line of text in, one [`Message`] out.
//!
//! A line is split at ASCII white space. The first word names the command,
//! the words after it are its parameters, each a decimal number. Decoding is
//! total: a line that is empty, names no known command, lacks a parameter or
//! holds a parameter that is no number decodes to [`Message::NotACommand`].

use crate::angle::{token_units, Angle, UNITS_PER_DEGREE};
use core::convert::Infallible;
use vstd::prelude::*;
use vstd::slice::slice_subrange;
use vstd::string::StringSliceAdditionalSpecFns;

verus! {

/// ASCII code of `p`, the command that asks for the position.
pub const GET_POSITION: u8 = 112;

/// ASCII code of `P`, the command that sets the position.
pub const SET_POSITION: u8 = 80;

/// ASCII code of `s`, the command that runs the step test.
pub const STEP_TEST: u8 = 115;

/// ASCII code of `q`, the command that closes the session.
pub const QUIT: u8 = 113;

/// A command from the tracking software.
#[derive(Clone, Copy, Debug, PartialEq, Eq, Structural)]
pub enum Message {
    /// Go to this azimuth and this elevation.
    PSet(Angle, Angle),
    /// Report the position.
    PGet,
    /// Drive the elevation motor this many raw steps.
    StepTest(i32),
    /// End the session.
    Close,
    /// The line held no command.
    NotACommand,
}

/// Whether `b` is ASCII white space: a blank, or one of tab, line feed,
/// vertical tab, form feed and carriage return.
pub open spec fn is_space(b: u8) -> bool {
    b == 32 || (9 <= b && b <= 13)
}

/// Length of the longest prefix of `s` that holds no white space.
pub open spec fn word_run(s: Seq<u8>) -> nat
    decreases s.len(),
{
    if s.len() == 0 || is_space(s[0]) {
        0
    } else {
        1 + word_run(s.skip(1))
    }
}

/// The words of `s`: its maximal runs of bytes that are not white space, in
/// order.
pub open spec fn tokens(s: Seq<u8>) -> Seq<Seq<u8>>
    decreases s.len(),
    via tokens_terminates
{
    if s.len() == 0 {
        Seq::empty()
    } else if is_space(s[0]) {
        tokens(s.skip(1))
    } else {
        let n = word_run(s) as int;
        seq![s.take(n)] + tokens(s.skip(n))
    }
}

#[via_fn]
proof fn tokens_terminates(s: Seq<u8>) {
    if s.len() > 0 && !is_space(s[0]) {
        lemma_word_run_bounds(s);
    }
}

/// Whether every word of `params` is a decimal number.
pub open spec fn all_numbers(params: Seq<Seq<u8>>) -> bool {
    forall|i: int| 0 <= i < params.len() ==> token_units(#[trigger] params[i]) is Some
}

/// The whole number of a parameter of `units` millionths: the decimal places
/// are cut off, and what does not fit in an `i32` becomes the nearest `i32`.
pub open spec fn whole_steps(units: int) -> int {
    let whole = if units >= 0 {
        units / (UNITS_PER_DEGREE as int)
    } else {
        -((-units) / (UNITS_PER_DEGREE as int))
    };
    if whole > i32::MAX {
        i32::MAX as int
    } else if whole < i32::MIN {
        i32::MIN as int
    } else {
        whole
    }
}

/// The angle that a numeric word stands for.
pub open spec fn word_angle(word: Seq<u8>) -> Angle {
    Angle { microdegrees: token_units(word).unwrap() as i64 }
}

/// The command that a line stands for.
pub open spec fn decoded(line: Seq<u8>) -> Message {
    let words = tokens(line);
    if words.len() == 0 {
        Message::NotACommand
    } else {
        let command = words[0];
        let params = words.skip(1);
        if !all_numbers(params) {
            Message::NotACommand
        } else if command == seq![GET_POSITION] {
            Message::PGet
        } else if command == seq![STEP_TEST] {
            if params.len() >= 1 {
                Message::StepTest(whole_steps(token_units(params[0]).unwrap()) as i32)
            } else {
                Message::NotACommand
            }
        } else if command == seq![SET_POSITION] {
            if params.len() >= 2 {
                Message::PSet(word_angle(params[0]), word_angle(params[1]))
            } else {
                Message::NotACommand
            }
        } else if command == seq![QUIT] {
            Message::Close
        } else {
            Message::NotACommand
        }
    }
}

/// A word run is never longer than the text, and is not empty where the text
/// starts with a byte that is no white space.
pub proof fn lemma_word_run_bounds(s: Seq<u8>)
    ensures
        word_run(s) <= s.len(),
        s.len() > 0 && !is_space(s[0]) ==> word_run(s) >= 1,
    decreases s.len(),
{
    if s.len() > 0 && !is_space(s[0]) {
        lemma_word_run_bounds(s.skip(1));
    }
}

/// A prefix without white space that ends at the end of `s` or at white
/// space is the word run of `s`.
pub proof fn lemma_word_run(s: Seq<u8>, n: int)
    requires
        0 <= n <= s.len(),
        forall|k: int| 0 <= k < n ==> !is_space(#[trigger] s[k]),
        n == s.len() || is_space(s[n]),
    ensures
        word_run(s) == n,
    decreases n,
{
    if n > 0 {
        let rest = s.skip(1);
        assert forall|k: int| 0 <= k < n - 1 implies !is_space(#[trigger] rest[k]) by {
            assert(rest[k] == s[k + 1]);
        }
        lemma_word_run(rest, n - 1);
    }
}

/// White space before a word adds no word.
pub proof fn lemma_tokens_after_space(s: Seq<u8>, i: int)
    requires
        0 <= i < s.len(),
        is_space(s[i]),
    ensures
        tokens(s.skip(i)) == tokens(s.skip(i + 1)),
{
    assert(s.skip(i).skip(1) =~= s.skip(i + 1));
}

/// A maximal run without white space from `a` to `b` is the next word.
pub proof fn lemma_tokens_word(s: Seq<u8>, a: int, b: int)
    requires
        0 <= a < b <= s.len(),
        forall|k: int| a <= k < b ==> !is_space(#[trigger] s[k]),
        b == s.len() || is_space(s[b]),
    ensures
        tokens(s.skip(a)) == seq![s.subrange(a, b)] + tokens(s.skip(b)),
{
    let rest = s.skip(a);
    assert forall|k: int| 0 <= k < b - a implies !is_space(#[trigger] rest[k]) by {
        assert(rest[k] == s[a + k]);
    }
    lemma_word_run(rest, b - a);
    assert(rest.take(b - a) =~= s.subrange(a, b));
    assert(rest.skip(b - a) =~= s.skip(b));
}

fn is_space_byte(b: u8) -> (r: bool)
    ensures
        r == is_space(b),
{
    b == 32 || (b >= 9 && b <= 13)
}

/// Finds the next word of `line` at or after `from`.
fn next_word(line: &[u8], from: usize) -> (r: Option<(usize, usize)>)
    requires
        from <= line@.len(),
    ensures
        match r {
            Some((start, end)) => from <= start < end <= line@.len() && tokens(
                line@.skip(from as int),
            ) == seq![line@.subrange(start as int, end as int)] + tokens(line@.skip(end as int)),
            None => tokens(line@.skip(from as int)) == Seq::<Seq<u8>>::empty(),
        },
{
    let n = line.len();
    let mut start: usize = from;
    while start < n && is_space_byte(line[start])
        invariant
            from <= start <= n,
            n == line@.len(),
            tokens(line@.skip(from as int)) == tokens(line@.skip(start as int)),
        decreases n - start,
    {
        proof {
            lemma_tokens_after_space(line@, start as int);
        }
        start = start + 1;
    }
    if start == n {
        assert(line@.skip(start as int).len() == 0);
        return None;
    }
    let mut end: usize = start + 1;
    while end < n && !is_space_byte(line[end])
        invariant
            start < end <= n,
            n == line@.len(),
            forall|k: int| start <= k < end ==> !is_space(#[trigger] line@[k]),
        decreases n - end,
    {
        end = end + 1;
    }
    proof {
        lemma_tokens_word(line@, start as int, end as int);
    }
    Some((start, end))
}

/// Cuts the decimal places off a parameter and fits the rest into an `i32`.
fn to_whole_steps(value: Angle) -> (steps: i32)
    ensures
        steps == whole_steps(value.microdegrees as int),
{
    let wide: i128 = value.microdegrees as i128;
    let whole: i128 = if wide >= 0 {
        wide / 1_000_000
    } else {
        -((-wide) / 1_000_000)
    };
    if whole > 2_147_483_647 {
        2_147_483_647
    } else if whole < -2_147_483_648 {
        -2_147_483_648
    } else {
        whole as i32
    }
}

fn is_command(word: &[u8], letter: u8) -> (r: bool)
    ensures
        r == (word@ == seq![letter]),
{
    if word.len() == 1 && word[0] == letter {
        assert(word@ =~= seq![letter]);
        true
    } else {
        assert(word@ != seq![letter]) by {
            if word@ == seq![letter] {
                assert(seq![letter].len() == 1);
                assert(seq![letter][0] == letter);
            }
        }
        false
    }
}

impl Message {
    /// Decodes one line of bytes.
    pub fn decode(line: &[u8]) -> (message: Message)
        ensures
            message == decoded(line@),
    {
        let n = line.len();
        let ghost words = tokens(line@);
        assert(line@.skip(0) =~= line@);
        let (start, end) = match next_word(line, 0) {
            Some(span) => span,
            None => {
                return Message::NotACommand;
            },
        };
        let command = slice_subrange(line, start, end);
        let mut first = Angle { microdegrees: 0 };
        let mut second = Angle { microdegrees: 0 };
        let mut count: usize = 0;
        let mut position: usize = end;
        let ghost mut seen: Seq<Seq<u8>> = Seq::empty();
        loop
            invariant
                position <= n,
                n == line@.len(),
                words == tokens(line@),
                words == seq![command@] + seen + tokens(line@.skip(position as int)),
                count <= position,
                count == seen.len(),
                all_numbers(seen),
                count >= 1 ==> first == word_angle(seen[0]),
                count >= 2 ==> second == word_angle(seen[1]),
            ensures
                words == seq![command@] + seen,
                count == seen.len(),
                all_numbers(seen),
                count >= 1 ==> first == word_angle(seen[0]),
                count >= 2 ==> second == word_angle(seen[1]),
            decreases n - position,
        {
            let (from, to) = match next_word(line, position) {
                Some(span) => span,
                None => {
                    assert(words =~= seq![command@] + seen);
                    break ;
                },
            };
            let word = slice_subrange(line, from, to);
            let ghost longer = seen.push(word@);
            assert(words =~= seq![command@] + longer + tokens(line@.skip(to as int)));
            match Angle::parse(word) {
                Some(value) => {
                    if count == 0 {
                        first = value;
                    } else if count == 1 {
                        second = value;
                    }
                },
                None => {
                    assert(words.skip(1)[count as int] == word@);
                    return Message::NotACommand;
                },
            }
            proof {
                seen = longer;
            }
            count = count + 1;
            position = to;
        }
        assert(words.skip(1) =~= seen);
        assert(words[0] == command@);
        if is_command(command, GET_POSITION) {
            Message::PGet
        } else if is_command(command, STEP_TEST) {
            if count >= 1 {
                Message::StepTest(to_whole_steps(first))
            } else {
                Message::NotACommand
            }
        } else if is_command(command, SET_POSITION) {
            if count >= 2 {
                Message::PSet(first, second)
            } else {
                Message::NotACommand
            }
        } else if is_command(command, QUIT) {
            Message::Close
        } else {
            Message::NotACommand
        }
    }

    /// Decodes one line of text. Every line decodes: the result is never an
    /// error.
    pub fn from_str(response: &str) -> (result: Result<Message, Infallible>)
        ensures
            result is Ok,
            result->Ok_0 == decoded(response.spec_bytes()),
    {
        Ok(Message::decode(response.as_bytes()))
    }
}

} // verus!
