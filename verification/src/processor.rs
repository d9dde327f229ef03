//! The scanner.
//!
//! A single-pass, finite-state scanner over the whole source text.  Each
//! step classifies the pending character (or end of input) into a small
//! transition index — index `0` is reserved for end of input and index `1`
//! for any character not otherwise classified, in every state — and the
//! index selects the next state and an action.  Characters above `U+007F`
//! are never classified individually: they always take the default path
//! and ride along as opaque payload.
//!
//! The accumulated token runs from the last flush point to the scan
//! position; a recognized end of line flushes the whole physical line into
//! the emitter in one piece and steps the emitter's line counter, so
//! diagnostic line numbers in later macro text match the true source
//! position.  Reaching end of input flushes whatever is still pending, so
//! a final line without a trailing newline is never lost.
//!
//! The input is decoded once, up front; the scan itself is a single pass
//! with a constant-cost step, and nothing is re-scanned.

use vstd::prelude::*;
use vstd::std_specs::iter::IteratorSpec;
use crate::output::Output;
use crate::output::push_char;

verus! {

/// A scanning state.  `Initial` handles top-level line content, `Other` is
/// the permissive sink for unclassified characters, and `AtEof` is the
/// terminal state reached at end of input.
#[derive(Clone, Copy, PartialEq, Eq, Structural, Debug)]
pub enum State {
    Initial,
    Other,
    AtEof,
}

/// What a transition does: keep scanning, flush the accumulated line, or
/// stop the scan.
#[derive(Clone, Copy, PartialEq, Eq, Structural, Debug)]
pub enum Action {
    Go,
    EndLine,
    Return,
}

/// The transition index a state's table assigns to the character `c`.
/// Index `1` is the default for anything not individually classified, and
/// a code point above `U+007F` resolves to it in every state, without ever
/// reaching the table.
pub open spec fn class_of(s: State, c: char) -> nat {
    if (c as nat) > 127 {
        1
    } else {
        match s {
            State::Initial => if c == '\t' || c == '\r' {
                2
            } else if c == '\n' {
                3
            } else if c == ';' {
                4
            } else {
                1
            },
            State::Other => if c == '\n' {
                2
            } else if c == ';' {
                3
            } else {
                1
            },
            State::AtEof => 0,
        }
    }
}

/// The transition a state's table holds at a given index.  Index `0` is
/// reserved for end of input in every state.
pub open spec fn transition_of(s: State, class: nat) -> (State, Action) {
    match s {
        State::Initial => if class == 0 {
            (State::AtEof, Action::Return)
        } else if class == 2 {
            (State::Initial, Action::Go)
        } else if class == 3 {
            (State::Initial, Action::EndLine)
        } else if class == 4 {
            (State::Initial, Action::Go)
        } else {
            (State::Other, Action::Go)
        },
        State::Other => if class == 0 {
            (State::AtEof, Action::Return)
        } else if class == 2 {
            (State::Initial, Action::EndLine)
        } else if class == 3 {
            (State::Initial, Action::Go)
        } else {
            (State::Other, Action::Go)
        },
        State::AtEof => (State::AtEof, Action::Return),
    }
}

/// The full two-level lookup: classify the pending character (or end of
/// input), then select the transition.
pub open spec fn transition(s: State, c: Option<char>) -> (State, Action) {
    match c {
        Option::None => transition_of(s, 0),
        Option::Some(ch) => transition_of(s, class_of(s, ch)),
    }
}

/// Resolves one scan step: state and pending character to next state and
/// action.
pub fn lookup(state: State, ch: Option<char>) -> (t: (State, Action))
    ensures
        t == transition(state, ch),
{
    match ch {
        Option::None => (State::AtEof, Action::Return),
        Option::Some(c) => {
            if (c as u32) > 127 {
                match state {
                    State::Initial => (State::Other, Action::Go),
                    State::Other => (State::Other, Action::Go),
                    State::AtEof => (State::AtEof, Action::Return),
                }
            } else {
                match state {
                    State::Initial => if c == '\t' || c == '\r' {
                        (State::Initial, Action::Go)
                    } else if c == '\n' {
                        (State::Initial, Action::EndLine)
                    } else if c == ';' {
                        (State::Initial, Action::Go)
                    } else {
                        (State::Other, Action::Go)
                    },
                    State::Other => if c == '\n' {
                        (State::Initial, Action::EndLine)
                    } else if c == ';' {
                        (State::Initial, Action::Go)
                    } else {
                        (State::Other, Action::Go)
                    },
                    State::AtEof => (State::AtEof, Action::Return),
                }
            }
        },
    }
}

/// The text the scan emits from the configuration `(pos, start, s)`: the
/// position, the flush point, and the current state.  A `Go` step consumes
/// without flushing, an `EndLine` step flushes the accumulated token
/// through the consumed newline, and end of input flushes whatever is
/// still pending before the scan halts.
pub open spec fn scan_from(input: Seq<char>, pos: int, start: int, s: State) -> Seq<char>
    recommends
        0 <= start <= pos <= input.len(),
    decreases input.len() - pos,
        when 0 <= pos <= input.len()
{
    if pos >= input.len() {
        input.subrange(start, input.len() as int)
    } else {
        let t = transition(s, Option::Some(input[pos]));
        if t.1 == Action::EndLine {
            input.subrange(start, pos + 1) + scan_from(input, pos + 1, pos + 1, t.0)
        } else if t.1 == Action::Go {
            scan_from(input, pos + 1, start, t.0)
        } else {
            input.subrange(start, pos)
        }
    }
}

/// Everything the scan emits for `input`, started in the initial state
/// with an empty accumulated token.
pub open spec fn processed(input: Seq<char>) -> Seq<char> {
    scan_from(input, 0, 0, State::Initial)
}

/// The number of line breaks in `s`: how many physical lines the scan of
/// `s` completes, and so how far it advances the emitter's line counter.
pub open spec fn newline_count(s: Seq<char>) -> nat
    decreases s.len(),
{
    if s.len() == 0 {
        0
    } else {
        newline_count(s.drop_last()) + if s.last() == '\n' {
            1nat
        } else {
            0nat
        }
    }
}

/// Consuming one more character extends the newline count of the prefix by
/// one exactly when that character is a line break.
proof fn lemma_newline_count_step(s: Seq<char>, i: int)
    requires
        0 <= i < s.len(),
    ensures
        newline_count(s.subrange(0, i + 1)) == newline_count(s.subrange(0, i)) + if s[i] == '\n' {
            1nat
        } else {
            0nat
        },
{
    let t = s.subrange(0, i + 1);
    assert(t.drop_last() =~= s.subrange(0, i));
    assert(t.last() == s[i]);
}

/// A prefix never holds more line breaks than the whole.
proof fn lemma_newline_count_prefix_le(s: Seq<char>, i: int)
    requires
        0 <= i <= s.len(),
    ensures
        newline_count(s.subrange(0, i)) <= newline_count(s),
    decreases s.len() - i,
{
    if i == s.len() {
        assert(s.subrange(0, i) =~= s);
    } else {
        lemma_newline_count_step(s, i);
        lemma_newline_count_prefix_le(s, i + 1);
    }
}

/// Law: every state's table handles end of input, and it leads to the
/// terminal state and a halt.
pub proof fn lemma_table_handles_eof(s: State)
    ensures
        transition(s, Option::None) == (State::AtEof, Action::Return),
{
}

/// Law: the terminal state is absorbing; whatever is pending there, the
/// transition stays in it and halts the scan.
pub proof fn lemma_at_eof_terminal(c: Option<char>)
    ensures
        transition(State::AtEof, c).0 == State::AtEof,
        transition(State::AtEof, c).1 == Action::Return,
{
}

/// Law: non-ASCII opacity.  A code point above `U+007F` takes the default
/// transition in every state; it is never individually classified.
pub proof fn lemma_non_ascii_opaque(s: State, c: char)
    requires
        (c as nat) > 127,
    ensures
        class_of(s, c) == 1,
        transition(s, Option::Some(c)) == transition_of(s, 1),
{
}

/// From any mid-scan configuration, the scan emits exactly the unflushed
/// remainder of the input: no step drops or invents a character.
pub proof fn lemma_scan_from_copies(input: Seq<char>, pos: int, start: int, s: State)
    requires
        0 <= start <= pos <= input.len(),
        s != State::AtEof,
    ensures
        scan_from(input, pos, start, s) == input.subrange(start, input.len() as int),
    decreases input.len() - pos,
{
    if pos < input.len() {
        let t = transition(s, Option::Some(input[pos]));
        assert(t.0 != State::AtEof);
        if t.1 == Action::EndLine {
            lemma_scan_from_copies(input, pos + 1, pos + 1, t.0);
            assert(input.subrange(start, pos + 1) + input.subrange(pos + 1, input.len() as int)
                =~= input.subrange(start, input.len() as int));
        } else {
            assert(t.1 == Action::Go);
            lemma_scan_from_copies(input, pos + 1, start, t.0);
        }
    }
}

/// Law: pass-through.  The base tables recognize nothing that rewrites
/// text, so the scan of any input — empty, non-ASCII, NUL, with or without
/// a trailing newline — emits that input verbatim.
pub proof fn lemma_processed_identity(input: Seq<char>)
    ensures
        processed(input) == input,
{
    lemma_scan_from_copies(input, 0, 0, State::Initial);
    assert(input.subrange(0, input.len() as int) =~= input);
}

/// Decodes the whole input into one character per element, up front, so
/// that the scan reads each position in constant time and nothing is ever
/// decoded twice.
fn collect_chars(input: &str) -> (v: Vec<char>)
    ensures
        v@ == input@,
{
    broadcast use vstd::string::axiom_spec_iter;
    broadcast use vstd::string::next_postcondition;

    let mut it = input.chars();
    let mut v: Vec<char> = Vec::new();
    loop
        invariant
            v@ + it.remaining() == input@,
            it.decrease() is Some,
        decreases it.decrease()->0,
    {
        let ghost pre_v = v@;
        let ghost pre_rem = it.remaining();
        match it.next() {
            Option::Some(c) => {
                v.push(c);
                proof {
                    assert(v@ + it.remaining() =~= pre_v + pre_rem);
                }
            },
            Option::None => {
                proof {
                    assert(v@ =~= input@);
                }
                return v;
            },
        }
    }
}

/// The characters `[from, to)` of `v` as a string: one flushed token.
fn string_of_range(v: &Vec<char>, from: usize, to: usize) -> (s: String)
    requires
        from <= to <= v@.len(),
    ensures
        s@ == v@.subrange(from as int, to as int),
{
    let mut s = String::new();
    let mut i: usize = from;
    proof {
        assert(v@.subrange(from as int, from as int) =~= Seq::<char>::empty());
    }
    while i < to
        invariant
            from <= i <= to <= v@.len(),
            s@ == v@.subrange(from as int, i as int),
        decreases to - i,
    {
        push_char(&mut s, v[i]);
        proof {
            assert(v@.subrange(from as int, i as int).push(v@[i as int]) =~= v@.subrange(
                from as int,
                i as int + 1,
            ));
        }
        i = i + 1;
    }
    s
}

/// Scans the whole of `input`, writing everything the scan emits through
/// the emitter and stepping the emitter's line counter once per physical
/// line consumed, in sync with the scan's newline recognition.  The scan
/// is total: every character and end of input have a transition in every
/// state, and a final line without a trailing newline is still flushed.
pub fn process(input: &str, output: &mut Output)
    requires
        old(output).line_number() + newline_count(input@) <= usize::MAX,
    ensures
        final(output).text_view() == old(output).text_view() + processed(input@),
        final(output).text_view() == old(output).text_view() + input@,
        final(output).line_number() == old(output).line_number() + newline_count(input@),
        final(output).file_name() == old(output).file_name(),
{
    let chars = collect_chars(input);
    let n = chars.len();
    let mut pos: usize = 0;
    let mut start: usize = 0;
    let mut state: State = State::Initial;
    proof {
        assert(input@.subrange(0, 0) =~= Seq::<char>::empty());
    }
    loop
        invariant
            chars@ == input@,
            n == input@.len(),
            0 <= start <= pos <= n,
            state != State::AtEof,
            output.text_view() == old(output).text_view() + input@.subrange(0, start as int),
            output.line_number() == old(output).line_number() + newline_count(
                input@.subrange(0, pos as int),
            ),
            old(output).line_number() + newline_count(input@) <= usize::MAX,
            output.file_name() == old(output).file_name(),
        decreases n - pos,
    {
        let c: Option<char> = if pos < n {
            Option::Some(chars[pos])
        } else {
            Option::None
        };
        let t = lookup(state, c);
        state = t.0;
        match t.1 {
            Action::Go => {
                assert(pos < n);
                assert(input@[pos as int] != '\n');
                proof {
                    lemma_newline_count_step(input@, pos as int);
                }
                pos = pos + 1;
            },
            Action::EndLine => {
                assert(pos < n);
                assert(input@[pos as int] == '\n');
                proof {
                    lemma_newline_count_step(input@, pos as int);
                    lemma_newline_count_prefix_le(input@, pos as int + 1);
                }
                pos = pos + 1;
                let tok = string_of_range(&chars, start, pos);
                output.write_raw_str(tok.as_str());
                output.advance_line();
                proof {
                    assert(old(output).text_view() + input@.subrange(0, start as int)
                        + input@.subrange(start as int, pos as int) =~= old(output).text_view()
                        + input@.subrange(0, pos as int));
                }
                start = pos;
            },
            Action::Return => {
                assert(pos == n);
                let tok = string_of_range(&chars, start, n);
                output.write_raw_str(tok.as_str());
                proof {
                    assert(old(output).text_view() + input@.subrange(0, start as int)
                        + input@.subrange(start as int, n as int) =~= old(output).text_view()
                        + input@);
                    assert(input@.subrange(0, n as int) =~= input@);
                    lemma_processed_identity(input@);
                }
                return ;
            },
        }
    }
}

} // verus!
