//! The arguments of a run: which value each configured argument gets, whether
//! the value is acceptable, and the command line with the values put in.

use vstd::prelude::*;
use vstd::string::StrSliceExecFns;
use vstd::string::StringExecFns;
use vstd::utf8::encode_utf8;
use crate::buffer::{buffer_bytes, held};
use crate::cfg::{Argument, ArgumentType};
use crate::dict::{
    has_key, lemma_has_first, lemma_texts_keys, lemma_texts_put, position_of, put, texts, Dict,
};
use crate::task::TaskState;
use crate::unit::strings;

verus! {

/// The byte that ends a line.
pub const NEWLINE: u8 = 10;

/// Whether the bytes of `output` from `from` up to `to` are one of its
/// lines: what stands between two line ends, or between a line end and an
/// end of the output.
pub open spec fn is_line(output: Seq<u8>, from: int, to: int) -> bool {
    &&& 0 <= from <= to <= output.len()
    &&& from == 0 || output[from - 1] == NEWLINE
    &&& to == output.len() || output[to] == NEWLINE
    &&& forall|k: int| from <= k < to ==> output[k] != NEWLINE
}

/// Whether `value` is one of the lines of `output`.
pub open spec fn has_line(output: Seq<u8>, value: Seq<u8>) -> bool {
    exists|from: int, to: int| is_line(output, from, to) && output.subrange(from, to) == value
}

/// Whether the bytes of `output` from `from` up to `to` are `value`.
fn matches_at(output: &[u8], from: usize, to: usize, value: &[u8]) -> (same: bool)
    requires
        from <= to <= output@.len(),
    ensures
        same == (output@.subrange(from as int, to as int) == value@),
{
    if to - from != value.len() {
        return false;
    }
    let n = value.len();
    let mut i: usize = 0;
    while i < n
        invariant
            i <= n,
            n == value@.len(),
            n == to - from,
            to <= output@.len(),
            forall|k: int| 0 <= k < i ==> output@[from + k] == value@[k],
        decreases n - i,
    {
        if output[from + i] != value[i] {
            assert(output@.subrange(from as int, to as int)[i as int] != value@[i as int]);
            return false;
        }
        i += 1;
    }
    assert(output@.subrange(from as int, to as int) =~= value@);
    true
}

/// Whether `value` is one of the lines of `output`.
pub fn is_line_of(output: &[u8], value: &[u8]) -> (found: bool)
    ensures
        found == has_line(output@, value@),
{
    let n = output.len();
    let mut from: usize = 0;
    loop
        invariant
            from <= n,
            n == output@.len(),
            from == 0 || output@[from - 1] == NEWLINE,
            forall|a: int, b: int|
                #![trigger is_line(output@, a, b)]
                is_line(output@, a, b) && a < from ==> output@.subrange(a, b) != value@,
        decreases n - from,
    {
        let mut to: usize = from;
        while to < n && output[to] != NEWLINE
            invariant
                from <= to <= n,
                n == output@.len(),
                forall|k: int| from <= k < to ==> output@[k] != NEWLINE,
            decreases n - to,
        {
            to += 1;
        }
        assert(is_line(output@, from as int, to as int));
        if matches_at(output, from, to, value) {
            return true;
        }
        proof {
            assert forall|a: int, b: int|
                #![trigger is_line(output@, a, b)]
                is_line(output@, a, b) && a <= to implies output@.subrange(a, b) != value@ by {
                if a >= from {
                    if a > from {
                        assert(output@[a - 1] == NEWLINE);
                        assert(false);
                    }
                    if b < to {
                        assert(output@[b] == NEWLINE);
                    }
                    if b > to {
                        assert(output@[to as int] != NEWLINE);
                    }
                    assert(b == to);
                }
            }
        }
        if to == n {
            assert(!has_line(output@, value@));
            return false;
        }
        from = to + 1;
    }
}

/// What stands in the command line for `segment`: the value of the argument
/// it names, where it is a `$` and the name of an argument; the user, or
/// nothing where there is none, for `$taru_user`; the segment itself in all
/// other cases.
pub open spec fn substituted(
    segment: Seq<char>,
    arguments: Seq<(Seq<char>, Seq<char>)>,
    user: Option<Seq<char>>,
) -> Seq<char> {
    if segment.len() > 0 && segment[0] == '$' {
        if has_key(arguments, segment.skip(1)) {
            arguments[position_of(arguments, segment.skip(1))].1
        } else if segment == "$taru_user"@ {
            match user {
                Some(login) => login,
                None => Seq::empty(),
            }
        } else {
            segment
        }
    } else {
        segment
    }
}

/// The user's login by its characters, where there is a user.
pub open spec fn login_of(user: Option<&String>) -> Option<Seq<char>> {
    match user {
        Some(login) => Some(login@),
        None => None,
    }
}

/// The command line with the arguments put in, segment by segment.
pub open spec fn substituted_line(
    command: Seq<Seq<char>>,
    arguments: Seq<(Seq<char>, Seq<char>)>,
    user: Option<Seq<char>>,
) -> Seq<Seq<char>> {
    Seq::new(command.len(), |i: int| substituted(command[i], arguments, user))
}

/// Puts the arguments into one segment of a command line.
pub fn substitute_segment(
    segment: &String,
    arguments: &Dict<String>,
    user: Option<&String>,
) -> (put_in: String)
    ensures
        put_in@ == substituted(segment@, texts(arguments@), login_of(user)),
{
    let text = segment.as_str();
    let length = text.unicode_len();
    if length > 0 && text.get_char(0) == '$' {
        let name = text.substring_char(1, length);
        assert(name@ =~= segment@.skip(1));
        proof {
            lemma_texts_keys(arguments@, name@);
            if has_key(arguments@, name@) {
                lemma_has_first(arguments@, name@);
            }
        }
        match arguments.get(name) {
            Some(value) => value.clone(),
            None => {
                let marker = String::from_str("$taru_user");
                if *segment == marker {
                    match user {
                        Some(login) => login.clone(),
                        None => String::new(),
                    }
                } else {
                    segment.clone()
                }
            },
        }
    } else {
        segment.clone()
    }
}

/// Puts the arguments into a command line.
pub fn substitute(
    command: &Vec<String>,
    arguments: &Dict<String>,
    user: Option<&String>,
) -> (line: Vec<String>)
    ensures
        strings(line@) == substituted_line(
            strings(command@),
            texts(arguments@),
            login_of(user),
        ),
{
    let mut line: Vec<String> = Vec::new();
    let n = command.len();
    let mut i: usize = 0;
    while i < n
        invariant
            i <= n,
            n == command@.len(),
            line@.len() == i,
            forall|k: int|
                0 <= k < i ==> line@[k]@ == substituted(
                    command@[k]@,
                    texts(arguments@),
                    login_of(user),
                ),
        decreases n - i,
    {
        line.push(substitute_segment(&command[i], arguments, user));
        i += 1;
    }
    assert(strings(line@) =~= substituted_line(
        strings(command@),
        texts(arguments@),
        login_of(user),
    ));
    line
}

/// Why a run cannot have the value it was given for an argument.
#[derive(Debug, Clone, Copy, PartialEq, Eq, Structural)]
pub enum Refusal {
    /// No value was given.
    Missing,
    /// The argument is a number and the value is none.
    NotANumber,
    /// The argument is a choice, and the configuration names no task to
    /// choose from.
    NoSource,
    /// The task to choose from is not known.
    UnknownSource,
    /// The task to choose from has not finished a run.
    SourceNotReady,
    /// The value is empty.
    Empty,
    /// The value is none of the lines the task to choose from has written.
    Invalid,
}

/// The refusal of a run: which of the task's arguments, by its position, and
/// why.
#[derive(Debug, Clone, Copy, PartialEq, Eq, Structural)]
pub struct ArgumentError {
    pub argument: usize,
    pub refusal: Refusal,
}

/// Whether `str::parse::<i32>` of the standard library takes the text for a
/// number.
pub uninterp spec fn parses_as_i32(text: Seq<char>) -> bool;

/// Asks `str::parse::<i32>` whether the text is a number.
#[verifier::external_body]
fn is_i32(text: &str) -> (numeric: bool)
    ensures
        numeric == parses_as_i32(text@),
{
    text.parse::<i32>().is_ok()
}

/// Whether `value` will do for `argument`, given whether it is a number: any
/// text will do for a string; a number must be a number; a choice must be a
/// line, not empty, of what the task it names has written in the run it
/// has finished.
pub open spec fn judged(
    argument: Argument,
    value: Seq<char>,
    numeric: bool,
    tasks: Seq<(Seq<char>, TaskState)>,
) -> Option<Refusal> {
    match argument.datatype {
        ArgumentType::String => None,
        ArgumentType::Int => if numeric {
            None
        } else {
            Some(Refusal::NotANumber)
        },
        ArgumentType::Enum => match argument.enum_source {
            None => Some(Refusal::NoSource),
            Some(source) => if !has_key(tasks, source@) {
                Some(Refusal::UnknownSource)
            } else {
                let record = tasks[position_of(tasks, source@)].1;
                if !(record.status is Finished) {
                    Some(Refusal::SourceNotReady)
                } else if value.len() == 0 {
                    Some(Refusal::Empty)
                } else if !has_line(buffer_bytes(record.output), encode_utf8(value)) {
                    Some(Refusal::Invalid)
                } else {
                    None
                }
            },
        },
    }
}

/// Judges `value` for `argument`, given whether it is a number.
pub fn judge(argument: &Argument, value: &str, numeric: bool, tasks: &Dict<TaskState>) -> (refusal:
    Option<Refusal>)
    ensures
        refusal == judged(*argument, value@, numeric, tasks@),
{
    match argument.datatype {
        ArgumentType::String => None,
        ArgumentType::Int => if numeric {
            None
        } else {
            Some(Refusal::NotANumber)
        },
        ArgumentType::Enum => match &argument.enum_source {
            None => Some(Refusal::NoSource),
            Some(source) => match tasks.get(source.as_str()) {
                None => Some(Refusal::UnknownSource),
                Some(record) => {
                    if !record.status.is_finished() {
                        Some(Refusal::SourceNotReady)
                    } else if value.is_empty() {
                        Some(Refusal::Empty)
                    } else if !is_line_of(held(&record.output), value.as_bytes()) {
                        Some(Refusal::Invalid)
                    } else {
                        None
                    }
                },
            },
        },
    }
}

/// Judges `value` for `argument`.
pub fn check_argument(argument: &Argument, value: &str, tasks: &Dict<TaskState>) -> (refusal:
    Option<Refusal>)
    ensures
        refusal == judged(*argument, value@, parses_as_i32(value@), tasks@),
{
    let numeric = match argument.datatype {
        ArgumentType::Int => is_i32(value),
        _ => true,
    };
    judge(argument, value, numeric, tasks)
}

/// The value given for the argument `name`: the one among the parameters of
/// the request's address, else the one in the request's form, else none.
pub open spec fn chosen(
    params: Seq<(Seq<char>, Seq<char>)>,
    form: Seq<(Seq<char>, Seq<char>)>,
    name: Seq<char>,
) -> Option<Seq<char>> {
    if has_key(params, name) {
        Some(params[position_of(params, name)].1)
    } else if has_key(form, name) {
        Some(form[position_of(form, name)].1)
    } else {
        None
    }
}

/// Why the argument at `i` cannot have the value given for it, if it cannot.
pub open spec fn refusal_at(
    arguments: Seq<Argument>,
    i: int,
    params: Seq<(Seq<char>, Seq<char>)>,
    form: Seq<(Seq<char>, Seq<char>)>,
    tasks: Seq<(Seq<char>, TaskState)>,
) -> Option<Refusal> {
    match chosen(params, form, arguments[i].name@) {
        None => Some(Refusal::Missing),
        Some(value) => judged(arguments[i], value, parses_as_i32(value), tasks),
    }
}

/// The values given for the first `n` arguments, each under its name.
pub open spec fn collected(
    arguments: Seq<Argument>,
    params: Seq<(Seq<char>, Seq<char>)>,
    form: Seq<(Seq<char>, Seq<char>)>,
    n: int,
) -> Seq<(Seq<char>, Seq<char>)>
    decreases n,
{
    if n <= 0 {
        Seq::empty()
    } else {
        put(
            collected(arguments, params, form, n - 1),
            arguments[n - 1].name@,
            chosen(params, form, arguments[n - 1].name@)->Some_0,
        )
    }
}

/// Finds the value given for each argument of a task and judges it. The
/// first argument, in the order configured, that cannot have its value
/// refuses the run; where none does, the values come back, each under its
/// argument's name.
pub fn resolve(
    arguments: &Vec<Argument>,
    params: &Dict<String>,
    form: &Dict<String>,
    tasks: &Dict<TaskState>,
) -> (resolved: Result<Dict<String>, ArgumentError>)
    ensures
        match resolved {
            Ok(values) => {
                &&& forall|i: int|
                    0 <= i < arguments@.len() ==> refusal_at(
                        arguments@,
                        i,
                        texts(params@),
                        texts(form@),
                        tasks@,
                    ) is None
                &&& texts(values@) == collected(
                    arguments@,
                    texts(params@),
                    texts(form@),
                    arguments@.len() as int,
                )
            },
            Err(error) => {
                &&& error.argument < arguments@.len()
                &&& refusal_at(
                    arguments@,
                    error.argument as int,
                    texts(params@),
                    texts(form@),
                    tasks@,
                ) == Some(error.refusal)
                &&& forall|i: int|
                    0 <= i < error.argument ==> refusal_at(
                        arguments@,
                        i,
                        texts(params@),
                        texts(form@),
                        tasks@,
                    ) is None
            },
        },
{
    let mut values: Dict<String> = Dict::new();
    let n = arguments.len();
    let mut i: usize = 0;
    assert(texts(values@) =~= Seq::empty());
    while i < n
        invariant
            i <= n,
            n == arguments@.len(),
            forall|k: int|
                0 <= k < i ==> refusal_at(arguments@, k, texts(params@), texts(form@), tasks@)
                    is None,
            texts(values@) == collected(arguments@, texts(params@), texts(form@), i as int),
        decreases n - i,
    {
        let argument = &arguments[i];
        proof {
            lemma_texts_keys(params@, argument.name@);
            lemma_texts_keys(form@, argument.name@);
            if has_key(params@, argument.name@) {
                lemma_has_first(params@, argument.name@);
            }
            if has_key(form@, argument.name@) {
                lemma_has_first(form@, argument.name@);
            }
        }
        let given = match params.get(argument.name.as_str()) {
            Some(value) => Some(value),
            None => form.get(argument.name.as_str()),
        };
        match given {
            None => {
                return Err(ArgumentError { argument: i, refusal: Refusal::Missing });
            },
            Some(value) => {
                assert(chosen(texts(params@), texts(form@), argument.name@) == Some(value@));
                match check_argument(argument, value.as_str(), tasks) {
                    Some(refusal) => {
                        return Err(ArgumentError { argument: i, refusal });
                    },
                    None => {
                        proof {
                            lemma_texts_put(values@, argument.name@, *value);
                        }
                        values.insert(argument.name.clone(), value.clone());
                    },
                }
            },
        }
        i += 1;
    }
    Ok(values)
}

} // verus!
