//! Questions to the user: the text of a question, and what an answer
//! means. The caller prints the one and reads the other.

use vstd::prelude::*;
use crate::text::{trim, trimmed};

verus! {

/// The text of a question: the message, the default in brackets where
/// there is one that is not empty, a colon and a space.
pub open spec fn question(message: Seq<char>, default: Option<Seq<char>>) -> Seq<char> {
    match default {
        Some(value) if value.len() > 0 => message + " ["@ + value + "]: "@,
        _ => message + ": "@,
    }
}

/// The text of a question.
pub fn print_prompt(message: &str, default: Option<&str>) -> (text: String)
    ensures
        text@ == question(
            message@,
            match default {
                Some(value) => Some(value@),
                None => None,
            },
        ),
{
    let mut text = message.to_owned();
    match default {
        Some(value) => {
            if value.unicode_len() > 0 {
                text.append(" [");
                text.append(value);
                text.append("]: ");
            } else {
                text.append(": ");
            }
        },
        None => {
            text.append(": ");
        },
    }
    text
}

/// What a line of input answers: the line trimmed; where nothing is left
/// of it, the default, or nothing where there is none.
pub open spec fn answer(line: Seq<char>, default: Option<Seq<char>>) -> Seq<char> {
    if trimmed(line).len() > 0 {
        trimmed(line)
    } else {
        match default {
            Some(value) => value,
            None => Seq::empty(),
        }
    }
}

/// What the line `line`, read after a question, answers.
pub fn prompt_input(line: &str, default: Option<&str>) -> (r: String)
    ensures
        r@ == answer(
            line@,
            match default {
                Some(value) => Some(value@),
                None => None,
            },
        ),
{
    let input = trim(line);
    if input.as_str().unicode_len() == 0 {
        match default {
            Some(value) => value.to_owned(),
            None => String::new(),
        }
    } else {
        input
    }
}

} // verus!
