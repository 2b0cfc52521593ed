//! Reminders: reading the command's options and the texts around a reminder.
use vstd::prelude::*;
use crate::text::nat_text;

verus! {

/// The ways a command can fail on its input.
#[derive(Debug)]
pub enum CommandError {
    /// The command is not known.
    UnknownCommand(String),
    /// The option (or its value) is not understood.
    UnknownOption(String),
    /// A needed option is missing.
    MissingOption,
    /// Data the command needs is missing.
    MissingData(String),
}

/// The value of a command option: text, or anything else.
#[derive(Debug)]
pub enum OptionValue {
    Text(String),
    Other,
}

/// A command option: its name and value.
#[derive(Debug)]
pub struct CommandOption {
    pub name: String,
    pub value: OptionValue,
}

/// What the options of `remindme` give: when (as written) and the message, if any.
pub open spec fn remind_options_of(opts: Seq<CommandOption>) -> Result<(Seq<char>, Option<Seq<char>>), (u8, Seq<char>)> {
    if opts.len() == 0 {
        Err((0u8, Seq::empty()))
    } else {
        match opts[0].value {
            OptionValue::Text(when) => if opts.len() < 2 {
                Ok((when@, None))
            } else {
                match opts[1].value {
                    OptionValue::Text(m) => Ok((when@, Some(m@))),
                    OptionValue::Other => Err((1u8, opts[1].name@)),
                }
            },
            OptionValue::Other => Err((1u8, opts[0].name@)),
        }
    }
}

/// The plain value of the result: the error as its kind (0: a missing option, 1: an
/// unknown option) and text.
pub open spec fn remind_result_view(r: Result<(String, Option<String>), CommandError>) -> Result<(Seq<char>, Option<Seq<char>>), (u8, Seq<char>)> {
    match r {
        Ok((when, msg)) => Ok((when@, match msg { Some(m) => Some(m@), None => None })),
        Err(CommandError::MissingOption) => Err((0u8, Seq::empty())),
        Err(CommandError::UnknownOption(o)) => Err((1u8, o@)),
        Err(CommandError::UnknownCommand(c)) => Err((2u8, c@)),
        Err(CommandError::MissingData(d)) => Err((3u8, d@)),
    }
}

/// Reads the options of `remindme`: the first, when, must be there and be text; the second,
/// the message, may be missing but must be text when given. An option that is not text is
/// refused with its name.
pub fn remind_options(opts: &Vec<CommandOption>) -> (r: Result<(String, Option<String>), CommandError>)
    ensures
        remind_result_view(r) == remind_options_of(opts@),
{
    if opts.len() == 0 {
        return Err(CommandError::MissingOption);
    }
    let when = match &opts[0].value {
        OptionValue::Text(w) => w.clone(),
        OptionValue::Other => return Err(CommandError::UnknownOption(opts[0].name.clone())),
    };
    if opts.len() < 2 {
        return Ok((when, None));
    }
    match &opts[1].value {
        OptionValue::Text(m) => Ok((when, Some(m.clone()))),
        OptionValue::Other => Err(CommandError::UnknownOption(opts[1].name.clone())),
    }
}

/// The reminder itself: the user mentioned and what to remember.
pub open spec fn reminder_text(user_id: u64, message: Seq<char>) -> Seq<char> {
    "<@"@ + nat_text(user_id as nat) + "> i should remind you that: "@ + message
}

/// Writes the reminder (see `reminder_text`).
pub fn reminder(user_id: u64, message: &str) -> (t: String)
    ensures
        t@ == reminder_text(user_id, message@),
{
    let mut t = String::from_str("<@");
    t.append(crate::text::u64_text(user_id).as_str());
    t.append("> i should remind you that: ");
    t.append(message);
    t
}

/// The answer when a reminder is set: when it will come (as written).
pub open spec fn confirmation_text(when: Seq<char>) -> Seq<char> {
    "I will remind you @ "@ + when
}

/// Writes the answer when a reminder is set (see `confirmation_text`).
pub fn confirmation(when: &str) -> (t: String)
    ensures
        t@ == confirmation_text(when@),
{
    let mut t = String::from_str("I will remind you @ ");
    t.append(when);
    t
}

} // verus!
