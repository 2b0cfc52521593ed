//! The server rules in German and English: setting, extending and sending them in pieces.
use vstd::prelude::*;
use crate::text::{chunk_chars, chunked, views};

verus! {

/// The rules text in German and in English.
pub struct RulesState {
    pub de: String,
    pub en: String,
}

/// The most characters that one message of the rules holds.
pub const RULES_CHUNK: usize = 1500;

/// The rules as sent: pieces of at most `RULES_CHUNK` characters.
pub open spec fn rules_messages(text: Seq<char>) -> Seq<Seq<char>> {
    chunked(text, RULES_CHUNK as nat)
}

/// The rules text with more appended after an empty line.
pub open spec fn extended(text: Seq<char>, more: Seq<char>) -> Seq<char> {
    text + "\n\n"@ + more
}

/// The German rules, in the pieces in which they are sent.
pub fn de(state: &RulesState) -> (messages: Vec<String>)
    ensures
        views(messages@) == rules_messages(state.de@),
{
    chunk_chars(state.de.as_str(), RULES_CHUNK)
}

/// The English rules, in the pieces in which they are sent.
pub fn en(state: &RulesState) -> (messages: Vec<String>)
    ensures
        views(messages@) == rules_messages(state.en@),
{
    chunk_chars(state.en.as_str(), RULES_CHUNK)
}

/// Replaces the German rules.
pub fn setde(state: &mut RulesState, text: &str)
    ensures
        final(state).de@ == text@,
        final(state).en == old(state).en,
{
    state.de = String::from_str(text);
}

/// Replaces the English rules.
pub fn seten(state: &mut RulesState, text: &str)
    ensures
        final(state).en@ == text@,
        final(state).de == old(state).de,
{
    state.en = String::from_str(text);
}

/// Appends to the German rules after an empty line.
pub fn addde(state: &mut RulesState, text: &str)
    ensures
        final(state).de@ == extended(old(state).de@, text@),
        final(state).en == old(state).en,
{
    state.de.append("\n\n");
    state.de.append(text);
}

/// Appends to the English rules after an empty line.
pub fn adden(state: &mut RulesState, text: &str)
    ensures
        final(state).en@ == extended(old(state).en@, text@),
        final(state).de == old(state).de,
{
    state.en.append("\n\n");
    state.en.append(text);
}

/// The rules to post into a channel, in pieces: the English ones for `en`, the German ones
/// for any other language.
pub fn post(state: &RulesState, lang: &str) -> (messages: Vec<String>)
    ensures
        views(messages@) == rules_messages(if lang@ == "en"@ { state.en@ } else { state.de@ }),
{
    let is_en = String::from_str(lang) == String::from_str("en");
    if is_en {
        en(state)
    } else {
        de(state)
    }
}

} // verus!
