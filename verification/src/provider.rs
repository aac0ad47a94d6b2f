//! The decision half of the provider protocol: what is sent with a
//! completion request, and what counts as a usable response.
//!
//! The HTTP calls themselves live in the unverified shell; it passes the
//! response payloads here unchanged, so that empty responses are
//! rejected by verified code.

use vstd::prelude::*;
use vstd::string::StringExecFns;
use vstd::string::StrSliceExecFns;
use crate::error::Error;

verus! {

/// One chat message: a role and its content.
pub struct Message {
    pub role: String,
    pub content: String,
}

/// The two messages of a completion request: the system instruction,
/// then the user instruction.
pub fn completion_messages(system_prompt: &str, user_prompt: &str) -> (r: Vec<Message>)
    ensures
        r@.len() == 2,
        r@[0].role@ == "system"@,
        r@[0].content@ == system_prompt@,
        r@[1].role@ == "user"@,
        r@[1].content@ == user_prompt@,
{
    let mut r: Vec<Message> = Vec::new();
    r.push(Message { role: String::from_str("system"), content: system_prompt.to_owned() });
    r.push(Message { role: String::from_str("user"), content: user_prompt.to_owned() });
    r
}

/// The generated text of a completion response: its first choice, or a
/// provider error when the response carries no choice at all.
pub fn first_choice(choices: Vec<String>) -> (r: Result<String, Error>)
    ensures
        r is Ok <==> choices@.len() > 0,
        r matches Ok(s) ==> s == choices@[0],
        r matches Err(e) ==> (e matches Error::Provider(m) && m@
            == "API response did not contain any choices."@),
{
    let mut cs = choices;
    if cs.len() == 0 {
        Err(Error::Provider(String::from_str("API response did not contain any choices.")))
    } else {
        Ok(cs.remove(0))
    }
}

/// The vector of an embedding response: its first entry, or a provider
/// error when the response carries no embedding data at all.
pub fn first_embedding(data: Vec<Vec<u32>>) -> (r: Result<Vec<u32>, Error>)
    ensures
        r is Ok <==> data@.len() > 0,
        r matches Ok(v) ==> v == data@[0],
        r matches Err(e) ==> (e matches Error::Provider(m) && m@
            == "API response did not contain any embedding data."@),
{
    let mut d = data;
    if d.len() == 0 {
        Err(Error::Provider(String::from_str(
            "API response did not contain any embedding data.",
        )))
    } else {
        Ok(d.remove(0))
    }
}

/// The four letters of the exit command, in either case.
pub open spec fn spec_is_exit(s: Seq<char>) -> bool {
    &&& s.len() == 4
    &&& (s[0] == 'e' || s[0] == 'E')
    &&& (s[1] == 'x' || s[1] == 'X')
    &&& (s[2] == 'i' || s[2] == 'I')
    &&& (s[3] == 't' || s[3] == 'T')
}

/// Whether a line of user input, once trimmed, asks to end an
/// interactive session: the word "exit" in any letter case.
pub fn is_exit_command(input: &str) -> (r: bool)
    ensures
        r == spec_is_exit(crate::textutil::trim_of(input@)),
{
    let t = crate::textutil::trim(input);
    if t.unicode_len() != 4 {
        return false;
    }
    let c0 = t.get_char(0);
    let c1 = t.get_char(1);
    let c2 = t.get_char(2);
    let c3 = t.get_char(3);
    (c0 == 'e' || c0 == 'E') && (c1 == 'x' || c1 == 'X') && (c2 == 'i' || c2 == 'I') && (c3
        == 't' || c3 == 'T')
}

} // verus!
