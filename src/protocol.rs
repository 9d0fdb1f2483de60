//! The send/acknowledge handshake, frame by frame.
//!
//! A request frame is the JSON text of one value. The `Sink` answers every
//! request with one reply frame: the JSON text of the acknowledgment token
//! when the value decoded, of the refusal token when it did not. The `Source`
//! accepts a reply only when it decodes to exactly the acknowledgment token.

use vstd::prelude::*;
use crate::error::Error;

verus! {

/// What `serde_json::to_string` makes of a string: its JSON text.
pub uninterp spec fn json_text_of(s: Seq<char>) -> Seq<char>;

/// What `serde_json::from_str::<String>` makes of a text: the string that the
/// JSON text denotes, or `None` where it denotes no string.
pub uninterp spec fn json_string_in(t: Seq<char>) -> Option<Seq<char>>;

/// The acknowledgment token.
pub open spec fn ack_token() -> Seq<char> {
    seq!['K']
}

/// The token a `Sink` answers with when a request did not decode.
pub open spec fn refusal_token() -> Seq<char> {
    seq!['N']
}

/// A string that JSON writes as it stands: no quote, no backslash and no
/// control character.
pub open spec fn plain_text(s: Seq<char>) -> bool {
    forall|i: int| 0 <= i < s.len() ==> s[i] != '"' && s[i] != '\\' && (s[i] as u32) >= 0x20
}

/// Relies on `serde_json::to_string` on a `str`: it writes into a `Vec`,
/// which cannot fail, and yields the string's JSON text: the characters
/// between double quotes, escaped where they are quotes, backslashes or
/// control characters.
#[verifier::external_body]
fn encode_text(s: &str) -> (r: core::result::Result<String, serde_json::Error>)
    ensures
        r is Ok,
        r matches Ok(t) ==> t@ == json_text_of(s@),
        r matches Ok(t) ==> (plain_text(s@) ==> t@ == seq!['"'] + s@ + seq!['"']),
{
    serde_json::to_string(s)
}

/// A text made of a double quote, plain characters, and a double quote.
pub open spec fn quoted_plain(t: Seq<char>) -> bool {
    t.len() >= 2 && t[0] == '"' && t.last() == '"' && plain_text(t.subrange(1, t.len() - 1))
}

/// Relies on `serde_json::from_str::<String>`: it succeeds exactly when the
/// text is the JSON text of a string, and then returns that string; plain
/// characters between double quotes stand for themselves.
#[verifier::external_body]
fn decode_text(t: &str) -> (r: core::result::Result<String, serde_json::Error>)
    ensures
        r is Ok <==> json_string_in(t@) is Some,
        r matches Ok(s) ==> json_string_in(t@) == Some(s@),
        quoted_plain(t@) ==> r is Ok && r->Ok_0@ == t@.subrange(1, t@.len() - 1),
{
    serde_json::from_str::<String>(t)
}

fn token_text(accepted: bool) -> (r: String)
    ensures
        accepted ==> r@ == ack_token(),
        !accepted ==> r@ == refusal_token(),
{
    if accepted {
        proof {
            reveal_strlit("K");
        }
        String::from_str("K")
    } else {
        proof {
            reveal_strlit("N");
        }
        String::from_str("N")
    }
}

/// The text carried by a received frame, or `NotUtf8Error` with the frame's
/// bytes where they are not UTF-8.
pub fn frame_text(frame: core::result::Result<String, Vec<u8>>) -> (r: Result<String, Error>)
    ensures
        frame matches Ok(s) ==> (r matches Ok(t) && t@ == s@),
        frame matches Err(b) ==> (r matches Err(Error::NotUtf8Error(c)) && c@ == b@),
{
    match frame {
        Ok(s) => Ok(s),
        Err(b) => Err(Error::NotUtf8Error(b)),
    }
}

/// The reply frame a `Sink` sends for a request: the acknowledgment token's
/// JSON text, `"K"`, when the request decoded, the refusal token's, `"N"`,
/// otherwise.
pub fn reply_frame(decoded: bool) -> (r: Result<String, Error>)
    ensures
        r is Ok,
        r matches Ok(f) ==> f@ == json_text_of(
            if decoded { ack_token() } else { refusal_token() },
        ),
        decoded ==> (r matches Ok(f) && f@ == seq!['"', 'K', '"']),
        !decoded ==> (r matches Ok(f) && f@ == seq!['"', 'N', '"']),
{
    let token = token_text(decoded);
    assert(plain_text(token@));
    match encode_text(token.as_str()) {
        Ok(f) => Ok(f),
        Err(e) => Err(Error::JsonError(e)),
    }
}

/// Judges the decoded text of a reply: success exactly when it is the
/// acknowledgment token.
pub fn accept_reply(text: String) -> (r: Result<(), Error>)
    ensures
        r is Ok <==> text@ == ack_token(),
        text@ != ack_token() ==> (r matches Err(Error::UnexpectedReply(t)) && t@ == text@),
{
    let ack = token_text(true);
    if text == ack {
        Ok(())
    } else {
        Err(Error::UnexpectedReply(text))
    }
}

/// Checks the reply frame that answered a request: it must be UTF-8, be the
/// JSON text of a string, and that string must be the acknowledgment token.
pub fn check_reply(frame: core::result::Result<String, Vec<u8>>) -> (r: Result<(), Error>)
    ensures
        frame matches Err(b) ==> (r matches Err(Error::NotUtf8Error(c)) && c@ == b@),
        frame matches Ok(s) ==> (r is Ok <==> json_string_in(s@) == Some(ack_token())),
        frame matches Ok(s) && json_string_in(s@) is None ==> r matches Err(Error::JsonError(_)),
        frame is Ok && json_string_in(frame->Ok_0@) is Some
            && json_string_in(frame->Ok_0@)->Some_0 != ack_token() ==> (r matches Err(
            Error::UnexpectedReply(u),
        ) && u@ == json_string_in(frame->Ok_0@)->Some_0),
        frame matches Ok(s) && s@ == seq!['"', 'K', '"'] ==> r is Ok,
{
    let text = frame_text(frame)?;
    assert(text@ == seq!['"', 'K', '"'] ==> text@.subrange(1, 2) =~= ack_token());
    match decode_text(text.as_str()) {
        Ok(s) => accept_reply(s),
        Err(e) => Err(Error::JsonError(e)),
    }
}

} // verus!
