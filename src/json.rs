use vstd::prelude::*;
use vstd::string::*;
use crate::stt::SttError;
use crate::text::occurs_at_index;

verus! {

/// A parsed JSON document, as far as the transcription answers are read:
/// numbers keep their text, objects keep their members in order.
#[derive(Debug)]
pub enum Json {
    Null,
    Bool(bool),
    Number(String),
    Str(String),
    Array(Vec<Json>),
    Object(Vec<(String, Json)>),
}

/// The value of the first member named `key` among `members`.
pub open spec fn member_in(members: Seq<(String, Json)>, key: Seq<char>) -> Option<Json>
    decreases members.len(),
{
    if members.len() == 0 {
        None
    } else if members[0].0@ == key {
        Some(members[0].1)
    } else {
        member_in(members.drop_first(), key)
    }
}

/// The member `key` of an object; nothing for other values.
pub open spec fn field(j: Json, key: Seq<char>) -> Option<Json> {
    match j {
        Json::Object(members) => member_in(members@, key),
        _ => None,
    }
}

/// Element `i` of an array; nothing for other values.
pub open spec fn item(j: Json, i: int) -> Option<Json> {
    match j {
        Json::Array(items) => if 0 <= i < items@.len() {
            Some(items@[i])
        } else {
            None
        },
        _ => None,
    }
}

pub open spec fn field_of(j: Option<Json>, key: Seq<char>) -> Option<Json> {
    match j {
        Some(v) => field(v, key),
        None => None,
    }
}

pub open spec fn item_of(j: Option<Json>, i: int) -> Option<Json> {
    match j {
        Some(v) => item(v, i),
        None => None,
    }
}

pub open spec fn text_of(j: Option<Json>) -> Option<Seq<char>> {
    match j {
        Some(Json::Str(s)) => Some(s@),
        _ => None,
    }
}

/// The member `key` of `j`, if `j` is an object that has one.
pub fn get_field<'a>(j: &'a Json, key: &str) -> (r: Option<&'a Json>)
    ensures
        match r {
            Some(v) => field(*j, key@) == Some(*v),
            None => field(*j, key@) is None,
        },
{
    match j {
        Json::Object(members) => {
            assert(field(*j, key@) == member_in(members@, key@));
            let wanted = String::from_str(key);
            let mut i: usize = 0;
            assert(members@.subrange(0, members@.len() as int) =~= members@);
            while i < members.len()
                invariant
                    i <= members@.len(),
                    wanted@ == key@,
                    field(*j, key@) == member_in(members@, key@),
                    member_in(members@, key@) == member_in(
                        members@.subrange(i as int, members@.len() as int),
                        key@,
                    ),
                decreases members@.len() - i,
            {
                let ghost rest = members@.subrange(i as int, members@.len() as int);
                assert(rest[0] == members@[i as int]);
                if members[i].0.eq(&wanted) {
                    assert(member_in(rest, key@) == Some(members@[i as int].1));
                    return Some(&members[i].1);
                }
                assert(rest.drop_first() =~= members@.subrange(i + 1, members@.len() as int));
                i = i + 1;
            }
            None
        },
        _ => None,
    }
}

/// Element `i` of `j`, if `j` is an array that long.
pub fn get_item<'a>(j: &'a Json, i: usize) -> (r: Option<&'a Json>)
    ensures
        match r {
            Some(v) => item(*j, i as int) == Some(*v),
            None => item(*j, i as int) is None,
        },
{
    match j {
        Json::Array(items) => {
            if i < items.len() {
                Some(&items[i])
            } else {
                None
            }
        },
        _ => None,
    }
}

fn field_in<'a>(j: Option<&'a Json>, key: &str) -> (r: Option<&'a Json>)
    ensures
        match r {
            Some(v) => field_of(
                match j {
                    Some(x) => Some(*x),
                    None => None,
                },
                key@,
            ) == Some(*v),
            None => field_of(
                match j {
                    Some(x) => Some(*x),
                    None => None,
                },
                key@,
            ) is None,
        },
{
    match j {
        Some(v) => get_field(v, key),
        None => None,
    }
}

fn item_in<'a>(j: Option<&'a Json>, i: usize) -> (r: Option<&'a Json>)
    ensures
        match r {
            Some(v) => item_of(
                match j {
                    Some(x) => Some(*x),
                    None => None,
                },
                i as int,
            ) == Some(*v),
            None => item_of(
                match j {
                    Some(x) => Some(*x),
                    None => None,
                },
                i as int,
            ) is None,
        },
{
    match j {
        Some(v) => get_item(v, i),
        None => None,
    }
}

/// The text at `results.channels[0].alternatives[0].transcript` of a
/// Deepgram answer.
pub open spec fn deepgram_text(j: Json) -> Option<Seq<char>> {
    text_of(
        field_of(
            item_of(
                field_of(item_of(field_of(field(j, "results"@), "channels"@), 0), "alternatives"@),
                0,
            ),
            "transcript"@,
        ),
    )
}

/// Reads a Deepgram answer: an `err_code` member makes it an error;
/// otherwise the transcript is the text at
/// `results.channels[0].alternatives[0].transcript`, empty when there is
/// none.
pub fn deepgram_transcript(j: &Json) -> (r: Result<String, SttError>)
    ensures
        field(*j, "err_code"@) is Some ==> r == Err::<String, SttError>(SttError::ServiceError),
        field(*j, "err_code"@) is None ==> (r matches Ok(t) && t@ == (match deepgram_text(*j) {
            Some(s) => s,
            None => Seq::<char>::empty(),
        })),
{
    if get_field(j, "err_code").is_some() {
        return Err(SttError::ServiceError);
    }
    let results = get_field(j, "results");
    let channels = field_in(results, "channels");
    let channel = item_in(channels, 0);
    let alternatives = field_in(channel, "alternatives");
    let alternative = item_in(alternatives, 0);
    let transcript = field_in(alternative, "transcript");
    match transcript {
        Some(Json::Str(s)) => Ok(s.clone()),
        _ => Ok(String::new()),
    }
}

/// Reads a JSON answer of the REST service: the transcript is its `text`
/// member, which must be a string.
pub fn rest_json_transcript(j: &Json) -> (r: Result<String, SttError>)
    ensures
        match text_of(field(*j, "text"@)) {
            Some(t) => r matches Ok(s) && s@ == t,
            None => r == Err::<String, SttError>(SttError::MissingText),
        },
{
    match get_field(j, "text") {
        Some(Json::Str(s)) => Ok(s.clone()),
        _ => Err(SttError::MissingText),
    }
}

/// How the body of a REST answer is read.
#[derive(Clone, Copy, Debug, PartialEq, Eq, Structural)]
pub enum ResponseBody {
    Json,
    PlainText,
}

pub open spec fn starts_with(s: Seq<char>, p: Seq<char>) -> bool {
    p.len() <= s.len() && s.subrange(0, p.len() as int) == p
}

/// Classifies a REST answer: only status 200 is a success; its body is JSON
/// when the content type starts with `application/json`, plain text
/// otherwise.
pub fn rest_response_body(status: u16, content_type: Option<&str>) -> (r: Result<
    ResponseBody,
    SttError,
>)
    ensures
        status != 200 ==> r == Err::<ResponseBody, SttError>(SttError::HttpStatus(status)),
        status == 200 ==> r == Ok::<ResponseBody, SttError>(
            match content_type {
                Some(c) => if starts_with(c@, "application/json"@) {
                    ResponseBody::Json
                } else {
                    ResponseBody::PlainText
                },
                None => ResponseBody::PlainText,
            },
        ),
{
    if status != 200 {
        return Err(SttError::HttpStatus(status));
    }
    match content_type {
        Some(c) => {
            let p = "application/json";
            let is_json = occurs_at_index(c, p, 0);
            proof {
                if is_json {
                    assert(c@.subrange(0, p@.len() as int) == p@);
                }
            }
            if is_json {
                Ok(ResponseBody::Json)
            } else {
                Ok(ResponseBody::PlainText)
            }
        },
        None => Ok(ResponseBody::PlainText),
    }
}

} // verus!
