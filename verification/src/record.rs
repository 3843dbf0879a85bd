//! The output record: one response as one line of JSON.
//!
//! A record is an object with the members `target`, `error` and `ssh_info`,
//! in that order and without white space. An absent member is written
//! `null`.

use crate::json::{
    after_word, is_plain, lemma_after_word, lemma_decimal_is_plain, lemma_quoted_is_plain,
    lemma_take_number, lemma_take_string, push_quoted, quoted, read_port, read_string, read_word,
    take_number, take_string,
};
use crate::model::{
    info_of, text_of, Response, ResponseView, SshInfo, SshInfoView, Target, TargetView,
};
use crate::text::{chars_of, decimal, push_decimal};
use vstd::prelude::*;
use vstd::string::StringExecFns;

verus! {

/// An optional text as JSON: the string, or `null`.
pub open spec fn optional_text(text: Option<Seq<char>>) -> Seq<char> {
    match text {
        Some(t) => quoted(t),
        None => "null"@,
    }
}

/// A target as JSON.
pub open spec fn target_text(target: TargetView) -> Seq<char> {
    "{\"ip\":"@ + quoted(target.ip) + ",\"port\":"@ + decimal(target.port as nat) + "}"@
}

/// Probe metadata as JSON.
pub open spec fn info_text(info: SshInfoView) -> Seq<char> {
    "{\"banner\":"@ + optional_text(info.banner) + ",\"auth_methods\":"@ + quoted(
        info.auth_methods,
    ) + "}"@
}

/// Optional probe metadata as JSON: the object, or `null`.
pub open spec fn optional_info(info: Option<SshInfoView>) -> Seq<char> {
    match info {
        Some(i) => info_text(i),
        None => "null"@,
    }
}

/// The record of a response.
pub open spec fn record_text(response: ResponseView) -> Seq<char> {
    "{\"target\":"@ + target_text(response.target) + ",\"error\":"@ + optional_text(
        response.error,
    ) + ",\"ssh_info\":"@ + optional_info(response.ssh_info) + "}"@
}

/// Appends an optional text as JSON.
fn push_optional_text(out: &mut String, text: &Option<String>)
    ensures
        final(out)@ == old(out)@ + optional_text(text_of(*text)),
{
    match text {
        Some(t) => push_quoted(out, t.as_str()),
        None => out.append("null"),
    }
}

/// Appends a target as JSON.
fn push_target(out: &mut String, target: &Target)
    ensures
        final(out)@ == old(out)@ + target_text(target@),
{
    out.append("{\"ip\":");
    push_quoted(out, target.ip.as_str());
    out.append(",\"port\":");
    push_decimal(out, target.port);
    out.append("}");
    assert(out@ == old(out)@ + target_text(target@));
}

/// Appends probe metadata as JSON.
fn push_info(out: &mut String, info: &SshInfo)
    ensures
        final(out)@ == old(out)@ + info_text(info@),
{
    out.append("{\"banner\":");
    push_optional_text(out, &info.banner);
    out.append(",\"auth_methods\":");
    push_quoted(out, info.auth_methods.as_str());
    out.append("}");
}

/// The record of a response holds no control character, so no line break:
/// whatever the texts of the response hold, its record is one line.
pub proof fn lemma_record_is_plain(response: ResponseView)
    ensures
        is_plain(record_text(response)),
{
    reveal_strlit("null");
    reveal_strlit("}");
    reveal_strlit("{\"ip\":");
    reveal_strlit(",\"port\":");
    reveal_strlit("{\"banner\":");
    reveal_strlit(",\"auth_methods\":");
    reveal_strlit("{\"target\":");
    reveal_strlit(",\"error\":");
    reveal_strlit(",\"ssh_info\":");
    lemma_quoted_is_plain(response.target.ip);
    lemma_decimal_is_plain(response.target.port as nat);
    match response.error {
        Some(text) => lemma_quoted_is_plain(text),
        None => {},
    }
    assert(is_plain(optional_text(response.error)));
    match response.ssh_info {
        Some(info) => {
            match info.banner {
                Some(text) => lemma_quoted_is_plain(text),
                None => {},
            }
            assert(is_plain(optional_text(info.banner)));
            lemma_quoted_is_plain(info.auth_methods);
        },
        None => {},
    }
}

/// Writes the record of a response: one line of text, without the line
/// end.
pub fn encode(response: &Response) -> (line: String)
    ensures
        line@ == record_text(response@),
        is_plain(line@),
{
    proof {
        lemma_record_is_plain(response@);
    }
    let mut out = String::new();
    out.append("{\"target\":");
    push_target(&mut out, response.target());
    out.append(",\"error\":");
    push_optional_text(&mut out, response.error());
    out.append(",\"ssh_info\":");
    match response.ssh_info() {
        Some(info) => push_info(&mut out, info),
        None => out.append("null"),
    }
    out.append("}");
    assert(out@ == record_text(response@));
    out
}

/// The optional text at the front of `s`, and what is left behind it.
pub open spec fn take_optional_text(s: Seq<char>) -> Option<(Option<Seq<char>>, Seq<char>)> {
    if s.len() > 0 && s[0] == '"' {
        match take_string(s) {
            Some((text, rest)) => Some((Some(text), rest)),
            None => None,
        }
    } else {
        match after_word(s, "null"@) {
            Some(rest) => Some((None, rest)),
            None => None,
        }
    }
}

/// The target at the front of `s`, and what is left behind it.
pub open spec fn take_target(s: Seq<char>) -> Option<(TargetView, Seq<char>)> {
    match after_word(s, "{\"ip\":"@) {
        Some(s1) => match take_string(s1) {
            Some((ip, s2)) => match after_word(s2, ",\"port\":"@) {
                Some(s3) => match take_number(s3) {
                    Some((port, s4)) => match after_word(s4, "}"@) {
                        Some(s5) => Some((TargetView { ip, port }, s5)),
                        None => None,
                    },
                    None => None,
                },
                None => None,
            },
            None => None,
        },
        None => None,
    }
}

/// The probe metadata at the front of `s`, and what is left behind it.
pub open spec fn take_info(s: Seq<char>) -> Option<(SshInfoView, Seq<char>)> {
    match after_word(s, "{\"banner\":"@) {
        Some(s1) => match take_optional_text(s1) {
            Some((banner, s2)) => match after_word(s2, ",\"auth_methods\":"@) {
                Some(s3) => match take_string(s3) {
                    Some((auth_methods, s4)) => match after_word(s4, "}"@) {
                        Some(s5) => Some((SshInfoView { banner, auth_methods }, s5)),
                        None => None,
                    },
                    None => None,
                },
                None => None,
            },
            None => None,
        },
        None => None,
    }
}

/// The optional probe metadata at the front of `s`, and what is left
/// behind it.
pub open spec fn take_optional_info(s: Seq<char>) -> Option<(Option<SshInfoView>, Seq<char>)> {
    if s.len() > 0 && s[0] == '{' {
        match take_info(s) {
            Some((info, rest)) => Some((Some(info), rest)),
            None => None,
        }
    } else {
        match after_word(s, "null"@) {
            Some(rest) => Some((None, rest)),
            None => None,
        }
    }
}

/// The response that the text `s` reads as: the three members in their
/// order, nothing behind them, and exactly one of the error and the
/// metadata present.
pub open spec fn read_record(s: Seq<char>) -> Option<ResponseView> {
    match after_word(s, "{\"target\":"@) {
        Some(s1) => match take_target(s1) {
            Some((target, s2)) => match after_word(s2, ",\"error\":"@) {
                Some(s3) => match take_optional_text(s3) {
                    Some((error, s4)) => match after_word(s4, ",\"ssh_info\":"@) {
                        Some(s5) => match take_optional_info(s5) {
                            Some((ssh_info, s6)) => match after_word(s6, "}"@) {
                                Some(s7) => {
                                    let response = ResponseView { target, error, ssh_info };
                                    if s7.len() == 0 && response.wf() {
                                        Some(response)
                                    } else {
                                        None
                                    }
                                },
                                None => None,
                            },
                            None => None,
                        },
                        None => None,
                    },
                    None => None,
                },
                None => None,
            },
            None => None,
        },
        None => None,
    }
}

/// Reading a written optional text gives it back.
proof fn lemma_take_optional_text(text: Option<Seq<char>>, rest: Seq<char>)
    ensures
        take_optional_text(optional_text(text) + rest) == Some((text, rest)),
{
    match text {
        Some(t) => {
            lemma_take_string(t, rest);
        },
        None => {
            reveal_strlit("null");
            lemma_after_word("null"@, rest);
        },
    }
}

/// Reading a written target gives it back.
proof fn lemma_take_target(target: TargetView, rest: Seq<char>)
    ensures
        take_target(target_text(target) + rest) == Some((target, rest)),
{
    let s5 = rest;
    let s4 = "}"@ + s5;
    let s3 = decimal(target.port as nat) + s4;
    let s2 = ",\"port\":"@ + s3;
    let s1 = quoted(target.ip) + s2;
    let s = "{\"ip\":"@ + s1;
    assert(target_text(target) + rest == s);
    lemma_after_word("{\"ip\":"@, s1);
    lemma_take_string(target.ip, s2);
    lemma_after_word(",\"port\":"@, s3);
    reveal_strlit("}");
    lemma_take_number(target.port, s4);
    lemma_after_word("}"@, s5);
}

/// Reading written probe metadata gives it back.
proof fn lemma_take_info(info: SshInfoView, rest: Seq<char>)
    ensures
        take_info(info_text(info) + rest) == Some((info, rest)),
        (info_text(info) + rest).len() > 0,
        (info_text(info) + rest)[0] == '{',
{
    let s5 = rest;
    let s4 = "}"@ + s5;
    let s3 = quoted(info.auth_methods) + s4;
    let s2 = ",\"auth_methods\":"@ + s3;
    let s1 = optional_text(info.banner) + s2;
    let s = "{\"banner\":"@ + s1;
    assert(info_text(info) + rest == s);
    lemma_after_word("{\"banner\":"@, s1);
    lemma_take_optional_text(info.banner, s2);
    lemma_after_word(",\"auth_methods\":"@, s3);
    lemma_take_string(info.auth_methods, s4);
    lemma_after_word("}"@, s5);
    reveal_strlit("{\"banner\":");
}

/// Reading written optional probe metadata gives it back.
proof fn lemma_take_optional_info(info: Option<SshInfoView>, rest: Seq<char>)
    ensures
        take_optional_info(optional_info(info) + rest) == Some((info, rest)),
{
    match info {
        Some(i) => {
            lemma_take_info(i, rest);
        },
        None => {
            reveal_strlit("null");
            lemma_after_word("null"@, rest);
        },
    }
}

/// Reading the record of a response gives the response.
pub proof fn lemma_read_record(response: ResponseView)
    requires
        response.wf(),
    ensures
        read_record(record_text(response)) == Some(response),
{
    let s7 = Seq::<char>::empty();
    let s6 = "}"@ + s7;
    let s5 = optional_info(response.ssh_info) + s6;
    let s4 = ",\"ssh_info\":"@ + s5;
    let s3 = optional_text(response.error) + s4;
    let s2 = ",\"error\":"@ + s3;
    let s1 = target_text(response.target) + s2;
    let s = "{\"target\":"@ + s1;
    assert(record_text(response) == s);
    lemma_after_word("{\"target\":"@, s1);
    lemma_take_target(response.target, s2);
    lemma_after_word(",\"error\":"@, s3);
    lemma_take_optional_text(response.error, s4);
    lemma_after_word(",\"ssh_info\":"@, s5);
    lemma_take_optional_info(response.ssh_info, s6);
    lemma_after_word("}"@, s7);
}

/// Two responses with the same record are the same response.
pub proof fn lemma_record_names_one_response(a: ResponseView, b: ResponseView)
    requires
        a.wf(),
        b.wf(),
        record_text(a) == record_text(b),
    ensures
        a == b,
{
    lemma_read_record(a);
    lemma_read_record(b);
}

/// Whether `r` is what reading the line `line` gives: the response whose
/// record the line is, or nothing where the line is the record of no
/// response.
pub open spec fn is_decoding_of(r: Option<ResponseView>, line: Seq<char>) -> bool {
    match r {
        Some(response) => response.wf() && record_text(response) == line,
        None => forall|v: ResponseView| v.wf() ==> #[trigger] record_text(v) != line,
    }
}

/// Writing a response and reading the line back gives the response, equal
/// in every field.
pub proof fn lemma_round_trip(response: ResponseView, r: Option<ResponseView>)
    requires
        response.wf(),
        is_decoding_of(r, record_text(response)),
    ensures
        r == Some(response),
{
    if let Some(other) = r {
        lemma_record_names_one_response(response, other);
    }
}

/// The content of an optional response.
pub open spec fn response_of(r: Option<Response>) -> Option<ResponseView> {
    match r {
        Some(response) => Some(response@),
        None => None,
    }
}

/// Reads the optional text at the place `pos` of `chars`.
fn read_optional_text(chars: &Vec<char>, pos: usize) -> (r: Option<(Option<String>, usize)>)
    requires
        pos <= chars.len(),
    ensures
        match r {
            Some((text, next)) => pos <= next <= chars.len() && take_optional_text(
                chars@.skip(pos as int),
            ) == Some((text_of(text), chars@.skip(next as int))),
            None => take_optional_text(chars@.skip(pos as int)) is None,
        },
{
    if pos < chars.len() && chars[pos] == '"' {
        match read_string(chars, pos) {
            Some((text, next)) => Some((Some(text), next)),
            None => None,
        }
    } else {
        match read_word(chars, pos, "null") {
            Some(next) => Some((None, next)),
            None => None,
        }
    }
}

/// Reads the target at the place `pos` of `chars`.
fn read_target(chars: &Vec<char>, pos: usize) -> (r: Option<(Target, usize)>)
    requires
        pos <= chars.len(),
    ensures
        match r {
            Some((target, next)) => pos <= next <= chars.len() && take_target(
                chars@.skip(pos as int),
            ) == Some((target@, chars@.skip(next as int))),
            None => take_target(chars@.skip(pos as int)) is None,
        },
{
    let at = read_word(chars, pos, "{\"ip\":")?;
    let (ip, at) = read_string(chars, at)?;
    let at = read_word(chars, at, ",\"port\":")?;
    let (port, at) = read_port(chars, at)?;
    let at = read_word(chars, at, "}")?;
    Some((Target { ip, port }, at))
}

/// Reads the probe metadata at the place `pos` of `chars`.
fn read_info(chars: &Vec<char>, pos: usize) -> (r: Option<(SshInfo, usize)>)
    requires
        pos <= chars.len(),
    ensures
        match r {
            Some((info, next)) => pos <= next <= chars.len() && take_info(chars@.skip(pos as int))
                == Some((info@, chars@.skip(next as int))),
            None => take_info(chars@.skip(pos as int)) is None,
        },
{
    let at = read_word(chars, pos, "{\"banner\":")?;
    let (banner, at) = read_optional_text(chars, at)?;
    let at = read_word(chars, at, ",\"auth_methods\":")?;
    let (auth_methods, at) = read_string(chars, at)?;
    let at = read_word(chars, at, "}")?;
    Some((SshInfo { banner, auth_methods }, at))
}

/// Reads the optional probe metadata at the place `pos` of `chars`.
fn read_optional_info(chars: &Vec<char>, pos: usize) -> (r: Option<(Option<SshInfo>, usize)>)
    requires
        pos <= chars.len(),
    ensures
        match r {
            Some((info, next)) => pos <= next <= chars.len() && take_optional_info(
                chars@.skip(pos as int),
            ) == Some((info_of(info), chars@.skip(next as int))),
            None => take_optional_info(chars@.skip(pos as int)) is None,
        },
{
    if pos < chars.len() && chars[pos] == '{' {
        match read_info(chars, pos) {
            Some((info, next)) => Some((Some(info), next)),
            None => None,
        }
    } else {
        match read_word(chars, pos, "null") {
            Some(next) => Some((None, next)),
            None => None,
        }
    }
}

/// Reads `chars` as a record.
fn parse_record(chars: &Vec<char>) -> (r: Option<Response>)
    ensures
        response_of(r) == read_record(chars@),
{
    let at = read_word(chars, 0, "{\"target\":")?;
    let (target, at) = read_target(chars, at)?;
    let at = read_word(chars, at, ",\"error\":")?;
    let (error, at) = read_optional_text(chars, at)?;
    let at = read_word(chars, at, ",\"ssh_info\":")?;
    let (ssh_info, at) = read_optional_info(chars, at)?;
    let at = read_word(chars, at, "}")?;
    if at != chars.len() {
        return None;
    }
    match (error, ssh_info) {
        (Some(message), None) => Some(Response::failure(target, message)),
        (None, Some(info)) => Some(Response::success(target, info)),
        _ => None,
    }
}

/// Reads a line as the record of a response. Only a line that [`encode`]
/// writes is a record: the same members in the same order, no white space,
/// the same escapes, the port without leading zeros. Reading the record of a
/// response gives that response back.
pub fn decode(line: &str) -> (r: Option<Response>)
    ensures
        is_decoding_of(response_of(r), line@),
        forall|v: ResponseView|
            v.wf() && #[trigger] record_text(v) == line@ ==> response_of(r) == Some(v),
{
    let chars = chars_of(line);
    proof {
        assert forall|v: ResponseView|
            v.wf() && #[trigger] record_text(v) == line@ implies read_record(line@) == Some(v) by {
            lemma_read_record(v);
        }
    }
    match parse_record(&chars) {
        Some(response) => {
            if encode(&response) == line.to_owned() {
                Some(response)
            } else {
                None
            }
        },
        None => None,
    }
}

} // verus!
