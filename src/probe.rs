//! The `ReadInfo` handshake that identifies a WiFi screen behind a serial port.

use vstd::prelude::*;
use crate::text::{
    find_either_from, find_pattern, first_match_from, find_from, parse_u16, parse_u16_spec,
    to_ascii_upper, upper_seq,
};

verus! {

/// Resolution reported when the reply carries no usable size.
pub const PROBE_DEFAULT_SIZE: u16 = 240;

/// `ESP32-WIFI-SCREEN`, the identification token of the reply (matched in any ASCII case).
pub open spec fn id_token() -> Seq<u8> {
    seq![69u8, 83u8, 80u8, 51u8, 50u8, 45u8, 87u8, 73u8, 70u8, 73u8, 45u8, 83u8, 67u8, 82u8, 69u8, 69u8, 78u8]
}

/// `PROTO:USB-SCREEN`, the protocol tag of the reply.
pub open spec fn proto_tag() -> Seq<u8> {
    seq![80u8, 82u8, 79u8, 84u8, 79u8, 58u8, 85u8, 83u8, 66u8, 45u8, 83u8, 67u8, 82u8, 69u8, 69u8, 78u8]
}

/// `ReadInfo\n`, the command written to the port.
pub open spec fn probe_command_bytes() -> Seq<u8> {
    seq![82u8, 101u8, 97u8, 100u8, 73u8, 110u8, 102u8, 111u8, 10u8]
}

/// The command written to a port to ask for its identity.
pub fn probe_command() -> (r: Vec<u8>)
    ensures
        r@ == probe_command_bytes(),
{
    vec![82u8, 101, 97, 100, 73, 110, 102, 111, 10]
}

fn id_token_exec() -> (r: Vec<u8>)
    ensures
        r@ == id_token(),
{
    vec![69u8, 83, 80, 51, 50, 45, 87, 73, 70, 73, 45, 83, 67, 82, 69, 69, 78]
}

fn proto_tag_exec() -> (r: Vec<u8>)
    ensures
        r@ == proto_tag(),
{
    vec![80u8, 82, 79, 84, 79, 58, 85, 83, 66, 45, 83, 67, 82, 69, 69, 78]
}

/// The size carried by a reply payload that starts at the token:
/// `TOKEN;<w>;<h>;...`, or the default when the fields are missing or not positive.
pub open spec fn payload_size(p: Seq<u8>) -> (u16, u16) {
    let s1 = first_match_from(p, 59, 59, 0);
    let s2 = first_match_from(p, 59, 59, s1 + 1);
    let s3 = first_match_from(p, 59, 59, s2 + 1);
    if s3 < p.len() {
        match (parse_u16_spec(p.subrange(s1 + 1, s2)), parse_u16_spec(p.subrange(s2 + 1, s3))) {
            (Some(w), Some(h)) => if w > 0 && h > 0 {
                (w, h)
            } else {
                (PROBE_DEFAULT_SIZE, PROBE_DEFAULT_SIZE)
            },
            _ => (PROBE_DEFAULT_SIZE, PROBE_DEFAULT_SIZE),
        }
    } else {
        (PROBE_DEFAULT_SIZE, PROBE_DEFAULT_SIZE)
    }
}

/// The screen size announced by a reply line, if the line identifies a WiFi screen:
/// it holds the token (in any ASCII case) and, after it, the protocol tag.
pub open spec fn probe_response_spec(line: Seq<u8>) -> Option<(u16, u16)> {
    match find_from(upper_seq(line), id_token(), 0) {
        None => None,
        Some(idx) => {
            let p = line.subrange(idx, line.len() as int);
            if find_from(p, proto_tag(), 0) is Some {
                Some(payload_size(p))
            } else {
                None
            }
        },
    }
}

/// Index of the first newline in `buf`, if any.
pub open spec fn newline_at(buf: Seq<u8>) -> int {
    first_match_from(buf, 10, 10, 0)
}

/// Where a probe stands after the bytes read so far.
#[derive(Clone, Copy, Debug)]
pub enum ProbeReply {
    /// No complete line yet: keep reading until the wait is over.
    Pending,
    /// A line arrived; `Some` size if it identifies a WiFi screen.
    Answered(Option<(u16, u16)>),
}

/// Parses one reply line (without its newline).
pub fn parse_probe_response(line: &[u8]) -> (r: Option<(u16, u16)>)
    ensures
        r == probe_response_spec(line@),
{
    let upper = to_ascii_upper(line);
    let token = id_token_exec();
    let idx = match find_pattern(upper.as_slice(), token.as_slice()) {
        None => {
            return None;
        },
        Some(i) => i,
    };
    proof {
        assert(idx + id_token().len() <= line@.len()) by {
            lemma_find_from_bounds(upper_seq(line@), id_token(), 0);
        }
    }
    let p = &line[idx..line.len()];
    assert(p@ == line@.subrange(idx as int, line@.len() as int));
    let tag = proto_tag_exec();
    if find_pattern(p, tag.as_slice()).is_none() {
        return None;
    }
    let s1 = find_either_from(p, 59, 59, 0);
    if s1 >= p.len() {
        return Some((PROBE_DEFAULT_SIZE, PROBE_DEFAULT_SIZE));
    }
    let s2 = find_either_from(p, 59, 59, s1 + 1);
    if s2 >= p.len() {
        proof {
            assert(first_match_from(p@, 59, 59, s2 + 1) == p@.len());
        }
        return Some((PROBE_DEFAULT_SIZE, PROBE_DEFAULT_SIZE));
    }
    let s3 = find_either_from(p, 59, 59, s2 + 1);
    if s3 >= p.len() {
        return Some((PROBE_DEFAULT_SIZE, PROBE_DEFAULT_SIZE));
    }
    let w = parse_u16(p, s1 + 1, s2);
    let h = parse_u16(p, s2 + 1, s3);
    match (w, h) {
        (Some(w), Some(h)) => {
            if w > 0 && h > 0 {
                Some((w, h))
            } else {
                Some((PROBE_DEFAULT_SIZE, PROBE_DEFAULT_SIZE))
            }
        },
        _ => Some((PROBE_DEFAULT_SIZE, PROBE_DEFAULT_SIZE)),
    }
}

/// Decides on the bytes read so far from a probed port: the reply is the
/// first line, and nothing after its newline counts.
pub fn probe_reply(buf: &[u8]) -> (r: ProbeReply)
    ensures
        newline_at(buf@) >= buf@.len() ==> r == ProbeReply::Pending,
        newline_at(buf@) < buf@.len() ==> r == ProbeReply::Answered(
            probe_response_spec(buf@.subrange(0, newline_at(buf@))),
        ),
{
    let pos = find_either_from(buf, 10, 10, 0);
    if pos >= buf.len() {
        ProbeReply::Pending
    } else {
        let line = &buf[0..pos];
        ProbeReply::Answered(parse_probe_response(line))
    }
}

/// A match found by `find_from` lies inside the searched sequence.
proof fn lemma_find_from_bounds(s: Seq<u8>, pat: Seq<u8>, i: int)
    ensures
        find_from(s, pat, i) matches Some(j) ==> i <= j && j + pat.len() <= s.len(),
    decreases s.len() + 1 - i,
{
    if i < 0 || i + pat.len() > s.len() {
    } else if crate::text::occurs_at(s, pat, i) {
    } else {
        lemma_find_from_bounds(s, pat, i + 1);
    }
}

} // verus!
