//! The handshake packets and their text frames.
//!
//! A frame is one line of text. Its fields are separated by `|`; the first field is
//! the packet's tag, the others are its arguments in order.

use crate::decimal::{
    decimal, format_u32, lemma_decimal_holds_digits_only, lemma_parse_u32_decimal, parse_u32,
    parse_u32_spec,
};
use crate::text::chars_of;
use vstd::prelude::*;

pub mod listen;

verus! {

/// The character between two fields of a frame.
pub const DELIMITER: char = '|';

/// The character that ends a frame.
pub const TERMINATOR: char = '\n';

/// The protocol version that this side reports in a handshake.
pub const PROTOCOL_VERSION: u32 = 0;

/// A packet of the handshake protocol.
#[derive(PartialEq, Eq, Debug)]
pub enum Packet {
    /// A greeting that carries the sender's identifier.
    Hello(String),
    /// The answer to a greeting: the identifier again, and the answering side's
    /// protocol version.
    HelloResponse(String, u32),
    /// Stands for a frame that could not be read as a packet.
    Unknown,
}

/// A packet as a mathematical value.
pub enum PacketView {
    Hello(Seq<char>),
    HelloResponse(Seq<char>, u32),
    Unknown,
}

impl View for Packet {
    type V = PacketView;

    open spec fn view(&self) -> PacketView {
        match self {
            Packet::Hello(payload) => PacketView::Hello(payload@),
            Packet::HelloResponse(payload, version) => PacketView::HelloResponse(
                payload@,
                *version,
            ),
            Packet::Unknown => PacketView::Unknown,
        }
    }
}

/// The failure to read a line as a packet.
#[derive(Debug)]
pub struct PacketParseError;

impl PacketParseError {
    /// The text that describes the failure.
    pub fn message(&self) -> (text: String)
        ensures
            text@ == "Packet parse error occured"@,
    {
        "Packet parse error occured".to_owned()
    }
}

/// The number of characters of `s` before its first delimiter; the length of `s`
/// where it holds none.
pub open spec fn field_len(s: Seq<char>) -> nat
    decreases s.len(),
{
    if s.len() == 0 || s[0] == DELIMITER {
        0
    } else {
        1 + field_len(s.drop_first())
    }
}

/// The fields of a line: the runs of characters between its delimiters. A line
/// with `n` delimiters has `n + 1` fields, some of them possibly empty.
pub open spec fn fields(line: Seq<char>) -> Seq<Seq<char>>
    decreases line.len(),
{
    let n = field_len(line) as int;
    if n >= line.len() {
        seq![line]
    } else {
        seq![line.take(n)] + fields(line.skip(n + 1))
    }
}

/// The packet that a line stands for, if any.
///
/// The line needs at least two fields. Tag `0` makes a `Hello` of the second
/// field. Tag `1` makes a `HelloResponse` of the second field and of the third,
/// which must be there and must be an unsigned 32-bit numeral. Fields beyond
/// those are not looked at. No line stands for `Unknown`.
pub open spec fn decode(line: Seq<char>) -> Option<PacketView> {
    let f = fields(line);
    if f.len() < 2 {
        None
    } else if f[0] == seq!['0'] {
        Some(PacketView::Hello(f[1]))
    } else if f[0] == seq!['1'] {
        if f.len() < 3 {
            None
        } else {
            match parse_u32_spec(f[2]) {
                Some(version) => Some(PacketView::HelloResponse(f[1], version)),
                None => None,
            }
        }
    } else {
        None
    }
}

/// The frame of a packet without its terminator.
pub open spec fn frame_body(packet: PacketView) -> Seq<char> {
    match packet {
        PacketView::Hello(payload) => seq!['0', DELIMITER] + payload,
        PacketView::HelloResponse(payload, version) => seq!['1', DELIMITER] + payload
            + seq![DELIMITER] + decimal(version as nat),
        PacketView::Unknown => Seq::empty(),
    }
}

/// The frame of a packet: its body and the terminator.
pub open spec fn encode(packet: PacketView) -> Seq<char> {
    frame_body(packet).push(TERMINATOR)
}

/// Where the first field of a line ends, and what stands there.
pub proof fn lemma_field_len(s: Seq<char>)
    ensures
        field_len(s) <= s.len(),
        forall|i: int| 0 <= i < field_len(s) ==> s[i] != DELIMITER,
        field_len(s) < s.len() ==> s[field_len(s) as int] == DELIMITER,
    decreases s.len(),
{
    if s.len() == 0 || s[0] == DELIMITER {
    } else {
        let rest = s.drop_first();
        lemma_field_len(rest);
        assert forall|i: int| 0 <= i < field_len(s) implies s[i] != DELIMITER by {
            if i > 0 {
                assert(s[i] == rest[i - 1]);
            }
        }
        if field_len(s) < s.len() {
            assert(s[field_len(s) as int] == rest[field_len(rest) as int]);
        }
    }
}

/// A first field is known by its end: no delimiter before `n`, and at `n` a
/// delimiter or the end of the line.
pub proof fn lemma_field_len_is(s: Seq<char>, n: int)
    requires
        0 <= n <= s.len(),
        forall|i: int| 0 <= i < n ==> s[i] != DELIMITER,
        n < s.len() ==> s[n] == DELIMITER,
    ensures
        field_len(s) == n,
    decreases s.len(),
{
    if n == 0 {
    } else {
        let rest = s.drop_first();
        assert forall|i: int| 0 <= i < n - 1 implies rest[i] != DELIMITER by {
            assert(rest[i] == s[i + 1]);
        }
        lemma_field_len_is(rest, n - 1);
    }
}

/// No field holds a delimiter.
pub proof fn lemma_fields_hold_no_delimiter(line: Seq<char>, k: int)
    requires
        0 <= k < fields(line).len(),
    ensures
        !fields(line)[k].contains(DELIMITER),
    decreases line.len(),
{
    lemma_field_len(line);
    let n = field_len(line) as int;
    if n >= line.len() {
        assert(line.take(n) =~= line);
    } else if k > 0 {
        lemma_fields_hold_no_delimiter(line.skip(n + 1), k - 1);
    }
}

/// A line without a delimiter is one field.
pub proof fn lemma_fields_of_plain(s: Seq<char>)
    requires
        !s.contains(DELIMITER),
    ensures
        fields(s) == seq![s],
{
    assert forall|i: int| 0 <= i < s.len() implies s[i] != DELIMITER by {
        assert(s.contains(s[i]));
    }
    lemma_field_len_is(s, s.len() as int);
}

/// The fields of a field, a delimiter and a rest are that field and the fields of
/// the rest.
pub proof fn lemma_fields_of_joined(head: Seq<char>, rest: Seq<char>)
    requires
        !head.contains(DELIMITER),
    ensures
        fields(head + seq![DELIMITER] + rest) == seq![head] + fields(rest),
{
    let line = head + seq![DELIMITER] + rest;
    let n = head.len() as int;
    assert forall|i: int| 0 <= i < n implies line[i] != DELIMITER by {
        assert(head.contains(head[i]));
    }
    lemma_field_len_is(line, n);
    assert(line.take(n) =~= head);
    assert(line.skip(n + 1) =~= rest);
}

/// The line whose fields are `parts`: the parts in order, with one delimiter
/// between each two.
pub open spec fn joined(parts: Seq<Seq<char>>) -> Seq<char>
    decreases parts.len(),
{
    if parts.len() == 0 {
        Seq::empty()
    } else if parts.len() == 1 {
        parts[0]
    } else {
        parts[0] + seq![DELIMITER] + joined(parts.drop_first())
    }
}

/// A line is its fields joined by delimiters, and it has at least one field.
pub proof fn lemma_fields_join(line: Seq<char>)
    ensures
        fields(line).len() >= 1,
        joined(fields(line)) == line,
    decreases line.len(),
{
    lemma_field_len(line);
    let n = field_len(line) as int;
    if n < line.len() {
        let rest = line.skip(n + 1);
        lemma_fields_join(rest);
        assert(fields(line).drop_first() =~= fields(rest));
        assert(line =~= line.take(n) + seq![DELIMITER] + rest);
    }
}

/// The payload of a packet; empty for `Unknown`.
pub open spec fn payload_of(packet: PacketView) -> Seq<char> {
    match packet {
        PacketView::Hello(payload) => payload,
        PacketView::HelloResponse(payload, _) => payload,
        PacketView::Unknown => Seq::empty(),
    }
}

/// Round trip: the frame of a `Hello` or a `HelloResponse` whose payload holds no
/// delimiter ends in the terminator, and what stands before the terminator reads
/// back as that packet.
pub proof fn lemma_decode_encode(packet: PacketView)
    requires
        !(packet is Unknown),
        !payload_of(packet).contains(DELIMITER),
    ensures
        encode(packet).last() == TERMINATOR,
        decode(encode(packet).drop_last()) == Some(packet),
{
    let body = frame_body(packet);
    assert(encode(packet).drop_last() =~= body);
    match packet {
        PacketView::Hello(payload) => {
            assert(body =~= seq!['0'] + seq![DELIMITER] + payload);
            assert(!seq!['0'].contains(DELIMITER));
            lemma_fields_of_joined(seq!['0'], payload);
            lemma_fields_of_plain(payload);
        },
        PacketView::HelloResponse(payload, version) => {
            let numeral = decimal(version as nat);
            let rest = payload + seq![DELIMITER] + numeral;
            assert(body =~= seq!['1'] + seq![DELIMITER] + rest);
            assert(!seq!['1'].contains(DELIMITER));
            lemma_fields_of_joined(seq!['1'], rest);
            lemma_fields_of_joined(payload, numeral);
            lemma_decimal_holds_digits_only(version as nat, DELIMITER);
            lemma_fields_of_plain(numeral);
            lemma_parse_u32_decimal(version);
        },
        PacketView::Unknown => {},
    }
}

/// A frame is one line: where the payload holds no terminator, neither does the
/// body of the frame, so the only terminator of the frame is its last character.
pub proof fn lemma_frame_is_one_line(packet: PacketView)
    requires
        !payload_of(packet).contains(TERMINATOR),
    ensures
        !frame_body(packet).contains(TERMINATOR),
        encode(packet).last() == TERMINATOR,
{
    let body = frame_body(packet);
    if body.contains(TERMINATOR) {
        let i = choose|i: int| 0 <= i < body.len() && body[i] == TERMINATOR;
        match packet {
            PacketView::Hello(payload) => {
                assert(body[i] == payload[i - 2]);
            },
            PacketView::HelloResponse(payload, version) => {
                let numeral = decimal(version as nat);
                lemma_decimal_holds_digits_only(version as nat, TERMINATOR);
                if i < 2 + payload.len() {
                    assert(body[i] == payload[i - 2]);
                } else if i > 2 + payload.len() {
                    assert(body[i] == numeral[i - 3 - payload.len()]);
                }
            },
            PacketView::Unknown => {},
        }
    }
}

/// The lines that stand for no packet: the empty line; a line that is only a
/// tag, or has fewer than two fields for any other reason; a line whose tag is
/// neither `0` nor `1`; a line with the tag `1` whose third field is missing or
/// is no unsigned 32-bit numeral. And no line stands for `Unknown`.
pub proof fn lemma_decode_rejects(line: Seq<char>)
    ensures
        line.len() == 0 ==> decode(line).is_none(),
        !line.contains(DELIMITER) ==> decode(line).is_none(),
        fields(line).len() < 2 ==> decode(line).is_none(),
        fields(line)[0] != seq!['0'] && fields(line)[0] != seq!['1'] ==> decode(line).is_none(),
        fields(line)[0] == seq!['1'] && fields(line).len() < 3 ==> decode(line).is_none(),
        fields(line)[0] == seq!['1'] && fields(line).len() >= 3 && parse_u32_spec(
            fields(line)[2],
        ).is_none() ==> decode(line).is_none(),
        decode(line) != Some(PacketView::Unknown),
{
    if !line.contains(DELIMITER) {
        lemma_fields_of_plain(line);
    }
    assert(seq!['0'][0] != seq!['1'][0]);
}

/// Where the field that starts at `start` ends: at the next delimiter, or at
/// the end of the line.
fn field_end(chars: &Vec<char>, start: usize) -> (end: usize)
    requires
        start <= chars.len(),
    ensures
        start <= end <= chars.len(),
        fields(chars@.skip(start as int)) == if end < chars.len() {
            seq![chars@.subrange(start as int, end as int)] + fields(chars@.skip(end + 1))
        } else {
            seq![chars@.subrange(start as int, end as int)]
        },
{
    let mut end: usize = start;
    while end < chars.len() && chars[end] != DELIMITER
        invariant
            start <= end <= chars.len(),
            forall|i: int| start <= i < end ==> chars@[i] != DELIMITER,
        decreases chars.len() - end,
    {
        end += 1;
    }
    proof {
        let rest = chars@.skip(start as int);
        lemma_field_len_is(rest, end - start);
        assert(rest.take(end - start) =~= chars@.subrange(start as int, end as int));
        if end < chars.len() {
            assert(rest.skip(end - start + 1) =~= chars@.skip(end + 1));
        }
    }
    end
}

/// Reads one line, without its terminator, as a packet.
///
/// Succeeds exactly on the lines that stand for a packet, with that packet, and
/// fails on every other line.
pub fn parse_packet(packet: &str) -> (r: Result<Packet, PacketParseError>)
    ensures
        match r {
            Ok(p) => decode(packet@) == Some(p@),
            Err(_) => decode(packet@).is_none(),
        },
{
    let chars = chars_of(packet);
    let n = chars.len();
    let tag_end = field_end(&chars, 0);
    assert(chars@.skip(0) =~= packet@);
    if tag_end == n {
        return Err(PacketParseError);
    }
    let data_end = field_end(&chars, tag_end + 1);
    if tag_end != 1 {
        assert(fields(packet@)[0].len() != 1);
        return Err(PacketParseError);
    }
    let tag = chars[0];
    assert(fields(packet@)[0] =~= seq![tag]);
    if tag == '0' {
        let payload = packet.substring_char(tag_end + 1, data_end).to_owned();
        Ok(Packet::Hello(payload))
    } else if tag == '1' {
        if data_end == n {
            return Err(PacketParseError);
        }
        let version_end = field_end(&chars, data_end + 1);
        match parse_u32(&chars, data_end + 1, version_end) {
            Some(version) => {
                let payload = packet.substring_char(tag_end + 1, data_end).to_owned();
                Ok(Packet::HelloResponse(payload, version))
            },
            None => Err(PacketParseError),
        }
    } else {
        Err(PacketParseError)
    }
}

impl Packet {
    /// The frame of this packet: `0|payload` for a `Hello`, `1|payload|version` for
    /// a `HelloResponse`, nothing for `Unknown`; in each case followed by the
    /// terminator.
    pub fn encode(&self) -> (frame: String)
        ensures
            frame@ == encode(self@),
    {
        proof {
            reveal_strlit("0|");
            reveal_strlit("1|");
            reveal_strlit("|");
            reveal_strlit("\n");
        }
        match self {
            Packet::Hello(payload) => {
                let mut frame = "0|".to_owned();
                frame.append(payload.as_str());
                frame.append("\n");
                assert(frame@ =~= encode(self@));
                frame
            },
            Packet::HelloResponse(payload, version) => {
                let mut frame = "1|".to_owned();
                frame.append(payload.as_str());
                frame.append("|");
                let numeral = format_u32(*version);
                frame.append(numeral.as_str());
                frame.append("\n");
                assert(frame@ =~= encode(self@));
                frame
            },
            Packet::Unknown => {
                let frame = "\n".to_owned();
                assert(frame@ =~= encode(self@));
                frame
            },
        }
    }
}

} // verus!
