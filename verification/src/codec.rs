//! The envelope codec: a restricted scanner for the text envelopes the
//! protocol exchanges, and builders for every text the server emits.
//!
//! An envelope is a brace-enclosed text that carries an `"opcode"` field (a
//! quoted name) and, for conversational messages, a numeric `"contextId"`
//! field. The scanner looks the fields up by key rather than parsing the
//! whole text, which is exactly as tolerant as a test double needs to be.

use vstd::prelude::*;

use crate::frames::BodyView;
use crate::frames::BroadcastTrigger;
use crate::frames::MessageBody;
use crate::frames::MessagePath;
use crate::frames::NumField;
use crate::text::chars_of;
use crate::text::dec_digits;
use crate::text::digits_end;
use crate::text::digits_end_spec;
use crate::text::find_from;
use crate::text::find_key;
use crate::text::is_digit;
use crate::text::match_at;
use crate::text::num_of;
use crate::text::occurs_at;
use crate::text::parse_u64;
use crate::text::skip_ws;
use crate::text::skip_ws_spec;
use crate::text::string_of;
use crate::text::sub_chars;
use crate::text::u64_digits;
use crate::text::contains_seq;

verus! {

/// The key of the opcode field, quotes included.
pub open spec fn opcode_key() -> Seq<char> {
    "\"opcode\""@
}

/// The key of the context-id field, quotes included.
pub open spec fn context_key() -> Seq<char> {
    "\"contextId\""@
}

/// The key of a trigger's batch-size field, quotes included.
pub open spec fn batch_key() -> Seq<char> {
    "\"batchSize\""@
}

/// The key of a trigger's signal-position field, quotes included.
pub open spec fn signal_key() -> Seq<char> {
    "\"signalPosition\""@
}

/// The prefix of a protocol-shaped text: an envelope as this codec emits it.
pub open spec fn protocol_prefix() -> Seq<char> {
    "{\"opcode\":"@
}

fn opcode_key_chars() -> (r: Vec<char>)
    ensures
        r@ == opcode_key(),
{
    chars_of("\"opcode\"")
}

fn context_key_chars() -> (r: Vec<char>)
    ensures
        r@ == context_key(),
{
    chars_of("\"contextId\"")
}

fn batch_key_chars() -> (r: Vec<char>)
    ensures
        r@ == batch_key(),
{
    chars_of("\"batchSize\"")
}

fn signal_key_chars() -> (r: Vec<char>)
    ensures
        r@ == signal_key(),
{
    chars_of("\"signalPosition\"")
}

/// Every character of a digit run is a digit.
proof fn lemma_digits_end_all(s: Seq<char>, i: nat)
    requires
        i <= s.len(),
    ensures
        forall|j: int| i <= j < digits_end_spec(s, i) ==> is_digit(s[j]),
    decreases s.len() - i,
{
    if i < s.len() && is_digit(s[i as int]) {
        lemma_digits_end_all(s, (i + 1) as nat);
    }
}

/// What scanning `s` for the numeric field `key` yields: absent when the key
/// does not occur; malformed when no colon and digit run follow it, or when
/// the value overflows a `u64`; otherwise the value.
pub open spec fn spec_u64_field(s: Seq<char>, key: Seq<char>) -> NumField {
    match find_from(s, key, 0) {
        Option::None => NumField::Absent,
        Option::Some(k) => {
            let i = skip_ws_spec(s, (k + key.len()) as nat);
            if i >= s.len() || s[i as int] != ':' {
                NumField::Malformed
            } else {
                let j = skip_ws_spec(s, (i + 1) as nat);
                let e = digits_end_spec(s, j);
                if e == j {
                    NumField::Malformed
                } else if num_of(s.subrange(j as int, e as int)) > u64::MAX {
                    NumField::Malformed
                } else {
                    NumField::Present(num_of(s.subrange(j as int, e as int)) as u64)
                }
            }
        },
    }
}

/// Scans `s` for the numeric field named by `key`.
pub fn u64_field(s: &Vec<char>, key: &Vec<char>) -> (r: NumField)
    ensures
        r == spec_u64_field(s@, key@),
{
    match find_key(s, key, 0) {
        Option::None => NumField::Absent,
        Option::Some(k) => {
            proof {
                crate::text::lemma_find_from_in_bounds(s@, key@, 0);
            }
            let slen = s.len();
            let i = skip_ws(s, k + key.len());
            if i >= slen {
                NumField::Malformed
            } else if s[i] != ':' {
                NumField::Malformed
            } else {
                let j = skip_ws(s, i + 1);
                let e = digits_end(s, j);
                if e == j {
                    NumField::Malformed
                } else {
                    proof {
                        lemma_digits_end_all(s@, j as nat);
                    }
                    match parse_u64(s, j, e) {
                        Option::Some(v) => NumField::Present(v),
                        Option::None => NumField::Malformed,
                    }
                }
            }
        },
    }
}

/// What decoding a text yields: `None` when the text is not an envelope (it
/// does not open with a brace, has no opcode field, or has a malformed
/// context id); otherwise the opcode and the path.
pub open spec fn spec_unmarshal(s: Seq<char>) -> Option<BodyView> {
    let start = skip_ws_spec(s, 0);
    if start >= s.len() || s[start as int] != '{' {
        Option::None
    } else {
        match find_from(s, opcode_key(), 0) {
            Option::None => Option::None,
            Option::Some(k) => {
                let i = skip_ws_spec(s, (k + opcode_key().len()) as nat);
                if i >= s.len() || s[i as int] != ':' {
                    Option::None
                } else {
                    let j = skip_ws_spec(s, (i + 1) as nat);
                    if j >= s.len() || s[j as int] != '"' {
                        Option::None
                    } else {
                        match find_from(s, seq!['"'], (j + 1) as nat) {
                            Option::None => Option::None,
                            Option::Some(e) => {
                                let op = s.subrange(j + 1 as int, e as int);
                                match spec_u64_field(s, context_key()) {
                                    NumField::Malformed => Option::None,
                                    NumField::Absent => Option::Some(
                                        BodyView { opcode: op, path: MessagePath::FireAndForget },
                                    ),
                                    NumField::Present(n) => Option::Some(
                                        BodyView {
                                            opcode: op,
                                            path: MessagePath::Conversation(n),
                                        },
                                    ),
                                }
                            },
                        }
                    }
                }
            },
        }
    }
}

/// Decodes one text frame into an envelope, or reports that it is not one.
pub fn unmarshal_chars(s: &Vec<char>) -> (r: Option<MessageBody>)
    ensures
        match r {
            Some(b) => spec_unmarshal(s@) == Some(b@),
            None => spec_unmarshal(s@) is None,
        },
{
    let start = skip_ws(s, 0);
    if start >= s.len() {
        return None;
    }
    if s[start] != '{' {
        return None;
    }
    let okey = opcode_key_chars();
    match find_key(s, &okey, 0) {
        Option::None => None,
        Option::Some(k) => {
            proof {
                crate::text::lemma_find_from_in_bounds(s@, okey@, 0);
            }
            let slen = s.len();
            let i = skip_ws(s, k + okey.len());
            if i >= slen {
                return None;
            }
            if s[i] != ':' {
                return None;
            }
            let j = skip_ws(s, i + 1);
            if j >= s.len() {
                return None;
            }
            if s[j] != '"' {
                return None;
            }
            let mut quote: Vec<char> = Vec::new();
            quote.push('"');
            proof {
                assert(quote@ =~= seq!['"']);
            }
            match find_key(s, &quote, j + 1) {
                Option::None => None,
                Option::Some(e) => {
                    proof {
                        crate::text::lemma_find_from_in_bounds(s@, quote@, (j + 1) as nat);
                    }
                    let op = sub_chars(s, j + 1, e);
                    let ckey = context_key_chars();
                    match u64_field(s, &ckey) {
                        NumField::Malformed => None,
                        NumField::Absent => Some(
                            MessageBody { opcode: string_of(&op), path: MessagePath::FireAndForget },
                        ),
                        NumField::Present(n) => Some(
                            MessageBody {
                                opcode: string_of(&op),
                                path: MessagePath::Conversation(n),
                            },
                        ),
                    }
                },
            }
        },
    }
}

/// Decodes one text into an envelope, or reports that it is not one.
pub fn unmarshal_text(s: &str) -> (r: Option<MessageBody>)
    ensures
        match r {
            Some(b) => spec_unmarshal(s@) == Some(b@),
            None => spec_unmarshal(s@) is None,
        },
{
    let chars = chars_of(s);
    unmarshal_chars(&chars)
}

/// Whether a text holds the context-id key anywhere: the mark of a
/// conversational envelope.
pub open spec fn spec_conversational(s: Seq<char>) -> bool {
    contains_seq(s, context_key())
}

/// Whether a text holds the context-id key anywhere.
pub fn is_conversational_text(s: &Vec<char>) -> (r: bool)
    ensures
        r == spec_conversational(s@),
{
    let ckey = context_key_chars();
    find_key(s, &ckey, 0).is_some()
}

/// Whether a text opens like an envelope.
pub open spec fn spec_protocol_shaped(s: Seq<char>) -> bool {
    occurs_at(s, protocol_prefix(), 0)
}

/// Whether a text opens like an envelope.
pub fn is_protocol_shaped(s: &Vec<char>) -> (r: bool)
    ensures
        r == spec_protocol_shaped(s@),
{
    let prefix = chars_of("{\"opcode\":");
    if prefix.len() > s.len() {
        return false;
    }
    match_at(s, &prefix, 0)
}

/// The text of a marshaled envelope: the opcode, then the context id for a
/// conversational path, and an empty payload.
pub open spec fn spec_marshal(opcode: Seq<char>, path: MessagePath) -> Seq<char> {
    match path {
        MessagePath::Conversation(id) => "{\"opcode\": \""@ + opcode + "\", \"contextId\": "@
            + dec_digits(id as nat) + ", \"payload\": {}}"@,
        MessagePath::FireAndForget => "{\"opcode\": \""@ + opcode + "\", \"payload\": {}}"@,
    }
}

/// Marshals an envelope to its text form.
pub fn marshal(body: &MessageBody) -> (r: String)
    ensures
        r@ == spec_marshal(body.opcode@, body.path),
{
    let mut s = String::from_str("{\"opcode\": \"");
    s.append(body.opcode.as_str());
    match body.path {
        MessagePath::Conversation(id) => {
            s.append("\", \"contextId\": ");
            let digits = u64_digits(id);
            let dtext = string_of(&digits);
            s.append(dtext.as_str());
            s.append(", \"payload\": {}}");
        },
        MessagePath::FireAndForget => {
            s.append("\", \"payload\": {}}");
        },
    }
    s
}

/// The synthesized reply sent when a conversational request pulls a
/// fire-and-forget-shaped text out of the queue.
pub open spec fn spec_fnf_error_text(opcode: Seq<char>, context_id: u64) -> Seq<char> {
    "{\"opcode\": \""@ + opcode + "\", \"contextId\": "@ + dec_digits(context_id as nat)
        + ", \"error\": {\"code\": 0, \"message\": \"You tried to call up a fire-and-forget message from the queue by sending a conversational request; try adjust the queue or similar\"}}"@
}

/// Builds the reply for a conversational request that hit a
/// fire-and-forget-shaped queue entry.
pub fn fnf_error_text(opcode: &str, context_id: u64) -> (r: String)
    ensures
        r@ == spec_fnf_error_text(opcode@, context_id),
{
    let mut s = String::from_str("{\"opcode\": \"");
    s.append(opcode);
    s.append("\", \"contextId\": ");
    let digits = u64_digits(context_id);
    let dtext = string_of(&digits);
    s.append(dtext.as_str());
    s.append(
        ", \"error\": {\"code\": 0, \"message\": \"You tried to call up a fire-and-forget message from the queue by sending a conversational request; try adjust the queue or similar\"}}",
    );
    s
}

/// The value of a scanned field, once malformedness is ruled out.
pub open spec fn num_opt(f: NumField) -> Option<u64> {
    match f {
        NumField::Present(v) => Some(v),
        _ => None,
    }
}

/// What scanning a trigger envelope yields: `None` when either numeric field
/// is present but malformed, else the two optional values.
pub open spec fn spec_parse_trigger(s: Seq<char>) -> Option<BroadcastTrigger> {
    if spec_u64_field(s, batch_key()) is Malformed || spec_u64_field(s, signal_key())
        is Malformed {
        Option::None
    } else {
        Option::Some(
            BroadcastTrigger {
                batch_size_opt: num_opt(spec_u64_field(s, batch_key())),
                signal_position_opt: num_opt(spec_u64_field(s, signal_key())),
            },
        )
    }
}

/// Scans a trigger envelope for its batch-size and signal-position fields.
pub fn parse_broadcast_trigger(s: &Vec<char>) -> (r: Option<BroadcastTrigger>)
    ensures
        r == spec_parse_trigger(s@),
{
    let bkey = batch_key_chars();
    let skey = signal_key_chars();
    let batch = u64_field(s, &bkey);
    let signal = u64_field(s, &skey);
    match (batch, signal) {
        (NumField::Malformed, _) => None,
        (_, NumField::Malformed) => None,
        (b, sg) => Some(
            BroadcastTrigger {
                batch_size_opt: match b {
                    NumField::Present(v) => Some(v),
                    _ => None,
                },
                signal_position_opt: match sg {
                    NumField::Present(v) => Some(v),
                    _ => None,
                },
            },
        ),
    }
}

/// How one character is written inside a quoted field.
pub open spec fn esc_char(c: char) -> Seq<char> {
    if c == '"' {
        seq!['\\', '"']
    } else if c == '\\' {
        seq!['\\', '\\']
    } else if c == '\n' {
        seq!['\\', 'n']
    } else if c == '\r' {
        seq!['\\', 'r']
    } else if c == '\t' {
        seq!['\\', 't']
    } else {
        seq![c]
    }
}

/// The text of `s` with every character escaped for a quoted field.
pub open spec fn spec_escape(s: Seq<char>) -> Seq<char>
    decreases s.len(),
{
    if s.len() == 0 {
        Seq::empty()
    } else {
        spec_escape(s.drop_last()) + esc_char(s.last())
    }
}

fn push_escaped(out: &mut Vec<char>, c: char)
    ensures
        final(out)@ == old(out)@ + esc_char(c),
{
    if c == '"' {
        out.push('\\');
        out.push('"');
    } else if c == '\\' {
        out.push('\\');
        out.push('\\');
    } else if c == '\n' {
        out.push('\\');
        out.push('n');
    } else if c == '\r' {
        out.push('\\');
        out.push('r');
    } else if c == '\t' {
        out.push('\\');
        out.push('t');
    } else {
        out.push(c);
    }
    proof {
        assert(out@ =~= old(out)@ + esc_char(c));
    }
}

/// Escapes `s` for a quoted field.
fn escape_chars(s: &Vec<char>) -> (r: Vec<char>)
    ensures
        r@ == spec_escape(s@),
{
    let mut r: Vec<char> = Vec::new();
    let mut i: usize = 0;
    proof {
        assert(s@.subrange(0, 0) =~= Seq::<char>::empty());
    }
    while i < s.len()
        invariant
            i <= s@.len(),
            r@ == spec_escape(s@.subrange(0, i as int)),
        decreases s@.len() - i,
    {
        proof {
            assert(s@.subrange(0, i + 1).drop_last() =~= s@.subrange(0, i as int));
            assert(s@.subrange(0, i + 1).last() == s@[i as int]);
        }
        push_escaped(&mut r, s[i]);
        i = i + 1;
    }
    proof {
        assert(s@.subrange(0, s@.len() as int) =~= s@);
    }
    r
}

/// The reply sent for an inbound text that could not be decoded: an
/// unmarshal-error envelope that embeds the offending text.
pub open spec fn spec_unmarshal_error_text(raw: Seq<char>) -> Seq<char> {
    "{\"opcode\": \"unmarshalError\", \"payload\": {\"message\": \""@ + spec_escape(raw)
        + "\", \"badData\": \"Could not decode the message envelope\"}}"@
}

/// Builds the unmarshal-error reply for an undecodable inbound text.
pub fn unmarshal_error_text(raw: &str) -> (r: String)
    ensures
        r@ == spec_unmarshal_error_text(raw@),
{
    let mut s = String::from_str("{\"opcode\": \"unmarshalError\", \"payload\": {\"message\": \"");
    let raw_chars = chars_of(raw);
    let escaped = escape_chars(&raw_chars);
    let etext = string_of(&escaped);
    s.append(etext.as_str());
    s.append("\", \"badData\": \"Could not decode the message envelope\"}}");
    s
}

} // verus!
