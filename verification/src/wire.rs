//! Request framing for the wire protocol: a request is one JSON object per
//! line, `{"id":<uint16>,"method":<string>,"params":[...]}` terminated by
//! CRLF, and each parameter is serialized as a bare JSON number or string
//! with no tag of its variant. The encoder is specified character by
//! character and proved to produce exactly the specified line.

use vstd::prelude::*;
use vstd::string::StrSliceExecFns;
use vstd::string::StringExecFns;
use vstd::utf8::encode_utf8;

verus! {

/// A request parameter; on the wire it is indistinguishable from a plain
/// JSON number or string.
#[derive(Debug, PartialEq, Eq)]
pub enum Param {
    Uint8(u8),
    Uint16(u16),
    Str(String),
}

/// Mathematical value of a [`Param`].
pub ghost enum ParamVal {
    U8(u8),
    U16(u16),
    Text(Seq<char>),
}

impl View for Param {
    type V = ParamVal;

    open spec fn view(&self) -> ParamVal {
        match self {
            Param::Uint8(v) => ParamVal::U8(*v),
            Param::Uint16(v) => ParamVal::U16(*v),
            Param::Str(s) => ParamVal::Text(s@),
        }
    }
}

/// A protocol request: an id assigned by the session, a method name, and an
/// ordered sequence of parameters.
#[derive(Debug, PartialEq, Eq)]
pub struct Message {
    id: u16,
    method: String,
    params: Vec<Param>,
}

/// Mathematical value of a [`Message`].
pub ghost struct MessageVal {
    pub id: u16,
    pub method: Seq<char>,
    pub params: Seq<ParamVal>,
}

impl View for Message {
    type V = MessageVal;

    closed spec fn view(&self) -> MessageVal {
        MessageVal {
            id: self.id,
            method: self.method@,
            params: self.params@.map_values(|p: Param| p@),
        }
    }
}

impl Message {
    pub fn new(id: u16, method: String, params: Vec<Param>) -> (m: Message)
        ensures
            m@ == (MessageVal { id, method: method@, params: params@.map_values(|p: Param| p@) }),
    {
        Message { id, method, params }
    }

    pub fn id(&self) -> (r: u16)
        ensures
            r == self@.id,
    {
        self.id
    }
}

pub open spec fn digit_char(d: int) -> char {
    if d == 0 {
        '0'
    } else if d == 1 {
        '1'
    } else if d == 2 {
        '2'
    } else if d == 3 {
        '3'
    } else if d == 4 {
        '4'
    } else if d == 5 {
        '5'
    } else if d == 6 {
        '6'
    } else if d == 7 {
        '7'
    } else if d == 8 {
        '8'
    } else {
        '9'
    }
}

/// Decimal numeral of a non-negative integer, most significant digit first,
/// with no sign and no leading zero.
pub open spec fn dec_chars(n: int) -> Seq<char>
    decreases n,
{
    if n < 10 {
        seq![digit_char(n)]
    } else {
        dec_chars(n / 10).push(digit_char(n % 10))
    }
}

pub open spec fn hex_char(d: int) -> char {
    if d < 10 {
        digit_char(d)
    } else if d == 10 {
        'a'
    } else if d == 11 {
        'b'
    } else if d == 12 {
        'c'
    } else if d == 13 {
        'd'
    } else if d == 14 {
        'e'
    } else {
        'f'
    }
}

/// JSON escape of one character inside a string literal: quotes and
/// backslashes get a backslash escape, control characters a `\u00XX` escape,
/// and every other character stands for itself.
pub open spec fn escape_char(c: char) -> Seq<char> {
    if c == '"' {
        seq!['\\', '"']
    } else if c == '\\' {
        seq!['\\', '\\']
    } else if (c as u32) < 32 {
        seq!['\\', 'u', '0', '0', hex_char((c as u32) as int / 16), hex_char((c as u32) as int % 16)]
    } else {
        seq![c]
    }
}

pub open spec fn escape_text(s: Seq<char>) -> Seq<char>
    decreases s.len(),
{
    if s.len() == 0 {
        Seq::empty()
    } else {
        escape_text(s.drop_last()) + escape_char(s.last())
    }
}

/// A JSON string literal: the escaped text between double quotes.
pub open spec fn json_string_text(s: Seq<char>) -> Seq<char> {
    seq!['"'] + escape_text(s) + seq!['"']
}

/// Wire text of one parameter.
pub open spec fn param_text(p: ParamVal) -> Seq<char> {
    match p {
        ParamVal::U8(v) => dec_chars(v as int),
        ParamVal::U16(v) => dec_chars(v as int),
        ParamVal::Text(s) => json_string_text(s),
    }
}

/// Wire text of a parameter list: the parameters' texts joined by commas.
pub open spec fn params_text(ps: Seq<ParamVal>) -> Seq<char>
    decreases ps.len(),
{
    if ps.len() == 0 {
        Seq::empty()
    } else {
        params_text(ps.drop_last()) + (if ps.len() == 1 {
            Seq::<char>::empty()
        } else {
            seq![',']
        }) + param_text(ps.last())
    }
}

/// Everything of the request object before the parameter list.
pub open spec fn message_open_text(m: MessageVal) -> Seq<char> {
    "{\"id\":"@ + dec_chars(m.id as int) + ",\"method\":"@ + json_string_text(m.method)
        + ",\"params\":["@
}

/// The single-line JSON text of a request.
pub open spec fn message_text(m: MessageVal) -> Seq<char> {
    message_open_text(m) + params_text(m.params) + "]}"@
}

/// The full framed line as sent: the JSON text followed by CRLF.
pub open spec fn wire_line(m: MessageVal) -> Seq<char> {
    message_text(m) + "\r\n"@
}

/// The bytes of the framed line, UTF-8 encoded.
pub open spec fn wire_bytes(m: MessageVal) -> Seq<u8> {
    encode_utf8(wire_line(m))
}

fn append_digit(out: &mut String, d: u8)
    requires
        d <= 9,
    ensures
        final(out)@ == old(out)@ + seq![digit_char(d as int)],
{
    if d == 0 {
        out.append("0");
        proof {
            reveal_strlit("0");
            assert("0"@ =~= seq![digit_char(0)]);
        }
    } else if d == 1 {
        out.append("1");
        proof {
            reveal_strlit("1");
            assert("1"@ =~= seq![digit_char(1)]);
        }
    } else if d == 2 {
        out.append("2");
        proof {
            reveal_strlit("2");
            assert("2"@ =~= seq![digit_char(2)]);
        }
    } else if d == 3 {
        out.append("3");
        proof {
            reveal_strlit("3");
            assert("3"@ =~= seq![digit_char(3)]);
        }
    } else if d == 4 {
        out.append("4");
        proof {
            reveal_strlit("4");
            assert("4"@ =~= seq![digit_char(4)]);
        }
    } else if d == 5 {
        out.append("5");
        proof {
            reveal_strlit("5");
            assert("5"@ =~= seq![digit_char(5)]);
        }
    } else if d == 6 {
        out.append("6");
        proof {
            reveal_strlit("6");
            assert("6"@ =~= seq![digit_char(6)]);
        }
    } else if d == 7 {
        out.append("7");
        proof {
            reveal_strlit("7");
            assert("7"@ =~= seq![digit_char(7)]);
        }
    } else if d == 8 {
        out.append("8");
        proof {
            reveal_strlit("8");
            assert("8"@ =~= seq![digit_char(8)]);
        }
    } else {
        out.append("9");
        proof {
            reveal_strlit("9");
            assert("9"@ =~= seq![digit_char(9)]);
        }
    }
}

fn append_hex_digit(out: &mut String, d: u8)
    requires
        d <= 15,
    ensures
        final(out)@ == old(out)@ + seq![hex_char(d as int)],
{
    if d <= 9 {
        append_digit(out, d);
    } else if d == 10 {
        out.append("a");
        proof {
            reveal_strlit("a");
            assert("a"@ =~= seq![hex_char(10)]);
        }
    } else if d == 11 {
        out.append("b");
        proof {
            reveal_strlit("b");
            assert("b"@ =~= seq![hex_char(11)]);
        }
    } else if d == 12 {
        out.append("c");
        proof {
            reveal_strlit("c");
            assert("c"@ =~= seq![hex_char(12)]);
        }
    } else if d == 13 {
        out.append("d");
        proof {
            reveal_strlit("d");
            assert("d"@ =~= seq![hex_char(13)]);
        }
    } else if d == 14 {
        out.append("e");
        proof {
            reveal_strlit("e");
            assert("e"@ =~= seq![hex_char(14)]);
        }
    } else {
        out.append("f");
        proof {
            reveal_strlit("f");
            assert("f"@ =~= seq![hex_char(15)]);
        }
    }
}

fn append_dec(out: &mut String, n: u16)
    ensures
        final(out)@ == old(out)@ + dec_chars(n as int),
    decreases n,
{
    if n < 10 {
        append_digit(out, n as u8);
    } else {
        append_dec(out, n / 10);
        append_digit(out, (n % 10) as u8);
        proof {
            assert(old(out)@ + dec_chars(n as int) =~= (old(out)@ + dec_chars(n as int / 10))
                + seq![digit_char(n as int % 10)]);
        }
    }
}

fn append_json_string(out: &mut String, s: &str)
    ensures
        final(out)@ == old(out)@ + json_string_text(s@),
{
    out.append("\"");
    proof {
        reveal_strlit("\"");
        assert("\""@ =~= seq!['"']);
    }
    let len = s.unicode_len();
    let mut i: usize = 0;
    while i < len
        invariant
            0 <= i <= len,
            len == s@.len(),
            out@ == old(out)@ + seq!['"'] + escape_text(s@.subrange(0, i as int)),
        decreases len - i,
    {
        let c = s.get_char(i);
        proof {
            assert(s@.subrange(0, i + 1 as int).drop_last() =~= s@.subrange(0, i as int));
            assert(s@.subrange(0, i + 1 as int).last() == s@[i as int]);
        }
        if c == '"' {
            out.append("\\\"");
            proof {
                reveal_strlit("\\\"");
                assert("\\\""@ =~= escape_char('"'));
            }
        } else if c == '\\' {
            out.append("\\\\");
            proof {
                reveal_strlit("\\\\");
                assert("\\\\"@ =~= escape_char('\\'));
            }
        } else if (c as u32) < 32 {
            out.append("\\u00");
            let u = c as u32;
            append_hex_digit(out, (u / 16) as u8);
            append_hex_digit(out, (u % 16) as u8);
            proof {
                reveal_strlit("\\u00");
                assert("\\u00"@ + seq![hex_char((c as u32) as int / 16)] + seq![hex_char((c as u32) as int % 16)]
                    =~= escape_char(c));
            }
        } else {
            let one = s.substring_char(i, i + 1);
            out.append(one);
            proof {
                assert(one@ =~= escape_char(c));
            }
        }
        proof {
            assert(out@ =~= old(out)@ + seq!['"'] + escape_text(s@.subrange(0, i + 1 as int)));
        }
        i += 1;
    }
    out.append("\"");
    proof {
        assert(s@.subrange(0, len as int) =~= s@);
        assert(out@ =~= old(out)@ + json_string_text(s@));
    }
}

fn append_param(out: &mut String, p: &Param)
    ensures
        final(out)@ == old(out)@ + param_text(p@),
{
    match p {
        Param::Uint8(v) => append_dec(out, *v as u16),
        Param::Uint16(v) => append_dec(out, *v),
        Param::Str(s) => append_json_string(out, s.as_str()),
    }
}

/// Encodes a request as the framed wire line: its single-line JSON text
/// followed by CRLF, UTF-8 encoded.
pub fn encode_message(m: &Message) -> (r: Vec<u8>)
    ensures
        r@ == wire_bytes(m@),
{
    let mut out = String::new();
    out.append("{\"id\":");
    append_dec(&mut out, m.id);
    out.append(",\"method\":");
    append_json_string(&mut out, m.method.as_str());
    out.append(",\"params\":[");
    proof {
        assert(out@ =~= message_open_text(m@));
        assert(out@ =~= message_open_text(m@) + params_text(m@.params.take(0)));
    }
    let n = m.params.len();
    let mut i: usize = 0;
    while i < n
        invariant
            0 <= i <= n,
            n == m.params.len(),
            m@.params.len() == n,
            out@ == message_open_text(m@) + params_text(m@.params.take(i as int)),
        decreases n - i,
    {
        if i > 0 {
            out.append(",");
            proof {
                reveal_strlit(",");
                assert(","@ =~= seq![',']);
            }
        }
        append_param(&mut out, &m.params[i]);
        proof {
            assert(m@.params.take(i + 1 as int).drop_last() =~= m@.params.take(i as int));
            assert(m@.params.take(i + 1 as int).last() == m@.params[i as int]);
            assert(m@.params[i as int] == m.params@[i as int]@);
            assert(out@ =~= message_open_text(m@) + params_text(m@.params.take(i + 1 as int)));
        }
        i += 1;
    }
    out.append("]}");
    out.append("\r\n");
    proof {
        assert(m@.params.take(n as int) =~= m@.params);
        assert(out@ =~= wire_line(m@));
    }
    out.as_str().as_bytes_vec()
}

} // verus!
