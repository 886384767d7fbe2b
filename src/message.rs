use vstd::prelude::*;
use vstd::utf8::{encode_utf8, decode_utf8, valid_utf8};
use vstd::string::StringSliceAdditionalSpecFns;

verus! {

broadcast use vstd::utf8::group_utf8_lib;

/// The protocol's command tags, in the order of their wire codes.
#[derive(Debug, PartialEq, Eq, Structural, Clone, Copy)]
pub enum Command {
    Empty,
    Enter,
    Text,
    Repeat,
    Damaged,
    AskToRepeat,
    Exit,
    Error,
}

/// The wire code of a command.
pub open spec fn code_of(c: Command) -> u8 {
    match c {
        Command::Empty => 0,
        Command::Enter => 1,
        Command::Text => 2,
        Command::Repeat => 3,
        Command::Damaged => 4,
        Command::AskToRepeat => 5,
        Command::Exit => 6,
        Command::Error => 7,
    }
}

/// The command a wire code stands for; an unknown code is `Error`.
pub open spec fn command_of(code: u8) -> Command {
    if code == 0 {
        Command::Empty
    } else if code == 1 {
        Command::Enter
    } else if code == 2 {
        Command::Text
    } else if code == 3 {
        Command::Repeat
    } else if code == 4 {
        Command::Damaged
    } else if code == 5 {
        Command::AskToRepeat
    } else if code == 6 {
        Command::Exit
    } else {
        Command::Error
    }
}

impl Command {
    pub fn to_code(self) -> (r: u8)
        ensures
            r == code_of(self),
    {
        match self {
            Command::Empty => 0,
            Command::Enter => 1,
            Command::Text => 2,
            Command::Repeat => 3,
            Command::Damaged => 4,
            Command::AskToRepeat => 5,
            Command::Exit => 6,
            Command::Error => 7,
        }
    }

    pub fn from_code(code: u8) -> (r: Self)
        ensures
            r == command_of(code),
    {
        match code {
            0 => Command::Empty,
            1 => Command::Enter,
            2 => Command::Text,
            3 => Command::Repeat,
            4 => Command::Damaged,
            5 => Command::AskToRepeat,
            6 => Command::Exit,
            _ => Command::Error,
        }
    }
}

/// The CRC-16/IBM-SDLC (X.25) checksum of a byte sequence.
pub uninterp spec fn crc16_of(data: Seq<u8>) -> u16;

/// Relies on crc::Crc::<u16>::checksum with the CRC_16_IBM_SDLC algorithm: the
/// result depends on the bytes alone; with no bytes, the initial value 0xffff
/// meets the final xor 0xffff and gives 0.
#[verifier::external_body]
fn crc16(data: &[u8]) -> (r: u16)
    ensures
        r == crc16_of(data@),
        data@.len() == 0 ==> r == 0,
{
    crc::Crc::<u16>::new(&crc::CRC_16_IBM_SDLC).checksum(data)
}

/// Relies on std's SystemTime::now and duration_since(UNIX_EPOCH): whole
/// seconds since the Unix epoch, or None when the clock reads earlier.
#[verifier::external_body]
fn epoch_seconds() -> (r: Option<u64>)
{
    match std::time::SystemTime::now().duration_since(std::time::SystemTime::UNIX_EPOCH) {
        Ok(d) => Some(d.as_secs()),
        Err(_) => None,
    }
}

/// Relies on std::str::from_utf8: it succeeds exactly on valid UTF-8, and the
/// string it gives holds those bytes.
#[verifier::external_body]
fn utf8_str(bytes: &[u8]) -> (r: Option<&str>)
    ensures
        r is Some <==> valid_utf8(bytes@),
        r is Some ==> r->0.spec_bytes() == bytes@,
{
    std::str::from_utf8(bytes).ok()
}

/// Whitespace as `char::is_whitespace` defines it (the Unicode White_Space property).
pub open spec fn is_white(c: char) -> bool {
    ('\u{9}' <= c && c <= '\u{d}') || c == ' ' || c == '\u{85}' || c == '\u{a0}' || c
        == '\u{1680}' || ('\u{2000}' <= c && c <= '\u{200a}') || c == '\u{2028}' || c
        == '\u{2029}' || c == '\u{202f}' || c == '\u{205f}' || c == '\u{3000}'
}

/// A control character as `char::is_control` defines it (general category Cc).
pub open spec fn is_control_char(c: char) -> bool {
    c <= '\u{1f}' || ('\u{7f}' <= c && c <= '\u{9f}')
}

/// The characters without leading whitespace.
pub open spec fn trim_start_chars(s: Seq<char>) -> Seq<char>
    decreases s.len(),
{
    if s.len() > 0 && is_white(s[0]) {
        trim_start_chars(s.drop_first())
    } else {
        s
    }
}

/// The characters without trailing whitespace.
pub open spec fn trim_end_chars(s: Seq<char>) -> Seq<char>
    decreases s.len(),
{
    if s.len() > 0 && is_white(s.last()) {
        trim_end_chars(s.drop_last())
    } else {
        s
    }
}

/// The characters without leading and trailing whitespace.
pub open spec fn trim_chars(s: Seq<char>) -> Seq<char> {
    trim_end_chars(trim_start_chars(s))
}

/// The characters with every control character left out.
pub open spec fn strip_controls(s: Seq<char>) -> Seq<char>
    decreases s.len(),
{
    if s.len() == 0 {
        s
    } else if is_control_char(s.last()) {
        strip_controls(s.drop_last())
    } else {
        strip_controls(s.drop_last()).push(s.last())
    }
}

/// The payload that carries a piece of text: its trimmed UTF-8 bytes.
pub open spec fn text_bytes(s: Seq<char>) -> Seq<u8> {
    encode_utf8(trim_chars(s))
}

/// The text a payload carries: its characters when it is valid UTF-8, else "UNKNOWN".
pub open spec fn text_of(data: Seq<u8>) -> Seq<char> {
    if valid_utf8(data) {
        decode_utf8(data)
    } else {
        seq!['U', 'N', 'K', 'N', 'O', 'W', 'N']
    }
}

/// Relies on str::trim: the slice without leading and trailing whitespace.
#[verifier::external_body]
fn trim_str(s: &str) -> (r: &str)
    ensures
        r@ == trim_chars(s@),
{
    s.trim()
}

/// Relies on String::push: the character is appended at the end.
#[verifier::external_body]
fn push_char(s: &mut String, c: char)
    ensures
        final(s)@ == old(s)@.push(c),
{
    s.push(c)
}

/// Whether a character is a control character.
pub fn is_control(c: char) -> (r: bool)
    ensures
        r == is_control_char(c),
{
    c <= '\u{1f}' || ('\u{7f}' <= c && c <= '\u{9f}')
}

/// The text that a payload carries, "UNKNOWN" when it is not UTF-8.
pub fn string_from_be_u8(bytes: &[u8]) -> (r: String)
    ensures
        r@ == text_of(bytes@),
{
    match utf8_str(bytes) {
        Some(s) => {
            proof {
                vstd::utf8::encode_utf8_decode_utf8(s@);
            }
            s.to_owned()
        },
        None => {
            let r = "UNKNOWN".to_owned();
            proof {
                reveal_strlit("UNKNOWN");
                assert(r@ =~= seq!['U', 'N', 'K', 'N', 'O', 'W', 'N']);
            }
            r
        },
    }
}

/// The payload for a piece of text: its trimmed UTF-8 bytes.
pub fn be_u8_from_str(text: &str) -> (r: Vec<u8>)
    ensures
        r@ == text_bytes(text@),
{
    let t = trim_str(text);
    vstd::slice::slice_to_vec(t.as_bytes())
}

/// The text with its control characters left out.
pub fn without_controls(text: &str) -> (r: String)
    ensures
        r@ == strip_controls(text@),
{
    let mut out = String::new();
    for c in it: text.chars()
        invariant
            it.seq() == text@,
            out@ == strip_controls(text@.take(it.index() as int)),
    {
        proof {
            let i = it.index() as int;
            assert(text@.take(i + 1).drop_last() =~= text@.take(i));
        }
        if !is_control(c) {
            push_char(&mut out, c);
        }
    }
    proof {
        assert(text@.take(text@.len() as int) =~= text@);
    }
    out
}

/// Four bytes of a 32-bit number, most significant first.
pub open spec fn be32(x: u32) -> Seq<u8> {
    seq![(x >> 24u32) as u8, (x >> 16u32) as u8, (x >> 8u32) as u8, x as u8]
}

/// Two bytes of a 16-bit number, most significant first.
pub open spec fn be16(x: u16) -> Seq<u8> {
    seq![(x >> 8u16) as u8, x as u8]
}

/// The 32-bit number that four bytes give, most significant first.
pub open spec fn read_be32(b0: u8, b1: u8, b2: u8, b3: u8) -> u32 {
    ((b0 as u32) << 24u32) | ((b1 as u32) << 16u32) | ((b2 as u32) << 8u32) | (b3 as u32)
}

/// The 16-bit number that two bytes give, most significant first.
pub open spec fn read_be16(b0: u8, b1: u8) -> u16 {
    ((b0 as u16) << 8u16) | (b1 as u16)
}

/// What a message is: its id, the checksum it carries, its command and its payload.
pub ghost struct MessageModel {
    pub id: u32,
    pub checksum: u16,
    pub command: Command,
    pub data: Seq<u8>,
}

/// The message that stands for a discarded frame.
pub open spec fn empty_model() -> MessageModel {
    MessageModel { id: 0, checksum: 0, command: Command::Empty, data: Seq::empty() }
}

/// A message is valid when its checksum is the CRC-16 of its payload.
pub open spec fn valid_model(m: MessageModel) -> bool {
    m.checksum == crc16_of(m.data)
}

/// The frame of a message: id, checksum, command code, then the payload.
pub open spec fn frame_of(m: MessageModel) -> Seq<u8> {
    be32(m.id) + be16(m.checksum) + seq![code_of(m.command)] + m.data
}

/// What a frame decodes to: nothing when it is shorter than the 7-byte header;
/// the empty message when the payload's CRC-16 differs from the checksum field;
/// else the message that the header and payload give.
pub open spec fn parse_frame(b: Seq<u8>) -> Option<MessageModel> {
    if b.len() < 7 {
        None
    } else {
        let data = b.subrange(7, b.len() as int);
        let checksum = read_be16(b[4], b[5]);
        if checksum == crc16_of(data) {
            Some(
                MessageModel {
                    id: read_be32(b[0], b[1], b[2], b[3]),
                    checksum,
                    command: command_of(b[6]),
                    data,
                },
            )
        } else {
            Some(empty_model())
        }
    }
}

/// A message of the chat protocol.
#[derive(Debug)]
pub struct Message {
    pub id: u32,
    pub checksum: u16,
    pub command: Command,
    pub data: Vec<u8>,
}

impl View for Message {
    type V = MessageModel;

    open spec fn view(&self) -> MessageModel {
        MessageModel {
            id: self.id,
            checksum: self.checksum,
            command: self.command,
            data: self.data@,
        }
    }
}

impl Message {
    /// A message with the given id, command and payload, and the payload's checksum.
    pub fn with_id(id: u32, command: Command, data: Vec<u8>) -> (r: Self)
        ensures
            r@ == (MessageModel { id, checksum: crc16_of(data@), command, data: data@ }),
            data@.len() == 0 ==> r.checksum == 0,
    {
        let checksum = crc16(data.as_slice());
        Message { id, checksum, command, data }
    }

    /// A message stamped with a clock reading: its whole seconds since the
    /// Unix epoch truncated to 32 bits, or 0 when there is no reading.
    pub fn stamped(seconds: Option<u64>, command: Command, data: Vec<u8>) -> (r: Self)
        ensures
            r@ == (MessageModel {
                id: match seconds {
                    Some(s) => (s % 0x1_0000_0000) as u32,
                    None => 0,
                },
                checksum: crc16_of(data@),
                command,
                data: data@,
            }),
    {
        let id: u32 = match seconds {
            Some(s) => (s % 0x1_0000_0000) as u32,
            None => 0,
        };
        Message::with_id(id, command, data)
    }

    /// A message stamped with the current time in seconds, truncated to 32 bits.
    pub fn new(command: Command, data: Vec<u8>) -> (r: Self)
        ensures
            r.command == command,
            r.data@ == data@,
            valid_model(r@),
    {
        Message::stamped(epoch_seconds(), command, data)
    }

    pub fn empty() -> (r: Self)
        ensures
            r@ == empty_model(),
    {
        Message { id: 0, checksum: 0, command: Command::Empty, data: Vec::new() }
    }

    /// An announcement of presence under a name.
    pub fn enter(name: &str) -> (r: Self)
        ensures
            r.command == Command::Enter,
            r.data@ == text_bytes(name@),
            valid_model(r@),
    {
        Message::new(Command::Enter, be_u8_from_str(name))
    }

    /// A notice of departure.
    pub fn exit() -> (r: Self)
        ensures
            r.command == Command::Exit,
            r.data@ == Seq::<u8>::empty(),
            valid_model(r@),
    {
        Message::new(Command::Exit, Vec::new())
    }

    /// A text message: control characters are left out, then the text is trimmed.
    pub fn text(text: &str) -> (r: Self)
        ensures
            r.command == Command::Text,
            r.data@ == text_bytes(strip_controls(text@)),
            valid_model(r@),
    {
        let kept = without_controls(text);
        Message::new(Command::Text, be_u8_from_str(kept.as_str()))
    }

    /// A repetition of the text once sent under the given id, as it stands.
    pub fn retry_text(id: u32, text: &str) -> (r: Self)
        ensures
            r@ == (MessageModel {
                id,
                checksum: crc16_of(encode_utf8(text@)),
                command: Command::Repeat,
                data: encode_utf8(text@),
            }),
    {
        Message::with_id(id, Command::Repeat, vstd::slice::slice_to_vec(text.as_bytes()))
    }

    /// Decodes a frame.
    pub fn from_be_bytes(bytes: &[u8]) -> (r: Option<Self>)
        ensures
            match r {
                Some(m) => parse_frame(bytes@) == Some(m@),
                None => parse_frame(bytes@) is None,
            },
    {
        if bytes.len() < 7 {
            return None;
        }
        let id: u32 = ((bytes[0] as u32) << 24u32) | ((bytes[1] as u32) << 16u32) | ((
        bytes[2] as u32) << 8u32) | (bytes[3] as u32);
        let checksum: u16 = ((bytes[4] as u16) << 8u16) | (bytes[5] as u16);
        let command = Command::from_code(bytes[6]);
        let mut data: Vec<u8> = Vec::new();
        let mut i: usize = 7;
        while i < bytes.len()
            invariant
                7 <= i <= bytes@.len(),
                data@ == bytes@.subrange(7, i as int),
            decreases bytes@.len() - i,
        {
            data.push(bytes[i]);
            i = i + 1;
            proof {
                assert(data@ =~= bytes@.subrange(7, i as int));
            }
        }
        if checksum == crc16(data.as_slice()) {
            Some(Message { id, checksum, command, data })
        } else {
            Some(Message::empty())
        }
    }

    /// Encodes the message as a frame.
    pub fn to_be_bytes(&self) -> (r: Vec<u8>)
        ensures
            r@ == frame_of(self@),
    {
        let mut bytes: Vec<u8> = Vec::new();
        bytes.push((self.id >> 24u32) as u8);
        bytes.push((self.id >> 16u32) as u8);
        bytes.push((self.id >> 8u32) as u8);
        bytes.push(self.id as u8);
        bytes.push((self.checksum >> 8u16) as u8);
        bytes.push(self.checksum as u8);
        bytes.push(self.command.to_code());
        let ghost head = bytes@;
        let mut i: usize = 0;
        while i < self.data.len()
            invariant
                i <= self.data@.len(),
                head.len() == 7,
                bytes@ == head + self.data@.subrange(0, i as int),
            decreases self.data@.len() - i,
        {
            bytes.push(self.data[i]);
            i = i + 1;
            proof {
                assert(bytes@ =~= head + self.data@.subrange(0, i as int));
            }
        }
        proof {
            assert(self.data@.subrange(0, i as int) =~= self.data@);
            assert(bytes@ =~= frame_of(self@));
        }
        bytes
    }

    /// The text that the payload carries.
    pub fn read_text(&self) -> (r: String)
        ensures
            r@ == text_of(self.data@),
    {
        string_from_be_u8(self.data.as_slice())
    }
}

/// Decoding the frame of a valid message gives that message back.
pub proof fn lemma_round_trip(m: MessageModel)
    requires
        valid_model(m),
    ensures
        parse_frame(frame_of(m)) == Some(m),
{
    let b = frame_of(m);
    let id = m.id;
    let ck = m.checksum;
    assert(b.subrange(7, b.len() as int) =~= m.data);
    assert(read_be32((id >> 24u32) as u8, (id >> 16u32) as u8, (id >> 8u32) as u8, id as u8)
        == id) by (bit_vector);
    assert(read_be16((ck >> 8u16) as u8, ck as u8) == ck) by (bit_vector);
    assert(command_of(code_of(m.command)) == m.command);
}

/// A frame shorter than the 7-byte header never decodes.
pub proof fn lemma_short_frame(b: Seq<u8>)
    requires
        b.len() < 7,
    ensures
        parse_frame(b) is None,
{
}

/// A frame whose payload does not match its checksum field decodes to the
/// empty message, whatever its command field says.
pub proof fn lemma_corrupt_payload(b: Seq<u8>)
    requires
        b.len() >= 7,
        read_be16(b[4], b[5]) != crc16_of(b.subrange(7, b.len() as int)),
    ensures
        parse_frame(b) == Some(empty_model()),
        parse_frame(b)->0.command == Command::Empty,
{
}

/// Changing a payload byte of a valid message's frame, in a way that changes
/// the payload's CRC-16, makes the frame decode to the empty message. (A single
/// flipped bit is such a change: CRC-16 detects every single-bit error.)
pub proof fn lemma_changed_payload(m: MessageModel, i: int, v: u8)
    requires
        valid_model(m),
        0 <= i < m.data.len(),
        crc16_of(m.data.update(i, v)) != crc16_of(m.data),
    ensures
        parse_frame(frame_of(m).update(7 + i, v)) == Some(empty_model()),
{
    let b = frame_of(m).update(7 + i, v);
    let ck = m.checksum;
    assert(b.subrange(7, b.len() as int) =~= m.data.update(i, v));
    assert(b[4] == (ck >> 8u16) as u8 && b[5] == ck as u8);
    assert(read_be16((ck >> 8u16) as u8, ck as u8) == ck) by (bit_vector);
}

} // verus!
