use vstd::prelude::*;
use vstd::string::StringExecFns;

verus! {

/// A message from the card to the emulator host.
#[derive(Debug)]
pub enum CardMessage {
    Display(Vec<u16>),
    Nfc(Vec<u8>),
    WriteFlash(Vec<u8>),
    ReadFlash,
    Tick,
    FinishBoot,
    FlushDisplay,
}

/// A message from the emulator host to the card.
#[derive(Debug)]
pub enum EmulatorMessage {
    Tsc(bool),
    Nfc(Vec<u8>),
    FlashContent(Vec<u8>),
    Reset,
}

/// The two big-endian bytes of a length, reduced modulo 2^16.
pub open spec fn be16(n: nat) -> Seq<u8> {
    seq![((n % 65536) / 256) as u8, (n % 256) as u8]
}

/// Each 16-bit value as its two big-endian bytes, in order.
pub open spec fn pixels_be(p: Seq<u16>) -> Seq<u8> {
    Seq::new(2 * p.len(), |i: int| if i % 2 == 0 { (p[i / 2] / 256) as u8 } else { (p[i / 2] % 256) as u8 })
}

/// The frame of a card message: a tag byte, then for messages with a payload its
/// length in bytes (two bytes, big-endian) and the payload.
pub open spec fn card_frame(m: CardMessage) -> Seq<u8> {
    match m {
        CardMessage::Display(p) => seq![0u8] + be16(2 * (p@.len() % 65536)) + pixels_be(p@),
        CardMessage::Nfc(d) => seq![1u8] + be16(d@.len()) + d@,
        CardMessage::Tick => seq![2u8],
        CardMessage::WriteFlash(d) => seq![3u8] + be16(d@.len()) + d@,
        CardMessage::ReadFlash => seq![4u8],
        CardMessage::FinishBoot => seq![5u8],
        CardMessage::FlushDisplay => seq![6u8],
    }
}

/// The frame of an emulator message, laid out as a card message's.
pub open spec fn emulator_frame(m: EmulatorMessage) -> Seq<u8> {
    match m {
        EmulatorMessage::Tsc(v) => seq![1u8, 0u8, 1u8, if v { 1u8 } else { 0u8 }],
        EmulatorMessage::Nfc(d) => seq![2u8] + be16(d@.len()) + d@,
        EmulatorMessage::FlashContent(d) => seq![3u8] + be16(d@.len()) + d@,
        EmulatorMessage::Reset => seq![4u8],
    }
}

fn push_be16(out: &mut Vec<u8>, n: usize)
    ensures
        final(out)@ == old(out)@ + be16(n as nat),
{
    let m: usize = n % 65536;
    out.push((m / 256) as u8);
    out.push((n % 256) as u8);
    assert(final(out)@ =~= old(out)@ + be16(n as nat));
}

fn push_all(out: &mut Vec<u8>, data: &Vec<u8>)
    ensures
        final(out)@ == old(out)@ + data@,
{
    let ghost start = out@;
    let mut i: usize = 0;
    while i < data.len()
        invariant
            i <= data@.len(),
            out@ == start + data@.subrange(0, i as int),
        decreases data@.len() - i,
    {
        out.push(data[i]);
        i = i + 1;
        assert(out@ =~= start + data@.subrange(0, i as int));
    }
    assert(data@.subrange(0, data@.len() as int) =~= data@);
}

/// A tag byte, a 16-bit big-endian length and the payload.
fn frame_with_payload(tag: u8, data: &Vec<u8>) -> (r: Vec<u8>)
    ensures
        r@ == seq![tag] + be16(data@.len()) + data@,
{
    let mut v: Vec<u8> = Vec::new();
    v.push(tag);
    push_be16(&mut v, data.len());
    push_all(&mut v, data);
    assert(v@ =~= seq![tag] + be16(data@.len()) + data@);
    v
}

/// The hexadecimal digits, upper case.
pub open spec fn hex_digits() -> Seq<char> {
    seq!['0', '1', '2', '3', '4', '5', '6', '7', '8', '9', 'A', 'B', 'C', 'D', 'E', 'F']
}

/// A byte as two upper-case hexadecimal digits.
pub open spec fn byte_hex(b: u8) -> Seq<char> {
    seq![hex_digits()[b as int / 16], hex_digits()[b as int % 16]]
}

/// Bytes as two-digit hexadecimal numbers separated by a comma and a space.
pub open spec fn list_hex(s: Seq<u8>) -> Seq<char>
    decreases s.len(),
{
    if s.len() == 0 {
        Seq::empty()
    } else if s.len() == 1 {
        byte_hex(s[0])
    } else {
        list_hex(s.drop_last()) + seq![',', ' '] + byte_hex(s.last())
    }
}

/// The text that describes an emulator message.
pub open spec fn message_text(m: EmulatorMessage) -> Seq<char> {
    match m {
        EmulatorMessage::Tsc(v) => seq!['T', 's', 'c', '('] + (if v { seq!['t', 'r', 'u', 'e'] } else { seq!['f', 'a', 'l', 's', 'e'] }) + seq![')'],
        EmulatorMessage::Reset => seq!['R', 'e', 's', 'e', 't'],
        EmulatorMessage::Nfc(b) => seq!['N', 'f', 'c', '(', '['] + list_hex(b@) + seq![']', ')'],
        EmulatorMessage::FlashContent(_) => seq!['F', 'l', 'a', 's', 'h', 'C', 'o', 'n', 't', 'e', 'n', 't', '(', '.', '.', '.', ')'],
    }
}

fn hex_digit(n: u8) -> (r: &'static str)
    requires
        n < 16,
    ensures
        r@ == seq![hex_digits()[n as int]],
{
    if n == 0 {
        proof { reveal_strlit("0"); }
        "0"
    } else if n == 1 {
        proof { reveal_strlit("1"); }
        "1"
    } else if n == 2 {
        proof { reveal_strlit("2"); }
        "2"
    } else if n == 3 {
        proof { reveal_strlit("3"); }
        "3"
    } else if n == 4 {
        proof { reveal_strlit("4"); }
        "4"
    } else if n == 5 {
        proof { reveal_strlit("5"); }
        "5"
    } else if n == 6 {
        proof { reveal_strlit("6"); }
        "6"
    } else if n == 7 {
        proof { reveal_strlit("7"); }
        "7"
    } else if n == 8 {
        proof { reveal_strlit("8"); }
        "8"
    } else if n == 9 {
        proof { reveal_strlit("9"); }
        "9"
    } else if n == 10 {
        proof { reveal_strlit("A"); }
        "A"
    } else if n == 11 {
        proof { reveal_strlit("B"); }
        "B"
    } else if n == 12 {
        proof { reveal_strlit("C"); }
        "C"
    } else if n == 13 {
        proof { reveal_strlit("D"); }
        "D"
    } else if n == 14 {
        proof { reveal_strlit("E"); }
        "E"
    } else {
        proof { reveal_strlit("F"); }
        "F"
    }
}

fn push_list_hex(out: &mut String, bytes: &Vec<u8>)
    ensures
        final(out)@ == old(out)@ + list_hex(bytes@),
{
    let ghost start = out@;
    let mut i: usize = 0;
    while i < bytes.len()
        invariant
            i <= bytes@.len(),
            out@ == start + list_hex(bytes@.subrange(0, i as int)),
        decreases bytes@.len() - i,
    {
        let ghost before = out@;
        if i > 0 {
            proof { reveal_strlit(", "); }
            out.append(", ");
        }
        let b = bytes[i];
        out.append(hex_digit(b / 16));
        out.append(hex_digit(b % 16));
        proof {
            let s = bytes@.subrange(0, i + 1);
            assert(s.drop_last() =~= bytes@.subrange(0, i as int));
            if i > 0 {
                assert(out@ =~= before + seq![',', ' '] + byte_hex(b));
            } else {
                assert(out@ =~= before + byte_hex(b));
                assert(bytes@.subrange(0, 0) =~= Seq::<u8>::empty());
            }
            assert(out@ =~= start + list_hex(s));
        }
        i = i + 1;
    }
    assert(bytes@.subrange(0, bytes@.len() as int) =~= bytes@);
}

impl CardMessage {
    /// Serialises the message for the emulator host.
    pub fn write_to(self) -> (r: Vec<u8>)
        ensures
            r@ == card_frame(self),
    {
        match self {
            CardMessage::Display(pixels) => {
                let mut v: Vec<u8> = Vec::new();
                v.push(0u8);
                let count: usize = pixels.len() % 65536;
                push_be16(&mut v, 2 * count);
                let ghost head = v@;
                let mut i: usize = 0;
                while i < pixels.len()
                    invariant
                        i <= pixels@.len(),
                        v@ == head + pixels_be(pixels@.subrange(0, i as int)),
                    decreases pixels@.len() - i,
                {
                    let p = pixels[i];
                    v.push((p / 256) as u8);
                    v.push((p % 256) as u8);
                    proof {
                        let s = pixels@.subrange(0, i + 1);
                        assert(pixels_be(s) =~= pixels_be(pixels@.subrange(0, i as int)).push((p / 256) as u8).push((p % 256) as u8));
                    }
                    i = i + 1;
                }
                assert(pixels@.subrange(0, pixels@.len() as int) =~= pixels@);
                assert(be16(2 * count as nat) == be16(2 * (pixels@.len() % 65536)));
                v
            },
            CardMessage::Nfc(reply) => frame_with_payload(1u8, &reply),
            CardMessage::Tick => vec![2u8],
            CardMessage::WriteFlash(data) => frame_with_payload(3u8, &data),
            CardMessage::ReadFlash => vec![4u8],
            CardMessage::FinishBoot => vec![5u8],
            CardMessage::FlushDisplay => vec![6u8],
        }
    }
}

impl EmulatorMessage {
    /// Serialises the message for the card.
    pub fn encode(&self) -> (r: Vec<u8>)
        ensures
            r@ == emulator_frame(*self),
    {
        match self {
            EmulatorMessage::Tsc(v) => {
                let r = vec![0x01u8, 0x00u8, 0x01u8, if *v { 0x01u8 } else { 0x00u8 }];
                assert(r@ =~= emulator_frame(*self));
                r
            },
            EmulatorMessage::Nfc(req) => frame_with_payload(2u8, req),
            EmulatorMessage::FlashContent(data) => frame_with_payload(3u8, data),
            EmulatorMessage::Reset => {
                let r = vec![0x04u8];
                assert(r@ =~= emulator_frame(*self));
                r
            },
        }
    }

    /// A short description of the message for logs.
    pub fn to_string(&self) -> (r: String)
        ensures
            r@ == message_text(*self),
    {
        match self {
            EmulatorMessage::Tsc(v) => {
                proof {
                    reveal_strlit("Tsc(");
                    reveal_strlit("true");
                    reveal_strlit("false");
                    reveal_strlit(")");
                }
                let mut r = String::from_str("Tsc(");
                if *v {
                    r.append("true");
                } else {
                    r.append("false");
                }
                r.append(")");
                assert(r@ =~= message_text(*self));
                r
            },
            EmulatorMessage::Reset => {
                proof { reveal_strlit("Reset"); }
                let r = String::from_str("Reset");
                assert(r@ =~= message_text(*self));
                r
            },
            EmulatorMessage::Nfc(bytes) => {
                proof {
                    reveal_strlit("Nfc([");
                    reveal_strlit("])");
                }
                let mut r = String::from_str("Nfc([");
                push_list_hex(&mut r, bytes);
                r.append("])");
                assert(r@ =~= message_text(*self));
                r
            },
            EmulatorMessage::FlashContent(_) => {
                proof { reveal_strlit("FlashContent(...)"); }
                let r = String::from_str("FlashContent(...)");
                assert(r@ =~= message_text(*self));
                r
            },
        }
    }
}

} // verus!
