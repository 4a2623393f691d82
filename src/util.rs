use vstd::prelude::*;

use crate::info::Kind;
use crate::StreamDeckInput;
use vstd::utf8::{decode_utf8, valid_utf8};

verus! {

/// The key whose image is mirrored within its row: column `c` becomes `columns - 1 - c`.
pub open spec fn spec_flip_key_index(kind: Kind, key: u8) -> u8 {
    let cols = kind.spec_column_count();
    let col = key % cols;
    ((key - col) + ((cols - 1) - col)) as u8
}

/// Mirrors a key index within its row.
pub fn flip_key_index(kind: &Kind, key: u8) -> (r: u8)
    requires
        key < kind.spec_key_count(),
    ensures
        r == spec_flip_key_index(*kind, key),
        r < kind.spec_key_count(),
{
    let cols = kind.column_count();
    let col = key % cols;
    assert(kind.spec_key_count() % kind.spec_column_count() == 0 && kind.spec_column_count() > 0);
    assert((key - col) + ((cols - 1) - col) < kind.spec_key_count()) by (nonlinear_arith)
        requires
            col == key % cols,
            cols > 0,
            key < kind.spec_key_count(),
            kind.spec_key_count() % cols == 0,
    {
        assert(key - col == (key / cols) * cols);
    }
    (key - col) + ((cols - 1) - col)
}

} // verus!

verus! {

/// A decoded input report, as the contracts see it.
pub enum InputSnapshot {
    NoData,
    Buttons(Seq<bool>),
    Encoders(Seq<bool>),
    Twist(Seq<i8>),
    Press(u16, u16),
    LongPress(u16, u16),
    Swipe((u16, u16), (u16, u16)),
}

/// Length of the input report that a model sends.
pub open spec fn input_report_len(kind: Kind) -> nat {
    match kind {
        Kind::Plus => 14,
        Kind::Original | Kind::Mini | Kind::MiniMk2 | Kind::MiniMk2Module => (1 + kind.spec_key_count()) as nat,
        _ => (4 + kind.spec_key_count() + kind.spec_touchpoint_count()) as nat,
    }
}

/// A little-endian 16-bit field.
pub open spec fn le16(lo: u8, hi: u8) -> u16 {
    (lo + 256 * hi) as u16
}

/// A byte read as a two's complement signed value.
pub open spec fn signed(b: u8) -> i8 {
    if b < 128 {
        b as i8
    } else {
        (b - 256) as i8
    }
}

/// Pressed states of keys, then touch points, from a report; a report whose first byte
/// is zero has none. The first model reports its keys mirrored within each row.
pub open spec fn button_states(kind: Kind, d: Seq<u8>) -> Seq<bool> {
    if d[0] == 0 {
        Seq::empty()
    } else {
        match kind {
            Kind::Original => Seq::new(
                kind.spec_key_count() as nat,
                |i: int| d[spec_flip_key_index(kind, i as u8) + 1] != 0,
            ),
            Kind::Mini | Kind::MiniMk2 | Kind::MiniMk2Module => Seq::new(
                kind.spec_key_count() as nat,
                |i: int| d[1 + i] != 0,
            ),
            _ => Seq::new(
                (kind.spec_key_count() + kind.spec_touchpoint_count()) as nat,
                |i: int| d[4 + i] != 0,
            ),
        }
    }
}

/// A touch strip report: gesture kind at byte 4, start point at bytes 6..10, end point at 10..14.
pub open spec fn lcd_input(d: Seq<u8>) -> Option<InputSnapshot> {
    let start = (le16(d[6], d[7]), le16(d[8], d[9]));
    if d[4] == 1 {
        Some(InputSnapshot::Press(start.0, start.1))
    } else if d[4] == 2 {
        Some(InputSnapshot::LongPress(start.0, start.1))
    } else if d[4] == 3 {
        Some(InputSnapshot::Swipe(start, (le16(d[10], d[11]), le16(d[12], d[13]))))
    } else {
        None
    }
}

/// An encoder report: byte 4 tells presses from twists, one byte per encoder from byte 5.
pub open spec fn encoder_input(kind: Kind, d: Seq<u8>) -> Option<InputSnapshot> {
    let n = kind.spec_encoder_count() as nat;
    if d[4] == 0 {
        Some(InputSnapshot::Encoders(Seq::new(n, |i: int| d[5 + i] != 0)))
    } else if d[4] == 1 {
        Some(InputSnapshot::Twist(Seq::new(n, |i: int| signed(d[5 + i]))))
    } else {
        None
    }
}

/// What an input report of a model says, or `None` where its shape is not one the model sends.
pub open spec fn decode_input(kind: Kind, d: Seq<u8>) -> Option<InputSnapshot> {
    if d.len() < input_report_len(kind) {
        None
    } else if d[0] == 0 {
        Some(InputSnapshot::NoData)
    } else if kind == Kind::Plus {
        if d[1] == 0 {
            Some(InputSnapshot::Buttons(button_states(kind, d)))
        } else if d[1] == 2 {
            lcd_input(d)
        } else if d[1] == 3 {
            encoder_input(kind, d)
        } else {
            None
        }
    } else {
        Some(InputSnapshot::Buttons(button_states(kind, d)))
    }
}

/// Length of the input report that a model sends.
pub fn input_report_length(kind: &Kind) -> (r: usize)
    ensures
        r == input_report_len(*kind),
{
    match kind {
        Kind::Plus => 14,
        Kind::Original | Kind::Mini | Kind::MiniMk2 | Kind::MiniMk2Module => 1 + kind.key_count() as usize,
        _ => 4 + kind.key_count() as usize + kind.touchpoint_count() as usize,
    }
}

/// Reads a little-endian 16-bit field.
fn read_le16(lo: u8, hi: u8) -> (r: u16)
    ensures
        r == le16(lo, hi),
{
    lo as u16 + (hi as u16) * 256
}

/// Reads a byte as a signed value.
fn read_signed(b: u8) -> (r: i8)
    ensures
        r == signed(b),
{
    if b < 128 {
        b as i8
    } else {
        (b as i16 - 256) as i8
    }
}

/// Reads the pressed states of keys and touch points from a report.
pub fn read_button_states(kind: &Kind, states: &[u8]) -> (r: Vec<bool>)
    requires
        states@.len() >= input_report_len(*kind),
    ensures
        r@ == button_states(*kind, states@),
{
    let mut bools: Vec<bool> = Vec::new();
    if states[0] == 0 {
        assert(bools@ =~= button_states(*kind, states@));
        return bools;
    }
    let (count, offset): (usize, usize) = match kind {
        Kind::Original | Kind::Mini | Kind::MiniMk2 | Kind::MiniMk2Module => (kind.key_count() as usize, 1),
        _ => (kind.key_count() as usize + kind.touchpoint_count() as usize, 4),
    };
    let mut i: usize = 0;
    while i < count
        invariant
            i <= count,
            states@.len() >= input_report_len(*kind),
            states@[0] != 0,
            count == button_states(*kind, states@).len(),
            offset == (if kind.is_legacy() { 1usize } else { 4usize }),
            bools@ == button_states(*kind, states@).take(i as int),
        decreases count - i,
    {
        let index: usize = if let Kind::Original = kind {
            flip_key_index(kind, i as u8) as usize + 1
        } else {
            offset + i
        };
        bools.push(states[index] != 0);
        assert(bools@ =~= button_states(*kind, states@).take(i + 1));
        i = i + 1;
    }
    assert(bools@ =~= button_states(*kind, states@));
    bools
}

/// Reads a touch strip report.
pub fn read_lcd_input(data: &[u8]) -> (r: Option<StreamDeckInput>)
    requires
        data@.len() >= 14,
    ensures
        match r {
            Some(i) => lcd_input(data@) == Some(i.view()),
            None => lcd_input(data@) is None,
        },
{
    let start_x = read_le16(data[6], data[7]);
    let start_y = read_le16(data[8], data[9]);
    if data[4] == 1 {
        Some(StreamDeckInput::TouchScreenPress(start_x, start_y))
    } else if data[4] == 2 {
        Some(StreamDeckInput::TouchScreenLongPress(start_x, start_y))
    } else if data[4] == 3 {
        let end_x = read_le16(data[10], data[11]);
        let end_y = read_le16(data[12], data[13]);
        Some(StreamDeckInput::TouchScreenSwipe((start_x, start_y), (end_x, end_y)))
    } else {
        None
    }
}

/// Reads an encoder report.
pub fn read_encoder_input(kind: &Kind, data: &[u8]) -> (r: Option<StreamDeckInput>)
    requires
        data@.len() >= 5 + kind.spec_encoder_count(),
    ensures
        match r {
            Some(i) => encoder_input(*kind, data@) == Some(i.view()),
            None => encoder_input(*kind, data@) is None,
        },
{
    let n = kind.encoder_count() as usize;
    if data[4] == 0 {
        let mut v: Vec<bool> = Vec::new();
        let mut i: usize = 0;
        while i < n
            invariant
                i <= n,
                n == kind.spec_encoder_count(),
                data@.len() >= 5 + n,
                v@ =~= Seq::new(i as nat, |j: int| data@[5 + j] != 0),
            decreases n - i,
        {
            v.push(data[5 + i] != 0);
            i = i + 1;
        }
        Some(StreamDeckInput::EncoderStateChange(v))
    } else if data[4] == 1 {
        let mut v: Vec<i8> = Vec::new();
        let mut i: usize = 0;
        while i < n
            invariant
                i <= n,
                n == kind.spec_encoder_count(),
                data@.len() >= 5 + n,
                v@ =~= Seq::new(i as nat, |j: int| signed(data@[5 + j])),
            decreases n - i,
        {
            v.push(read_signed(data[5 + i]));
            i = i + 1;
        }
        Some(StreamDeckInput::EncoderTwist(v))
    } else {
        None
    }
}

} // verus!

verus! {

/// Relies on String::from_utf8: it succeeds exactly on valid UTF-8 and then holds the
/// characters that the bytes encode.
#[verifier::external_body]
fn from_utf8_bytes(bytes: Vec<u8>) -> (r: Option<String>)
    ensures
        r is Some <==> valid_utf8(bytes@),
        r matches Some(s) ==> s@ == decode_utf8(bytes@),
{
    String::from_utf8(bytes).ok()
}

/// Relies on str::replace with an empty replacement: every occurrence of `c` goes,
/// the other characters stay in order.
#[verifier::external_body]
pub(crate) fn remove_char(s: &str, c: char) -> (r: String)
    ensures
        r@ == s@.filter(|x: char| x != c),
{
    s.replace(c, "")
}

/// The bytes of a string field: everything before the first nul, or all of it.
pub open spec fn terminated(b: Seq<u8>) -> Seq<u8>
    decreases b.len(),
{
    if b.len() == 0 || b[0] == 0 {
        Seq::empty()
    } else {
        seq![b[0]] + terminated(b.drop_first())
    }
}

/// The text of a string field: its bytes up to the first nul, decoded.
pub open spec fn text_of(bytes: Seq<u8>) -> Option<Seq<char>> {
    if valid_utf8(terminated(bytes)) {
        Some(decode_utf8(terminated(bytes)))
    } else {
        None
    }
}

/// A field whose first `i` bytes are not nul ends where the rest of it ends.
proof fn lemma_terminated_split(b: Seq<u8>, i: int)
    requires
        0 <= i <= b.len(),
        forall|j: int| 0 <= j < i ==> b[j] != 0,
    ensures
        terminated(b) == b.take(i) + terminated(b.skip(i)),
    decreases i,
{
    if i > 0 {
        lemma_terminated_split(b.drop_first(), i - 1);
        assert(b.drop_first().skip(i - 1) =~= b.skip(i));
        assert(seq![b[0]] + b.drop_first().take(i - 1) =~= b.take(i));
        assert(seq![b[0]] + (b.drop_first().take(i - 1) + terminated(b.skip(i))) =~= b.take(i)
            + terminated(b.skip(i)));
    } else {
        assert(b.take(0) + terminated(b) =~= terminated(b));
        assert(b.skip(0) =~= b);
    }
}

/// Copies the bytes of `data` from `from` on.
pub fn copy_from(data: &[u8], from: usize) -> (r: Vec<u8>)
    requires
        from <= data@.len(),
    ensures
        r@ == data@.skip(from as int),
{
    let mut out: Vec<u8> = Vec::new();
    let mut i: usize = from;
    while i < data.len()
        invariant
            from <= i <= data@.len(),
            out@ == data@.subrange(from as int, i as int),
        decreases data@.len() - i,
    {
        out.push(data[i]);
        assert(data@.subrange(from as int, i + 1) =~= data@.subrange(from as int, i as int).push(
            data@[i as int],
        ));
        i = i + 1;
    }
    assert(data@.subrange(from as int, i as int) =~= data@.skip(from as int));
    out
}

/// Decodes a string field of a feature report, which ends at its first nul byte.
pub fn extract_str(bytes: &[u8]) -> (r: Option<String>)
    ensures
        match r {
            Some(s) => text_of(bytes@) == Some(s@),
            None => text_of(bytes@) is None,
        },
{
    let mut end: usize = 0;
    while end < bytes.len() && bytes[end] != 0
        invariant
            end <= bytes@.len(),
            forall|j: int| 0 <= j < end ==> bytes@[j] != 0,
        decreases bytes@.len() - end,
    {
        end = end + 1;
    }
    proof {
        lemma_terminated_split(bytes@, end as int);
        let rest = bytes@.skip(end as int);
        assert(rest.len() == 0 || rest[0] == 0);
        assert(terminated(rest) =~= Seq::<u8>::empty());
        assert(bytes@.take(end as int) + Seq::<u8>::empty() =~= bytes@.take(end as int));
    }
    let mut field: Vec<u8> = Vec::new();
    let mut i: usize = 0;
    while i < end
        invariant
            i <= end <= bytes@.len(),
            field@ == bytes@.take(i as int),
        decreases end - i,
    {
        field.push(bytes[i]);
        assert(bytes@.take(i + 1) =~= bytes@.take(i as int).push(bytes@[i as int]));
        i = i + 1;
    }
    from_utf8_bytes(field)
}

/// The buffer handed to a feature report read: the report id, then zeros up to `length`.
pub fn feature_report_buffer(report_id: u8, length: usize) -> (r: Vec<u8>)
    requires
        length >= 1,
    ensures
        r@.len() == length,
        r@[0] == report_id,
        forall|i: int| 1 <= i < length ==> r@[i] == 0,
{
    let mut buf: Vec<u8> = vec![report_id];
    while buf.len() < length
        invariant
            1 <= buf@.len() <= length,
            buf@[0] == report_id,
            forall|i: int| 1 <= i < buf@.len() ==> buf@[i] == 0,
        decreases length - buf.len(),
    {
        buf.push(0u8);
    }
    buf
}

} // verus!
