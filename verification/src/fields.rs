//! The settings dialog's audio buffer field, read as the
//! `audio_buffer_frames` setting.

use vstd::prelude::*;
use crate::text::{chars_of, decimal, decimal_text, digit_char, joined, owned, trim, trimmed};

verus! {

/// What the audio buffer field takes, as the refusal of other text says it.
pub const BUFFER_FRAMES_TAKES: &'static str = "a whole number of frames from 1 to 4294967295";

/// The words the refusal of a buffer field begins with.
pub const BUFFER_REFUSAL_START: &'static str = "The audio buffer takes ";

/// The words between what the field takes and the text that was typed.
pub const BUFFER_REFUSAL_MIDDLE: &'static str = ", not \"";

/// The words the refusal ends with.
pub const BUFFER_REFUSAL_END: &'static str = "\"";

/// Whether `c` is an ASCII decimal digit.
pub open spec fn is_digit(c: char) -> bool {
    '0' <= c && c <= '9'
}

/// The number the decimal digits `s` write.
pub open spec fn digits_value(s: Seq<char>) -> nat
    decreases s.len(),
{
    if s.len() == 0 {
        0
    } else {
        digits_value(s.drop_last()) * 10 + ((s.last() as u32) - ('0' as u32)) as nat
    }
}

/// What `u32::from_str` reads `t` as: one or more decimal digits, after an
/// optional `+`, writing a number no greater than `u32::MAX`; anything else
/// is refused.
pub open spec fn u32_of(t: Seq<char>) -> Option<nat> {
    if all_digits(unsigned_body(t)) && digits_value(unsigned_body(t)) <= u32::MAX {
        Some(digits_value(unsigned_body(t)))
    } else {
        None
    }
}

/// `t` without the `+` it may begin with.
pub open spec fn unsigned_body(t: Seq<char>) -> Seq<char> {
    if t.len() > 0 && t[0] == '+' {
        t.drop_first()
    } else {
        t
    }
}

/// Whether `s` is one or more decimal digits.
pub open spec fn all_digits(s: Seq<char>) -> bool {
    s.len() > 0 && forall|k: int| 0 <= k < s.len() ==> is_digit(#[trigger] s[k])
}

/// The refusal of the buffer field's text `typed`.
pub open spec fn buffer_refusal(typed: Seq<char>) -> Seq<char> {
    BUFFER_REFUSAL_START@ + BUFFER_FRAMES_TAKES@ + BUFFER_REFUSAL_MIDDLE@ + typed
        + BUFFER_REFUSAL_END@
}

/// Reads `t` as `u32::from_str` does, as [`u32_of`] says.
fn read_u32(t: &Vec<char>) -> (r: Option<u32>)
    ensures
        match r {
            Some(n) => u32_of(t@) == Some(n as nat),
            None => u32_of(t@) is None,
        },
{
    let n = t.len();
    let start: usize = if n > 0 && t[0] == '+' { 1 } else { 0 };
    let ghost body = unsigned_body(t@);
    assert(body =~= t@.subrange(start as int, n as int));
    if start == n {
        return None;
    }
    let mut i = start;
    let mut value: u64 = 0;
    let mut too_big = false;
    assert(t@.subrange(start as int, start as int) =~= Seq::<char>::empty());
    while i < n
        invariant
            start <= i <= n == t@.len(),
            body == t@.subrange(start as int, n as int),
            body == unsigned_body(t@),
            forall|k: int| start <= k < i ==> is_digit(#[trigger] t@[k]),
            !too_big ==> value == digits_value(t@.subrange(start as int, i as int)) && value
                <= u32::MAX,
            too_big ==> digits_value(t@.subrange(start as int, i as int)) > u32::MAX,
        decreases n - i,
    {
        let c = t[i];
        if !('0' <= c && c <= '9') {
            assert(body[i - start] == c);
            assert(!is_digit(body[i - start]));
            assert(u32_of(t@) is None);
            return None;
        }
        let d = (c as u32 - '0' as u32) as u64;
        proof {
            let prefix = t@.subrange(start as int, i + 1);
            assert(prefix.drop_last() =~= t@.subrange(start as int, i as int));
            assert(prefix.last() == c);
        }
        if !too_big {
            let next = value * 10 + d;
            if next > 4294967295 {
                too_big = true;
            } else {
                value = next;
            }
        }
        i = i + 1;
    }
    assert(t@.subrange(start as int, n as int) == body);
    if too_big {
        None
    } else {
        assert(value as nat == digits_value(body));
        Some(value as u32)
    }
}

/// What `u16::from_str` reads `t` as: what [`u32_of`] reads, where that is
/// no greater than `u16::MAX`; anything else is refused.
pub open spec fn u16_of(t: Seq<char>) -> Option<nat> {
    match u32_of(t) {
        Some(n) if n <= u16::MAX => Some(n),
        _ => None,
    }
}

/// One end of the library panel's year range as the text in its field
/// gives it: the text, with the spaces around it ignored, read as a year
/// from 0 to 65535. Text that is not such a number leaves that end open.
pub fn year_bound(text: &str) -> (r: Option<u16>)
    ensures
        match r {
            Some(year) => u16_of(trim(text@)) == Some(year as nat),
            None => u16_of(trim(text@)) is None,
        },
{
    let typed = trimmed(text);
    let cs = chars_of(typed.as_str());
    match read_u32(&cs) {
        Some(n) => if n <= 65535 {
            Some(n as u16)
        } else {
            None
        },
        None => None,
    }
}

/// Reads the text of the settings dialog's audio buffer field as the
/// `audio_buffer_frames` setting. Spaces around the text are ignored.
/// Empty text is `None`, which leaves the size to the device, and a whole
/// number from 1 to 4294967295 is that many frames. Any other text is
/// refused with a message that quotes what was typed, the spaces around it
/// removed, and says that the field takes a whole number of frames from 1
/// to 4294967295.
pub fn parse_buffer_frames(text: &str) -> (r: Result<Option<u32>, String>)
    ensures
        match r {
            Ok(None) => trim(text@).len() == 0,
            Ok(Some(frames)) => u32_of(trim(text@)) == Some(frames as nat) && frames >= 1,
            Err(message) => trim(text@).len() > 0 && !(u32_of(trim(text@)) matches Some(n)
                && n >= 1) && message@ == buffer_refusal(trim(text@)),
        },
{
    let typed = trimmed(text);
    let cs = chars_of(typed.as_str());
    if cs.len() == 0 {
        return Ok(None);
    }
    match read_u32(&cs) {
        Some(frames) if frames >= 1 => Ok(Some(frames)),
        _ => {
            let a = joined(BUFFER_REFUSAL_START, BUFFER_FRAMES_TAKES);
            let b = joined(a.as_str(), BUFFER_REFUSAL_MIDDLE);
            let c = joined(b.as_str(), typed.as_str());
            Err(joined(c.as_str(), BUFFER_REFUSAL_END))
        },
    }
}

/// The text the settings dialog's audio buffer field shows for `frames`,
/// which is empty text for the device's own size.
pub fn buffer_field_text(frames: Option<u32>) -> (r: String)
    ensures
        match frames {
            Some(n) => r@ == decimal(n as nat),
            None => r@.len() == 0,
        },
{
    match frames {
        Some(n) => decimal_text(n as u64),
        None => String::new(),
    }
}


/// What reading the audio buffer field does: the setting it leaves, the
/// text the field shows afterwards, whether the setting changed and so is
/// to be written, and the refusal to show when the text was not a size.
pub struct BufferField {
    /// The `audio_buffer_frames` setting afterwards.
    pub frames: Option<u32>,
    /// The text the field shows afterwards.
    pub text: String,
    /// Whether the setting changed, so that the settings file is written.
    pub changed: bool,
    /// Why the text was refused, when it was.
    pub problem: Option<String>,
}

/// Reads the audio buffer field's `text` against the setting `current`, as
/// closing the settings dialog does: a size the setting already has changes
/// nothing, another size or empty text becomes the setting, and text that is
/// not a size leaves the setting as it was, with the reason. Either way the
/// field goes back to showing the setting.
pub fn take_buffer_field(text: &str, current: Option<u32>) -> (r: BufferField)
    ensures
        match parse_buffer_frames_spec(text@) {
            Ok(frames) => r.frames == frames && r.changed == (frames != current) && r.problem is None,
            Err(message) => r.frames == current && !r.changed && (r.problem matches Some(p) && p@ == message),
        },
        match r.frames {
            Some(n) => r.text@ == decimal(n as nat),
            None => r.text@.len() == 0,
        },
{
    match parse_buffer_frames(text) {
        Ok(frames) => {
            let changed = frames != current;
            BufferField { frames, text: buffer_field_text(frames), changed, problem: None }
        },
        Err(problem) => BufferField {
            frames: current,
            text: buffer_field_text(current),
            changed: false,
            problem: Some(problem),
        },
    }
}

/// What [`parse_buffer_frames`] gives for `text`.
pub open spec fn parse_buffer_frames_spec(text: Seq<char>) -> Result<Option<u32>, Seq<char>> {
    let typed = trim(text);
    if typed.len() == 0 {
        Ok(None)
    } else if u32_of(typed) is Some && u32_of(typed)->0 >= 1 {
        Ok(Some(u32_of(typed)->0 as u32))
    } else {
        Err(buffer_refusal(typed))
    }
}

/// What the status line says once a new audio buffer size is written.
pub open spec fn buffer_note_of(frames: Option<u32>) -> Seq<char> {
    match frames {
        Some(n) => "The audio buffer is "@ + decimal(n as nat)
            + " frames, which takes effect the next time playing starts"@,
        None => "The audio buffer is the device's own size, which takes effect the next time playing starts"@,
    }
}

/// What the status line says once a new audio buffer size is written, as
/// [`buffer_note_of`] says.
pub fn buffer_note(frames: Option<u32>) -> (r: String)
    ensures
        r@ == buffer_note_of(frames),
{
    match frames {
        Some(n) => {
            let a = joined("The audio buffer is ", decimal_text(n as u64).as_str());
            let r = joined(a.as_str(), " frames, which takes effect the next time playing starts");
            assert(r@ =~= buffer_note_of(frames));
            r
        },
        None => owned(
            "The audio buffer is the device's own size, which takes effect the next time playing starts",
        ),
    }
}


proof fn lemma_digit_char_value(d: nat)
    requires
        d < 10,
    ensures
        is_digit(digit_char(d)),
        (digit_char(d) as u32) - ('0' as u32) == d,
        digit_char(d) != '+',
{
}

proof fn lemma_decimal_digits(n: nat)
    ensures
        decimal(n).len() > 0,
        forall|k: int| 0 <= k < decimal(n).len() ==> is_digit(#[trigger] decimal(n)[k]),
        decimal(n)[0] != '+',
        digits_value(decimal(n)) == n,
    decreases n,
{
    let d = decimal(n);
    if n < 10 {
        lemma_digit_char_value(n);
        assert(d =~= seq![digit_char(n)]);
        assert(d.drop_last() =~= Seq::<char>::empty());
        assert(d.last() == digit_char(n));
        assert(digits_value(d) == digits_value(d.drop_last()) * 10 + ((d.last() as u32) - ('0' as u32)) as nat);
        assert(digits_value(d.drop_last()) == 0);
    } else {
        lemma_decimal_digits(n / 10);
        lemma_digit_char_value(n % 10);
        let front = decimal(n / 10);
        assert(d == front.push(digit_char(n % 10)));
        assert(d.drop_last() =~= front);
        assert(d.last() == digit_char(n % 10));
        assert(n == (n / 10) * 10 + n % 10);
        assert(digits_value(d) == digits_value(d.drop_last()) * 10 + ((d.last() as u32) - ('0' as u32)) as nat);
        assert(digits_value(front) == n / 10);
        assert forall|k: int| 0 <= k < d.len() implies is_digit(#[trigger] d[k]) by {
            if k < front.len() {
                assert(d[k] == front[k]);
            }
        }
        assert(d[0] == front[0]);
    }
}

proof fn lemma_no_white_trims_to_itself(s: Seq<char>)
    requires
        forall|k: int| 0 <= k < s.len() ==> is_digit(#[trigger] s[k]),
    ensures
        trim(s) == s,
{
    if s.len() > 0 {
        assert(is_digit(s[0]));
        assert(is_digit(s.last()));
    }
}

/// A buffer size the field shows reads back as that size, and the empty
/// field the device's own size reads back as no setting: what the field
/// writes, the field reads.
pub proof fn the_buffer_field_reads_back_what_it_shows(frames: Option<u32>)
    requires
        frames matches Some(n) ==> n >= 1,
    ensures
        parse_buffer_frames_spec(
            match frames {
                Some(n) => decimal(n as nat),
                None => Seq::empty(),
            },
        ) == Ok::<Option<u32>, Seq<char>>(frames),
{
    match frames {
        Some(n) => {
            lemma_decimal_digits(n as nat);
            lemma_no_white_trims_to_itself(decimal(n as nat));
            assert(unsigned_body(decimal(n as nat)) == decimal(n as nat));
        },
        None => {
            assert(trim(Seq::<char>::empty()) =~= Seq::<char>::empty());
        },
    }
}

}
