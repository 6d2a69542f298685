use vstd::prelude::*;
use vstd::string::*;

verus! {

/// Modifier bit of the left shift key.
pub const LEFT_SHIFT: u8 = 0x02;

/// The report that releases every key.
pub const RELEASE: [u8; 8] = [0, 0, 0, 0, 0, 0, 0, 0];

/// The key that types `c` on a US layout: whether shift is held, and the
/// key's usage ID. `None` for characters the encoder does not support.
pub open spec fn key_of(c: char) -> Option<(bool, u8)> {
    if 'a' <= c && c <= 'z' {
        Some((false, (c as u32 - 'a' as u32 + 4) as u8))
    } else if 'A' <= c && c <= 'Z' {
        Some((true, (c as u32 - 'A' as u32 + 4) as u8))
    } else if '1' <= c && c <= '9' {
        Some((false, (c as u32 - '1' as u32 + 30) as u8))
    } else {
        match c {
            '0' => Some((false, 39)),
            ' ' => Some((false, 44)),
            '-' => Some((false, 45)),
            '=' => Some((false, 46)),
            '[' => Some((false, 47)),
            ']' => Some((false, 48)),
            '\\' => Some((false, 49)),
            ';' => Some((false, 51)),
            '\'' => Some((false, 52)),
            '`' => Some((false, 53)),
            ',' => Some((false, 54)),
            '.' => Some((false, 55)),
            '/' => Some((false, 56)),
            '!' => Some((true, 30)),
            '@' => Some((true, 31)),
            '#' => Some((true, 32)),
            '$' => Some((true, 33)),
            '%' => Some((true, 34)),
            '^' => Some((true, 35)),
            '&' => Some((true, 36)),
            '*' => Some((true, 37)),
            '(' => Some((true, 38)),
            ')' => Some((true, 39)),
            '_' => Some((true, 45)),
            '+' => Some((true, 46)),
            '{' => Some((true, 47)),
            '}' => Some((true, 48)),
            '|' => Some((true, 49)),
            ':' => Some((true, 51)),
            '"' => Some((true, 52)),
            '~' => Some((true, 53)),
            '<' => Some((true, 54)),
            '>' => Some((true, 55)),
            '?' => Some((true, 56)),
            _ => None,
        }
    }
}

pub open spec fn supported(c: char) -> bool {
    key_of(c) is Some
}

/// The single-key report: modifier byte, reserved byte, usage ID, padding.
pub open spec fn report_bytes(shift: bool, usage: u8) -> Seq<u8> {
    seq![if shift { LEFT_SHIFT } else { 0u8 }, 0u8, usage, 0u8, 0u8, 0u8, 0u8, 0u8]
}

/// The report that types a supported character.
pub open spec fn report_of(c: char) -> Seq<u8>
    recommends
        supported(c),
{
    let k = key_of(c).unwrap();
    report_bytes(k.0, k.1)
}

pub open spec fn release_bytes() -> Seq<u8> {
    seq![0u8, 0u8, 0u8, 0u8, 0u8, 0u8, 0u8, 0u8]
}

/// Converts a given character to the HID report that would send that
/// character on a standard US keyboard.
pub fn char_to_report(c: char) -> (r: Option<[u8; 8]>)
    ensures
        r is Some <==> supported(c),
        r is Some ==> r->0@ == report_of(c),
{
    let key: Option<(bool, u8)> = match c {
        'a'..='z' => Some((false, (c as u32 - 'a' as u32 + 4) as u8)),
        'A'..='Z' => Some((true, (c as u32 - 'A' as u32 + 4) as u8)),
        '1'..='9' => Some((false, (c as u32 - '1' as u32 + 30) as u8)),
        '0' => Some((false, 39)),
        ' ' => Some((false, 44)),
        '-' => Some((false, 45)),
        '=' => Some((false, 46)),
        '[' => Some((false, 47)),
        ']' => Some((false, 48)),
        '\\' => Some((false, 49)),
        ';' => Some((false, 51)),
        '\'' => Some((false, 52)),
        '`' => Some((false, 53)),
        ',' => Some((false, 54)),
        '.' => Some((false, 55)),
        '/' => Some((false, 56)),
        '!' => Some((true, 30)),
        '@' => Some((true, 31)),
        '#' => Some((true, 32)),
        '$' => Some((true, 33)),
        '%' => Some((true, 34)),
        '^' => Some((true, 35)),
        '&' => Some((true, 36)),
        '*' => Some((true, 37)),
        '(' => Some((true, 38)),
        ')' => Some((true, 39)),
        '_' => Some((true, 45)),
        '+' => Some((true, 46)),
        '{' => Some((true, 47)),
        '}' => Some((true, 48)),
        '|' => Some((true, 49)),
        ':' => Some((true, 51)),
        '"' => Some((true, 52)),
        '~' => Some((true, 53)),
        '<' => Some((true, 54)),
        '>' => Some((true, 55)),
        '?' => Some((true, 56)),
        _ => None,
    };
    match key {
        Some((shift, usage)) => {
            let modifier: u8 = if shift { LEFT_SHIFT } else { 0 };
            let report: [u8; 8] = [modifier, 0, usage, 0, 0, 0, 0, 0];
            assert(report@ =~= report_bytes(shift, usage));
            Some(report)
        },
        None => None,
    }
}

/// Errors of keyboard emulation.
#[derive(Debug)]
pub enum KeyboardError {
    /// A character of the text has no report; nothing was typed.
    UnsupportedChar(char),
    /// The HID endpoint refused a write.
    IOError(std::io::Error),
}

/// The reports that type `text`: for each character, its key-down report
/// followed by the release report.
pub open spec fn keystrokes(text: Seq<char>) -> Seq<Seq<u8>> {
    Seq::new(
        2 * text.len(),
        |k: int| if k % 2 == 0 { report_of(text[k / 2]) } else { release_bytes() },
    )
}

/// `i` is the position of the first unsupported character of `text`.
pub open spec fn first_unsupported(text: Seq<char>, i: int) -> bool {
    &&& 0 <= i < text.len()
    &&& !supported(text[i])
    &&& forall|j: int| 0 <= j < i ==> supported(#[trigger] text[j])
}

/// Plans the typing of `text`, all or nothing: either every character is
/// supported and the result holds the reports to write, in order, or the
/// first unsupported character is returned and nothing is to be written.
pub fn keyboard_reports(text: &str) -> (r: Result<Vec<[u8; 8]>, KeyboardError>)
    ensures
        r is Ok <==> forall|i: int| 0 <= i < text@.len() ==> supported(#[trigger] text@[i]),
        r is Ok ==> r->Ok_0@.map_values(|a: [u8; 8]| a@) == keystrokes(text@),
        r is Err ==> exists|i: int|
            first_unsupported(text@, i) && r->Err_0 == KeyboardError::UnsupportedChar(text@[i]),
{
    let n = text.unicode_len();
    let mut reports: Vec<[u8; 8]> = Vec::new();
    let mut i: usize = 0;
    while i < n
        invariant
            n == text@.len(),
            i <= n,
            reports@.len() == 2 * i,
            forall|j: int| 0 <= j < i ==> supported(#[trigger] text@[j]),
            reports@.map_values(|a: [u8; 8]| a@) == keystrokes(text@.take(i as int)),
        decreases n - i,
    {
        let c = text.get_char(i);
        match char_to_report(c) {
            Some(report) => {
                let ghost before = reports@;
                reports.push(report);
                reports.push(RELEASE);
                assert(RELEASE@ =~= release_bytes());
                let ghost cur = text@.take(i + 1);
                let ghost prev = text@.take(i as int);
                assert(reports@ == before.push(report).push(RELEASE));
                assert forall|k: int| 0 <= k < 2 * i implies #[trigger] keystrokes(cur)[k]
                    == keystrokes(prev)[k] by {
                    assert(cur[k / 2] == prev[k / 2]);
                }
                assert(reports@.map_values(|a: [u8; 8]| a@) =~= keystrokes(cur)) by {
                    assert(before.map_values(|a: [u8; 8]| a@) == keystrokes(prev));
                    assert forall|k: int| 0 <= k < 2 * i implies reports@[k] == before[k] by {}
                    assert(cur[i as int] == c);
                }
            },
            None => {
                assert(first_unsupported(text@, i as int));
                return Err(KeyboardError::UnsupportedChar(c));
            },
        }
        i = i + 1;
    }
    assert(text@.take(n as int) =~= text@);
    Ok(reports)
}

/// Every letter, digit, the space and the punctuation of a US keyboard's
/// printable range has a report; control characters have none.
pub proof fn lemma_report_coverage(c: char)
    ensures
        ('a' <= c <= 'z' || 'A' <= c <= 'Z' || '0' <= c <= '9') ==> supported(c),
        (' ' <= c <= '~') ==> supported(c),
        (c < ' ' || c == '\x7f') ==> !supported(c),
{
}

} // verus!
