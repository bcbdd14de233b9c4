//! What the machine reports of its lid, its battery and its power source.
//!
//! The files are read elsewhere. The functions here say which file counts, what
//! its text means, and what stands in for a file that is not there.

use crate::decimal::{
    decimal, format_i8, lemma_decimal_holds_digits_only, parse_i8, parse_i8_spec, signed_decimal,
};
use crate::text::{chars_of, contains, contains_text, without_last};
use vstd::prelude::*;

verus! {

/// Where the state of the lid may be found, best candidate first.
pub const LID_STATUS_PATH: [&'static str; 4] = [
    "/proc/acpi/button/lid/LID/state",
    "/proc/acpi/button/lid/LID0/state",
    "/proc/acpi/button/lid/LID1/state",
    "/proc/acpi/button/lid/LID2/state",
];

/// Where the charge of the battery may be found, best candidate first.
pub const BATTERY_CHARGE_PATH: [&'static str; 4] = [
    "/sys/class/power_supply/BAT/capacity",
    "/sys/class/power_supply/BAT0/capacity",
    "/sys/class/power_supply/BAT1/capacity",
    "/sys/class/power_supply/BAT2/capacity",
];

/// Where the state of the power source may be found, best candidate first.
pub const POWER_SOURCE_PATH: [&'static str; 4] = [
    "/sys/class/power_supply/AC/online",
    "/sys/class/power_supply/AC0/online",
    "/sys/class/power_supply/AC1/online",
    "/sys/class/power_supply/ACAD/online",
];

/// Why a reading could not be had.
#[derive(Clone, Copy, PartialEq, Eq, Debug, Structural)]
pub enum Error {
    /// None of the candidates is there, or the file that is there does not hold
    /// what it should.
    Unknown,
    /// A file is there and could not be read.
    IO,
}

impl Error {
    /// The name of the variant.
    pub fn name(&self) -> (text: String)
        ensures
            text@ == self.name_text(),
    {
        match self {
            Error::Unknown => "Unknown".to_owned(),
            Error::IO => "IO".to_owned(),
        }
    }

    /// The name of the variant, as characters.
    pub open spec fn name_text(&self) -> Seq<char> {
        match self {
            Error::Unknown => "Unknown"@,
            Error::IO => "IO"@,
        }
    }
}

/// The state of the lid.
#[derive(Clone, Copy, PartialEq, Eq, Debug, Structural)]
pub enum LidState {
    Open,
    Closed,
    /// The machine has no lid to speak of.
    Unapplicable,
    /// The lid's file says neither open nor closed.
    Unknown,
}

impl LidState {
    /// The state in lower case.
    pub fn name(&self) -> (text: String)
        ensures
            text@ == self.name_text(),
    {
        match self {
            LidState::Open => "open".to_owned(),
            LidState::Closed => "closed".to_owned(),
            LidState::Unapplicable => "unapplicable".to_owned(),
            LidState::Unknown => "unknown".to_owned(),
        }
    }

    /// The state in lower case, as characters.
    pub open spec fn name_text(&self) -> Seq<char> {
        match self {
            LidState::Open => "open"@,
            LidState::Closed => "closed"@,
            LidState::Unapplicable => "unapplicable"@,
            LidState::Unknown => "unknown"@,
        }
    }
}

/// What came of looking for a file among its candidates and reading it.
#[derive(PartialEq, Eq, Debug)]
pub enum Reading {
    /// None of the candidates is there.
    Missing,
    /// The best candidate is there and could not be read.
    Failed,
    /// The text of the best candidate.
    Text(String),
}

/// Picks the first of `paths` that is there; `present` says of each path, in
/// the same order, whether it is.
pub fn get_best_path(paths: [&'static str; 4], present: [bool; 4]) -> (r: Result<
    &'static str,
    Error,
>)
    ensures
        match r {
            Ok(path) => exists|i: int|
                0 <= i < 4 && present@[i] && path == paths@[i] && forall|j: int|
                    0 <= j < i ==> !present@[j],
            Err(e) => e == Error::Unknown && forall|j: int| 0 <= j < 4 ==> !present@[j],
        },
{
    let mut i: usize = 0;
    while i < 4
        invariant
            i <= 4,
            forall|j: int| 0 <= j < i ==> !present@[j],
        decreases 4 - i,
    {
        if present[i] {
            return Ok(paths[i]);
        }
        i += 1;
    }
    Err(Error::Unknown)
}

/// What the text of the lid's file says: open where it holds `open`, else closed
/// where it holds `closed`, else unknown.
pub open spec fn lid_state_of(text: Seq<char>) -> LidState {
    if contains_text(text, "open"@) {
        LidState::Open
    } else if contains_text(text, "closed"@) {
        LidState::Closed
    } else {
        LidState::Unknown
    }
}

/// The state of the lid. A machine without the file has no lid; a file that
/// cannot be read is an error.
pub fn read_lid_state(reading: Reading) -> (r: Result<LidState, Error>)
    ensures
        r == match reading {
            Reading::Missing => Ok::<LidState, Error>(LidState::Unapplicable),
            Reading::Failed => Err(Error::IO),
            Reading::Text(text) => Ok(lid_state_of(text@)),
        },
{
    match reading {
        Reading::Missing => Ok(LidState::Unapplicable),
        Reading::Failed => Err(Error::IO),
        Reading::Text(text) => {
            if contains(text.as_str(), "open") {
                Ok(LidState::Open)
            } else if contains(text.as_str(), "closed") {
                Ok(LidState::Closed)
            } else {
                Ok(LidState::Unknown)
            }
        },
    }
}

/// The charge of a full battery, in percent.
pub const FULL_CHARGE: i8 = 100;

/// The charge that the text of the battery's file states: the text without its
/// last character, read as a signed 8-bit number, where that number is a
/// percentage, from nothing to full. Any other text states no charge.
pub open spec fn charge_of(text: Seq<char>) -> Option<i8> {
    match parse_i8_spec(without_last(text)) {
        Some(n) => if 0 <= n && n <= FULL_CHARGE {
            Some(n)
        } else {
            None
        },
        None => None,
    }
}

/// Reads the text of the battery's file as a charge, if it states one.
pub fn parse_charge(text: &str) -> (charge: Option<i8>)
    ensures
        charge == charge_of(text@),
{
    let chars = chars_of(text);
    let n = chars.len();
    let end = if n == 0 {
        0
    } else {
        n - 1
    };
    assert(chars@.subrange(0, end as int) =~= without_last(text@));
    match parse_i8(&chars, 0, end) {
        Some(number) => if 0 <= number && number <= FULL_CHARGE {
            Some(number)
        } else {
            None
        },
        None => None,
    }
}

/// The charge of the battery in percent, from nothing to full.
///
/// A machine without the file runs on mains and counts as full. A file that
/// cannot be read is an `IO` error. A file whose text states no charge, because
/// it is no number or a number that is no percentage, is an `Unknown` error.
pub fn read_battery_charge(reading: Reading) -> (r: Result<i8, Error>)
    ensures
        r == match reading {
            Reading::Missing => Ok::<i8, Error>(FULL_CHARGE),
            Reading::Failed => Err(Error::IO),
            Reading::Text(text) => match charge_of(text@) {
                Some(charge) => Ok(charge),
                None => Err(Error::Unknown),
            },
        },
        r matches Ok(charge) ==> 0 <= charge <= FULL_CHARGE,
{
    match reading {
        Reading::Missing => Ok(FULL_CHARGE),
        Reading::Failed => Err(Error::IO),
        Reading::Text(text) => match parse_charge(text.as_str()) {
            Some(charge) => Ok(charge),
            None => Err(Error::Unknown),
        },
    }
}

/// Whether the text of the power source's file says that mains power is on: the
/// text without its last character is `1`.
pub open spec fn on_mains(text: Seq<char>) -> bool {
    without_last(text) == seq!['1']
}

/// Whether the machine is on mains power. A machine without the file counts as
/// plugged in; a file that cannot be read is an error.
pub fn read_power_source(reading: Reading) -> (r: Result<bool, Error>)
    ensures
        r == match reading {
            Reading::Missing => Ok::<bool, Error>(true),
            Reading::Failed => Err(Error::IO),
            Reading::Text(text) => Ok(on_mains(text@)),
        },
{
    match reading {
        Reading::Missing => Ok(true),
        Reading::Failed => Err(Error::IO),
        Reading::Text(text) => {
            let chars = chars_of(text.as_str());
            let plugged = chars.len() == 2 && chars[0] == '1';
            proof {
                if chars.len() == 2 {
                    assert(without_last(text@) =~= seq![chars@[0]]);
                }
                if on_mains(text@) {
                    assert(without_last(text@).len() == 1);
                    assert(without_last(text@)[0] == '1');
                }
            }
            Ok(plugged)
        },
    }
}

/// The character that begins a terminal control sequence.
pub const ESCAPE: char = '\x1b';

/// The control sequence that switches the style `code` on.
pub open spec fn style_on(code: Seq<char>) -> Seq<char> {
    seq![ESCAPE, '['] + code + seq!['m']
}

/// The control sequence that resets all styles.
pub open spec fn style_off() -> Seq<char> {
    seq![ESCAPE, '[', '0', 'm']
}

/// Whether `painted` is one of the forms in which `text` comes back from being
/// painted in the style `code`: as it is, where colours are off; between the
/// style and the reset, where they are on; followed by the reset alone, where
/// they were switched off while the text was being formatted.
pub open spec fn is_painted(painted: Seq<char>, code: Seq<char>, text: Seq<char>) -> bool {
    ||| painted == text
    ||| painted == style_on(code) + text + style_off()
    ||| painted == text + style_off()
}

/// Green text, as `colored` renders it.
///
/// Calls `colored::Colorize::green` on `text` and formats the result. Whether
/// `colored` colours at all depends on the process: its environment, its
/// terminal, and a switch that any thread can throw at run time. Trusted: a
/// text without an escape character comes back in one of the forms of
/// `is_painted` for foreground colour 32; which one is left open, and so is
/// everything about a text that holds an escape character.
#[verifier::external_body]
fn paint_green(text: &str) -> (painted: String)
    ensures
        !text@.contains(ESCAPE) ==> is_painted(painted@, seq!['3', '2'], text@),
{
    colored::Colorize::green(text).to_string()
}

/// Red text, as `colored` renders it.
///
/// Calls `colored::Colorize::red` on `text` and formats the result. Trusted: a
/// text without an escape character comes back in one of the forms of
/// `is_painted` for foreground colour 31; which one is left open.
#[verifier::external_body]
fn paint_red(text: &str) -> (painted: String)
    ensures
        !text@.contains(ESCAPE) ==> is_painted(painted@, seq!['3', '1'], text@),
{
    colored::Colorize::red(text).to_string()
}

/// Bold text, as `colored` renders it.
///
/// Calls `colored::Colorize::bold` on `text` and formats the result. Trusted: a
/// text without an escape character comes back in one of the forms of
/// `is_painted` for style 1; which one is left open.
#[verifier::external_body]
fn paint_bold(text: &str) -> (painted: String)
    ensures
        !text@.contains(ESCAPE) ==> is_painted(painted@, seq!['1'], text@),
{
    colored::Colorize::bold(text).to_string()
}

/// The status line that shows `value`.
pub open spec fn battery_line_text(value: Seq<char>) -> Seq<char> {
    "Battery: "@ + value
}

/// A charge as shown: the number and a percent sign.
pub open spec fn charge_text(charge: i8) -> Seq<char> {
    signed_decimal(charge as int).push('%')
}

/// The colour code of a charge: green while charging, red otherwise.
pub open spec fn charge_code(charging: bool) -> Seq<char> {
    if charging {
        seq!['3', '2']
    } else {
        seq!['3', '1']
    }
}

/// Whether `status` is the status line of `value` painted in the style `code`,
/// in one of the forms in which painted text comes.
pub open spec fn shows(status: Seq<char>, code: Seq<char>, value: Seq<char>) -> bool {
    ||| status == battery_line_text(value)
    ||| status == battery_line_text(style_on(code) + value + style_off())
    ||| status == battery_line_text(value + style_off())
}

/// The status text for a battery whose charge could not be read.
pub open spec fn unreadable_text(e: Error) -> Seq<char> {
    "Battery charge could not be read\n"@ + e.name_text()
}

/// The status line that shows `value`, which is the charge or its stand-in as
/// it is to appear, colours included.
pub fn battery_line(value: &str) -> (line: String)
    ensures
        line@ == battery_line_text(value@),
{
    let mut line = "Battery: ".to_owned();
    line.append(value);
    line
}

/// A charge as shown holds no escape character.
proof fn lemma_charge_text_is_plain(charge: i8)
    ensures
        !charge_text(charge).contains(ESCAPE),
{
    let magnitude = if charge < 0 {
        (-charge) as nat
    } else {
        charge as nat
    };
    lemma_decimal_holds_digits_only(magnitude, ESCAPE);
    let text = charge_text(charge);
    if text.contains(ESCAPE) {
        let i = choose|i: int| 0 <= i < text.len() && text[i] == ESCAPE;
        if charge < 0 {
            assert(text[i] == decimal(magnitude)[i - 1]);
        } else {
            assert(text[i] == decimal(magnitude)[i]);
        }
    }
}

/// The one-line status of the battery.
///
/// `battery` is `None` on a machine without a battery, and else what reading
/// the charge gave; `charging` says whether the machine is on mains power. The
/// charge is shown in green while charging and in red otherwise, `N/A` in
/// bold; whether the colours are switched on is for `colored` to say, so the
/// line comes in one of the forms of `shows`.
pub fn get_battery_status(battery: Option<Result<i8, Error>>, charging: bool) -> (status: String)
    ensures
        match battery {
            Some(Ok(charge)) => shows(status@, charge_code(charging), charge_text(charge)),
            Some(Err(e)) => status@ == unreadable_text(e),
            None => shows(status@, seq!['1'], "N/A"@),
        },
{
    match battery {
        Some(Ok(charge)) => {
            let mut level = format_i8(charge);
            level.append("%");
            proof {
                reveal_strlit("%");
                assert(level@ =~= charge_text(charge));
                lemma_charge_text_is_plain(charge);
            }
            let painted = if charging {
                paint_green(level.as_str())
            } else {
                paint_red(level.as_str())
            };
            battery_line(painted.as_str())
        },
        Some(Err(e)) => {
            let mut status = "Battery charge could not be read\n".to_owned();
            status.append(e.name().as_str());
            status
        },
        None => {
            proof {
                reveal_strlit("N/A");
                assert(!"N/A"@.contains(ESCAPE));
            }
            let painted = paint_bold("N/A");
            battery_line(painted.as_str())
        },
    }
}

} // verus!
