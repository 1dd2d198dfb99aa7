//! The `roll` command: reads a request such as `2d6`, rolls the dice and
//! writes down what came.

use crate::tag::view_opt;
use crate::text::{chars_of, decimal, join, joined, to_decimal, views};
use rand::Rng;
use vstd::prelude::*;
use vstd::string::StringExecFns;

verus! {

/// The form of a request: a run of digits, the letter `d`, a run of digits,
/// at the start of the word.
pub const ROLL_PATTERN: &'static str = r"^(\d*)d(\d*)";

/// What `regex::Regex::captures` finds for a pattern in a text: the groups
/// of the first match, the whole match first, each with the text it
/// matched if it took part; `None` where the pattern does not compile or
/// does not match.
pub uninterp spec fn captures_of(pattern: Seq<char>, text: Seq<char>) -> Option<
    Seq<Option<Seq<char>>>,
>;

/// The views of the groups of a match.
pub open spec fn groups_view(groups: Option<Vec<Option<String>>>) -> Option<
    Seq<Option<Seq<char>>>,
> {
    match groups {
        Some(found) => Some(found@.map_values(|g: Option<String>| view_opt(g))),
        None => None,
    }
}

/// Compiles `pattern` with `regex::Regex::new` and searches `text` with
/// `Regex::captures`. The result is what `captures_of` names: the groups of
/// the first match, or `None` where the pattern does not compile or does
/// not match.
#[verifier::external_body]
fn captures(pattern: &str, text: &str) -> (groups: Option<Vec<Option<String>>>)
    ensures
        groups_view(groups) == captures_of(pattern@, text@),
{
    let compiled = regex::Regex::new(pattern).ok()?;
    let found = compiled.captures(text)?;
    Some(found.iter().map(|group| group.map(|m| m.as_str().to_owned())).collect())
}

/// `rand::Rng::gen_range` on `rand::thread_rng()`, over the numbers from 1
/// to `sides`, both included: some number of that range. The range must
/// not be empty, or the call panics.
#[verifier::external_body]
fn roll_die(sides: u32) -> (roll: u32)
    requires
        sides >= 1,
    ensures
        1 <= roll <= sides,
{
    rand::thread_rng().gen_range(1..=sides)
}

/// Why a request was not carried out.
#[derive(Clone, Copy, Debug, PartialEq, Eq, Structural)]
pub enum RollError {
    /// The request does not have the form of two numbers around a `d`.
    BadForm,
    /// No dice are to be rolled.
    NoDice,
    /// The dice have no sides.
    NoSides,
}

/// The message that tells a user of an error.
pub open spec fn roll_error_text(e: RollError) -> Seq<char> {
    match e {
        RollError::BadForm => "Please specify a roll in the form XdY (e.g. 2d6)"@,
        RollError::NoDice => "Number of dice cannot be 0"@,
        RollError::NoSides => "Number of sides cannot be 0"@,
    }
}

impl RollError {
    /// The message that tells a user of the error.
    pub fn message(&self) -> (text: String)
        ensures
            text@ == roll_error_text(*self),
    {
        match self {
            RollError::BadForm => "Please specify a roll in the form XdY (e.g. 2d6)".to_owned(),
            RollError::NoDice => "Number of dice cannot be 0".to_owned(),
            RollError::NoSides => "Number of sides cannot be 0".to_owned(),
        }
    }
}

/// The number that a decimal digit stands for.
pub open spec fn digit_value(c: char) -> Option<nat> {
    if '0' <= c && c <= '9' {
        Some((c as u32 - '0' as u32) as nat)
    } else {
        None
    }
}

/// The number that a run of decimal digits stands for; `None` where the
/// run is empty or holds anything but digits.
pub open spec fn number(s: Seq<char>) -> Option<nat>
    decreases s.len(),
{
    if s.len() == 0 {
        None
    } else if s.len() == 1 {
        digit_value(s[0])
    } else {
        match (number(s.drop_last()), digit_value(s.last())) {
            (Some(n), Some(d)) => Some(10 * n + d),
            _ => None,
        }
    }
}

/// The number that a text stands for: decimal digits, with a plus sign
/// before them or without, that make a number which a `u32` can hold.
pub open spec fn parsed(s: Seq<char>) -> Option<u32> {
    let digits = if s.len() > 0 && s[0] == '+' {
        s.drop_first()
    } else {
        s
    };
    match number(digits) {
        Some(n) => if n <= u32::MAX {
            Some(n as u32)
        } else {
            None
        },
        None => None,
    }
}

/// A run of digits stands for a number at least as large as each of its
/// beginnings does, and each beginning is a run of digits too.
proof fn lemma_number_grows(s: Seq<char>, k: int)
    requires
        1 <= k <= s.len(),
        number(s) is Some,
    ensures
        number(s.take(k)) is Some,
        number(s.take(k))->Some_0 <= number(s)->Some_0,
    decreases s.len(),
{
    if k == s.len() {
        assert(s.take(k) =~= s);
    } else {
        assert(s.drop_last().take(k) =~= s.take(k));
        lemma_number_grows(s.drop_last(), k);
    }
}

/// Reads a number as `parsed` says.
pub fn parse_u32(s: &str) -> (r: Option<u32>)
    ensures
        r == parsed(s@),
{
    let text = chars_of(s);
    let start: usize = if text.len() > 0 && text[0] == '+' {
        1
    } else {
        0
    };
    let ghost digits = if start == 1 {
        s@.drop_first()
    } else {
        s@
    };
    if start == text.len() {
        assert(digits.len() == 0);
        return None;
    }
    let mut value: u64 = 0;
    let mut i: usize = start;
    while i < text.len()
        invariant
            text@ == s@,
            start <= 1,
            start <= i <= text.len(),
            digits.len() == text.len() - start,
            forall|k: int| 0 <= k < digits.len() ==> digits[k] == text@[k + start],
            digits == (if s@.len() > 0 && s@[0] == '+' {
                s@.drop_first()
            } else {
                s@
            }),
            value <= u32::MAX,
            i == start ==> value == 0,
            i > start ==> number(digits.take(i - start)) == Some(value as nat),
        decreases text.len() - i,
    {
        let c = text[i];
        let ghost upto = digits.take(i - start + 1);
        proof {
            assert(upto.last() == c);
            assert(upto.drop_last() =~= digits.take(i - start));
        }
        if !('0' <= c && c <= '9') {
            proof {
                assert(digit_value(upto.last()) is None);
                assert(number(upto) is None);
                if number(digits) is Some {
                    lemma_number_grows(digits, i - start + 1);
                }
            }
            return None;
        }
        let d: u64 = (c as u32 - '0' as u32) as u64;
        let next: u64 = 10 * value + d;
        proof {
            assert(digit_value(upto.last()) == Some(d as nat));
            if i == start {
                assert(upto.len() == 1);
                assert(upto[0] == upto.last());
            } else {
                assert(upto.len() > 1);
                assert(number(upto.drop_last()) == Some(value as nat));
            }
            assert(number(upto) == Some(next as nat));
        }
        if next > u32::MAX as u64 {
            proof {
                if number(digits) is Some {
                    lemma_number_grows(digits, i - start + 1);
                }
            }
            return None;
        }
        value = next;
        i += 1;
    }
    assert(digits.take(i - start) =~= digits);
    Some(value as u32)
}

/// What a request asks for, from what the pattern found in it: how many
/// dice, and how many sides each has.
pub open spec fn request_of(groups: Option<Seq<Option<Seq<char>>>>) -> Result<
    (u32, u32),
    RollError,
> {
    match groups {
        Some(found) => if found.len() >= 3 && found[1] is Some && found[2] is Some && parsed(
            found[1]->Some_0,
        ) is Some && parsed(found[2]->Some_0) is Some {
            let dice = parsed(found[1]->Some_0)->Some_0;
            let sides = parsed(found[2]->Some_0)->Some_0;
            if dice == 0 {
                Err(RollError::NoDice)
            } else if sides == 0 {
                Err(RollError::NoSides)
            } else {
                Ok((dice, sides))
            }
        } else {
            Err(RollError::BadForm)
        },
        None => Err(RollError::BadForm),
    }
}

/// Reads what a request asks for from what the pattern found in it: the
/// first group is the number of dice, the second the number of sides. Both
/// must be numbers, and neither may be 0.
pub fn read_request(groups: Option<Vec<Option<String>>>) -> (r: Result<(u32, u32), RollError>)
    ensures
        r == request_of(groups_view(groups)),
{
    let found = match groups {
        Some(found) => found,
        None => {
            return Err(RollError::BadForm);
        },
    };
    if found.len() < 3 {
        return Err(RollError::BadForm);
    }
    let dice = match &found[1] {
        Some(text) => parse_u32(text.as_str()),
        None => None,
    };
    let sides = match &found[2] {
        Some(text) => parse_u32(text.as_str()),
        None => None,
    };
    match (dice, sides) {
        (Some(dice), Some(sides)) => {
            if dice == 0 {
                Err(RollError::NoDice)
            } else if sides == 0 {
                Err(RollError::NoSides)
            } else {
                Ok((dice, sides))
            }
        },
        _ => Err(RollError::BadForm),
    }
}

/// Reads what the request `arg` asks for.
pub fn parse_request(arg: &str) -> (r: Result<(u32, u32), RollError>)
    ensures
        r == request_of(captures_of(ROLL_PATTERN@, arg@)),
{
    read_request(captures(ROLL_PATTERN, arg))
}

/// Whether `rolls` can be what `dice` dice of `sides` sides show.
pub open spec fn possible(rolls: Seq<u32>, dice: u32, sides: u32) -> bool {
    rolls.len() == dice && forall|i: int| 0 <= i < rolls.len() ==> 1 <= #[trigger] rolls[i] <= sides
}

/// Rolls `dice` dice of `sides` sides.
pub fn roll_dice(dice: u32, sides: u32) -> (rolls: Vec<u32>)
    requires
        sides >= 1,
    ensures
        possible(rolls@, dice, sides),
{
    let mut rolls: Vec<u32> = Vec::new();
    let mut i: u32 = 0;
    while i < dice
        invariant
            i <= dice,
            sides >= 1,
            possible(rolls@, i, sides),
        decreases dice - i,
    {
        rolls.push(roll_die(sides));
        i += 1;
    }
    rolls
}

/// The sum of the rolls.
pub open spec fn sum_of(rolls: Seq<u32>) -> nat
    decreases rolls.len(),
{
    if rolls.len() == 0 {
        0
    } else {
        sum_of(rolls.drop_last()) + rolls.last() as nat
    }
}

/// The rolls as decimal numerals.
pub open spec fn numerals(rolls: Seq<u32>) -> Seq<Seq<char>> {
    rolls.map_values(|r: u32| decimal(r as nat))
}

/// What is written down of the rolls: of a single roll its number, of
/// several the numbers with plus signs between them and their sum.
pub open spec fn roll_text(rolls: Seq<u32>) -> Seq<char> {
    if rolls.len() == 1 {
        decimal(sum_of(rolls))
    } else {
        joined(numerals(rolls), " + "@) + " = "@ + decimal(sum_of(rolls))
    }
}

/// Writes down the rolls: a single roll as its number, several as the
/// numbers with plus signs between them and their sum. There must be
/// fewer rolls than 2 to the power of 32.
pub fn describe(rolls: &Vec<u32>) -> (text: String)
    requires
        rolls.len() <= u32::MAX,
    ensures
        text@ == roll_text(rolls@),
{
    let mut sum: u64 = 0;
    let mut shown: Vec<String> = Vec::new();
    let mut i: usize = 0;
    while i < rolls.len()
        invariant
            i <= rolls.len(),
            rolls.len() <= u32::MAX,
            sum == sum_of(rolls@.take(i as int)),
            sum <= i * u32::MAX,
            shown.len() == i,
            views(shown@) == numerals(rolls@.take(i as int)),
        decreases rolls.len() - i,
    {
        let ghost seen = rolls@.take(i as int);
        let ghost more = rolls@.take(i + 1);
        proof {
            assert(more.drop_last() =~= seen);
            assert(more.last() == rolls@[i as int]);
            assert(i * u32::MAX + u32::MAX <= u32::MAX * u32::MAX + u32::MAX) by (nonlinear_arith)
                requires
                    i <= u32::MAX,
            ;
            assert((i + 1) * u32::MAX == i * u32::MAX + u32::MAX) by (nonlinear_arith);
        }
        let ghost before = shown@;
        sum = sum + rolls[i] as u64;
        shown.push(to_decimal(rolls[i] as u64));
        proof {
            assert forall|k: int| 0 <= k < more.len() implies views(shown@)[k] == numerals(
                more,
            )[k] by {
                if k < i {
                    assert(views(before)[k] == numerals(seen)[k]);
                }
            }
            assert(views(shown@) =~= numerals(more));
        }
        i += 1;
    }
    assert(rolls@.take(i as int) =~= rolls@);
    if rolls.len() == 1 {
        to_decimal(sum)
    } else {
        let mut text = join(&shown, " + ");
        text.append(" = ");
        text.append(to_decimal(sum).as_str());
        text
    }
}

/// What the `roll` command can answer to its words: to no word and to a
/// malformed request the errors' messages, to a request some rolls that
/// the dice asked for can show.
pub open spec fn roll_post(args: Seq<String>, text: Seq<char>) -> bool {
    if args.len() == 0 {
        text == roll_error_text(RollError::BadForm)
    } else {
        match request_of(captures_of(ROLL_PATTERN@, args[0]@)) {
            Ok((dice, sides)) => exists|rolls: Seq<u32>|
                possible(rolls, dice, sides) && text == #[trigger] roll_text(rolls),
            Err(e) => text == roll_error_text(e),
        }
    }
}

/// The `roll` command: rolls the dice that the first word asks for, and
/// answers with what they show.
pub fn handler(args: Vec<String>) -> (text: String)
    ensures
        roll_post(args@, text@),
{
    if args.len() == 0 {
        return RollError::BadForm.message();
    }
    match parse_request(args[0].as_str()) {
        Ok((dice, sides)) => {
            let rolls = roll_dice(dice, sides);
            describe(&rolls)
        },
        Err(e) => e.message(),
    }
}

} // verus!
