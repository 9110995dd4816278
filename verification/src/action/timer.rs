//! The timer engine: parses free-text durations such as `1d2h30m` into a
//! strictly positive number of seconds, and renders the confirmation text.
//!
//! A timer, once started, can only terminate by firing; the suspension and
//! the follow-up notification are the caller's outside work.
use vstd::prelude::*;

use crate::err::RKBServiceRequestErr;

verus! {

/// Rejections of user-supplied duration text.
#[derive(Debug, Clone, Copy, PartialEq, Eq, Structural)]
pub enum Error {
    /// Empty or zero-length duration input.
    CannotParseEmptyUserInputTime,
    /// Numeric parsing or accumulation left the representable range.
    Overflow,
    /// The text does not follow the `#d#h#m#s` pattern.
    DoesntFollowPattern,
}

impl Error {
    /// The user-visible plain-language text of this rejection.
    pub open spec fn spec_message(&self) -> Seq<char> {
        match self {
            Error::CannotParseEmptyUserInputTime => "user input time is required"@,
            Error::Overflow => "user input time is out of bounds"@,
            Error::DoesntFollowPattern => "user input time does not follow standard pattern"@,
        }
    }

    /// Renders the rejection as its user-visible text.
    pub fn message(&self) -> (r: String)
        ensures
            r@ == self.spec_message(),
    {
        match self {
            Error::CannotParseEmptyUserInputTime => String::from_str("user input time is required"),
            Error::Overflow => String::from_str("user input time is out of bounds"),
            Error::DoesntFollowPattern => String::from_str(
                "user input time does not follow standard pattern",
            ),
        }
    }
}

/// Seconds denoted by one unit suffix: `d`, `h`, `m` or `s`; any other
/// character is not a unit.
pub open spec fn spec_unit_multiplier(c: char) -> Option<int> {
    if c == 'd' {
        Some(86400)
    } else if c == 'h' {
        Some(3600)
    } else if c == 'm' {
        Some(60)
    } else if c == 's' {
        Some(1)
    } else {
        None
    }
}

fn unit_multiplier(c: char) -> (r: Option<i64>)
    ensures
        r is Some <==> spec_unit_multiplier(c) is Some,
        r matches Some(m) ==> spec_unit_multiplier(c) == Some(m as int),
{
    if c == 'd' {
        Some(86400)
    } else if c == 'h' {
        Some(3600)
    } else if c == 'm' {
        Some(60)
    } else if c == 's' {
        Some(1)
    } else {
        None
    }
}

/// Whether `c` is a decimal digit.
pub open spec fn is_digit_char(c: char) -> bool {
    '0' <= c && c <= '9'
}

/// Numeric value of a decimal digit character; any non-digit counts as the
/// highest digit, but every use guards with `is_digit_char`.
pub open spec fn spec_digit_val(c: char) -> int {
    if c == '0' {
        0
    } else if c == '1' {
        1
    } else if c == '2' {
        2
    } else if c == '3' {
        3
    } else if c == '4' {
        4
    } else if c == '5' {
        5
    } else if c == '6' {
        6
    } else if c == '7' {
        7
    } else if c == '8' {
        8
    } else {
        9
    }
}

/// Reads one digit character as its numeric value.
fn digit_val(c: char) -> (d: u64)
    ensures
        d as int == spec_digit_val(c),
        d <= 9,
{
    match c {
        '0' => 0,
        '1' => 1,
        '2' => 2,
        '3' => 3,
        '4' => 4,
        '5' => 5,
        '6' => 6,
        '7' => 7,
        '8' => 8,
        _ => 9,
    }
}

/// Whether every character of `s` is a decimal digit.
pub open spec fn is_digit_seq(s: Seq<char>) -> bool {
    forall|i: int| 0 <= i < s.len() ==> is_digit_char(#[trigger] s[i])
}

/// Value of a sequence of decimal digits, most significant first.
pub open spec fn spec_dec_val(s: Seq<char>) -> int
    decreases s.len(),
{
    if s.len() == 0 {
        0
    } else {
        spec_dec_val(s.drop_last()) * 10 + spec_digit_val(s.last())
    }
}

/// Ten to the `n`th power.
pub open spec fn pow10(n: nat) -> int
    decreases n,
{
    if n == 0 {
        1
    } else {
        10 * pow10((n - 1) as nat)
    }
}

proof fn lemma_pow10_mono(a: nat, b: nat)
    requires
        a <= b,
    ensures
        0 < pow10(a) <= pow10(b),
    decreases b,
{
    if b > 0 {
        if a == b {
            lemma_pow10_mono((a - 1) as nat, (b - 1) as nat);
        } else {
            lemma_pow10_mono(a, (b - 1) as nat);
        }
    }
}

proof fn lemma_pow10_19()
    ensures
        pow10(19) == 10000000000000000000,
{
    assert(pow10(0) == 1);
    assert(pow10(1) == 10);
    assert(pow10(2) == 100);
    assert(pow10(3) == 1000);
    assert(pow10(4) == 10000);
    assert(pow10(5) == 100000);
    assert(pow10(6) == 1000000);
    assert(pow10(7) == 10000000);
    assert(pow10(8) == 100000000);
    assert(pow10(9) == 1000000000);
    assert(pow10(10) == 10000000000);
    assert(pow10(11) == 100000000000);
    assert(pow10(12) == 1000000000000);
    assert(pow10(13) == 10000000000000);
    assert(pow10(14) == 100000000000000);
    assert(pow10(15) == 1000000000000000);
    assert(pow10(16) == 10000000000000000);
    assert(pow10(17) == 100000000000000000);
    assert(pow10(18) == 1000000000000000000);
    assert(pow10(19) == 10000000000000000000);
}

proof fn lemma_dec_val_upper(s: Seq<char>)
    requires
        is_digit_seq(s),
    ensures
        0 <= spec_dec_val(s) < pow10(s.len()),
    decreases s.len(),
{
    if s.len() > 0 {
        assert(forall|i: int| 0 <= i < s.len() - 1 ==> is_digit_char(#[trigger] s.drop_last()[i]));
        lemma_dec_val_upper(s.drop_last());
        assert(is_digit_char(s.last()));
    }
}

proof fn lemma_dec_val_lower(s: Seq<char>)
    requires
        is_digit_seq(s),
        s.len() > 0,
        s[0] != '0',
    ensures
        spec_dec_val(s) >= pow10((s.len() - 1) as nat),
    decreases s.len(),
{
    if s.len() == 1 {
        assert(is_digit_char(s[0]));
        assert(s.drop_last() =~= Seq::<char>::empty());
        assert(s.last() == s[0]);
        assert(spec_digit_val(s[0]) >= 1);
    } else {
        assert(forall|i: int| 0 <= i < s.len() - 1 ==> is_digit_char(#[trigger] s.drop_last()[i]));
        assert(s.drop_last()[0] == s[0]);
        lemma_dec_val_lower(s.drop_last());
        assert(is_digit_char(s.last()));
        assert(spec_digit_val(s.last()) >= 0);
        assert(spec_dec_val(s) == spec_dec_val(s.drop_last()) * 10 + spec_digit_val(s.last()));
        assert(pow10((s.len() - 1) as nat) == 10 * pow10((s.len() - 2) as nat));
    }
}

proof fn lemma_dec_val_strip_zero(s: Seq<char>)
    requires
        s.len() > 0,
        s[0] == '0',
    ensures
        spec_dec_val(s) == spec_dec_val(s.drop_first()),
    decreases s.len(),
{
    if s.len() == 1 {
        assert(spec_dec_val(s) == spec_dec_val(s.drop_last()) * 10 + spec_digit_val(s.last()));
        assert(s.drop_first() =~= Seq::<char>::empty());
    } else {
        assert(s.drop_last()[0] == s[0]);
        lemma_dec_val_strip_zero(s.drop_last());
        assert(s.drop_last().drop_first() =~= s.drop_first().drop_last());
        assert(s.drop_first().last() == s.last());
        assert(spec_dec_val(s.drop_first()) == spec_dec_val(s.drop_first().drop_last()) * 10
            + spec_digit_val(s.drop_first().last()));
    }
}

/// What `str::parse::<i64>` accepts and yields: an optional sign followed by
/// at least one decimal digit, the value within `i64` range.
pub open spec fn spec_parse_i64(s: Seq<char>) -> Option<int> {
    let signed = s.len() > 0 && (s[0] == '+' || s[0] == '-');
    let digits = if signed {
        s.drop_first()
    } else {
        s
    };
    if digits.len() == 0 || !is_digit_seq(digits) {
        None
    } else {
        let v = if signed && s[0] == '-' {
            -spec_dec_val(digits)
        } else {
            spec_dec_val(digits)
        };
        if i64::MIN <= v <= i64::MAX {
            Some(v)
        } else {
            None
        }
    }
}

/// Parses signed decimal text into an `i64`, rejecting empty input, a stray
/// sign, any non-digit, and values outside the `i64` range.
#[verifier::loop_isolation(false)]
fn parse_i64(buffer: &Vec<char>) -> (r: Option<i64>)
    ensures
        r is Some <==> spec_parse_i64(buffer@) is Some,
        r matches Some(v) ==> spec_parse_i64(buffer@) == Some(v as int),
{
    let n: usize = buffer.len();
    if n == 0 {
        return None;
    }
    let c0: char = buffer[0];
    let signed: bool = c0 == '+' || c0 == '-';
    let negative: bool = c0 == '-';
    let start: usize = if signed {
        1
    } else {
        0
    };
    let ghost digits = buffer@.subrange(start as int, n as int);
    proof {
        if signed {
            assert(digits =~= buffer@.drop_first());
        } else {
            assert(digits =~= buffer@);
        }
    }
    if n == start {
        return None;
    }
    let mut i: usize = start;
    while i < n
        invariant
            start <= i <= n,
            n == buffer@.len(),
            digits == buffer@.subrange(start as int, n as int),
            forall|k: int| start <= k < i ==> is_digit_char(#[trigger] buffer@[k]),
        decreases n - i,
    {
        let c: char = buffer[i];
        if !(('0' <= c) && (c <= '9')) {
            proof {
                assert(!is_digit_char(digits[i - start]));
                assert(!is_digit_seq(digits));
            }
            return None;
        }
        i = i + 1;
    }
    proof {
        assert(forall|k: int| 0 <= k < digits.len() ==> is_digit_char(#[trigger] digits[k]));
    }
    // Skip leading zeros; they do not change the value.
    let mut z: usize = start;
    while z < n && buffer[z] == '0'
        invariant
            start <= z <= n,
            n == buffer@.len(),
            digits == buffer@.subrange(start as int, n as int),
            is_digit_seq(digits),
            spec_dec_val(digits) == spec_dec_val(buffer@.subrange(z as int, n as int)),
        decreases n - z,
    {
        proof {
            let cur = buffer@.subrange(z as int, n as int);
            lemma_dec_val_strip_zero(cur);
            assert(cur.drop_first() =~= buffer@.subrange(z as int + 1, n as int));
        }
        z = z + 1;
    }
    let ghost sig = buffer@.subrange(z as int, n as int);
    if n - z > 19 {
        // At least twenty significant digits: the magnitude is at least
        // 10^19, which is outside the i64 range for either sign.
        proof {
            assert(sig[0] == buffer@[z as int]);
            assert(is_digit_char(sig[0]));
            assert(forall|k: int| 0 <= k < sig.len() ==> is_digit_char(#[trigger] sig[k]));
            lemma_dec_val_lower(sig);
            lemma_pow10_mono(19, (sig.len() - 1) as nat);
            lemma_pow10_19();
        }
        return None;
    }
    let mut acc: u64 = 0;
    let mut j: usize = z;
    proof {
        lemma_pow10_19();
        assert(buffer@.subrange(z as int, z as int) =~= Seq::<char>::empty());
    }
    while j < n
        invariant
            z <= j <= n,
            n == buffer@.len(),
            n - z <= 19,
            sig == buffer@.subrange(z as int, n as int),
            is_digit_seq(sig),
            pow10(19) == 10000000000000000000,
            acc as int == spec_dec_val(buffer@.subrange(z as int, j as int)),
            (acc as int) < pow10((j - z) as nat),
        decreases n - j,
    {
        let c: char = buffer[j];
        let d: u64 = digit_val(c);
        proof {
            assert(is_digit_char(sig[j - z]));
            let pre = buffer@.subrange(z as int, j as int);
            let cur = buffer@.subrange(z as int, j as int + 1);
            assert(cur.drop_last() =~= pre);
            assert(cur.last() == c);
            lemma_pow10_mono(((j - z) + 1) as nat, 19);
        }
        acc = acc * 10 + d;
        j = j + 1;
    }
    proof {
        lemma_dec_val_upper(sig);
    }
    if negative {
        // The magnitude of i64::MIN is one more than i64::MAX.
        if acc <= 9223372036854775807u64 {
            Some(-(acc as i64))
        } else if acc == 9223372036854775808u64 {
            Some(i64::MIN)
        } else {
            None
        }
    } else {
        if acc <= 9223372036854775807u64 {
            Some(acc as i64)
        } else {
            None
        }
    }
}

/// One step of the duration scan is pending: `rest` is the text still to
/// read, `buffer` the digits collected since the last unit, `acc` the
/// seconds flushed so far.  A unit character flushes `buffer * multiplier`
/// into `acc`; anything unparsable or out of range is an overflow rejection.
pub open spec fn spec_scan(rest: Seq<char>, buffer: Seq<char>, acc: int) -> Result<int, Error>
    decreases rest.len(),
{
    if rest.len() == 0 {
        Ok(acc)
    } else {
        let c = rest[0];
        match spec_unit_multiplier(c) {
            Option::None => spec_scan(rest.drop_first(), buffer.push(c), acc),
            Option::Some(m) => match spec_parse_i64(buffer) {
                Option::None => Err(Error::Overflow),
                Option::Some(base) => if base * m > i64::MAX || base * m < i64::MIN {
                    Err(Error::Overflow)
                } else if acc + base * m > i64::MAX || acc + base * m < i64::MIN {
                    Err(Error::Overflow)
                } else {
                    spec_scan(rest.drop_first(), Seq::empty(), acc + base * m)
                },
            },
        }
    }
}

/// The seconds denoted by duration text: the first character seeds the
/// digit buffer, every following unit character flushes it; trailing
/// characters after the last unit are ignored, and empty input does not
/// follow the pattern.
pub open spec fn spec_try_deltatime(s: Seq<char>) -> Result<int, Error> {
    if s.len() == 0 {
        Err(Error::DoesntFollowPattern)
    } else {
        spec_scan(s.drop_first(), seq![s[0]], 0)
    }
}

/// Whether the executable parse outcome carries exactly the specified one.
pub open spec fn deltatime_matches(r: Result<i64, Error>, m: Result<int, Error>) -> bool {
    match (r, m) {
        (Result::Ok(a), Result::Ok(b)) => a as int == b,
        (Result::Err(a), Result::Err(b)) => a == b,
        _ => false,
    }
}

/// Parses duration text such as `1d2h30m` into seconds, scanning left to
/// right: digits accumulate into a buffer, and each recognized unit suffix
/// (`d`, `h`, `m`, `s`) flushes buffer times multiplier into the total.
pub fn try_deltatime(string: &str) -> (r: Result<i64, Error>)
    ensures
        deltatime_matches(r, spec_try_deltatime(string@)),
{
    let n: usize = string.unicode_len();
    if n == 0 {
        return Err(Error::DoesntFollowPattern);
    }
    let mut buffer: Vec<char> = Vec::new();
    buffer.push(string.get_char(0));
    let mut delta: i64 = 0;
    let mut idx: usize = 1;
    proof {
        assert(string@.skip(1)[0] == string@[1] || string@.skip(1).len() == 0);
        assert(buffer@ =~= seq![string@[0]]);
    }
    while idx < n
        invariant
            1 <= idx <= n,
            n == string@.len(),
            spec_scan(string@.skip(idx as int), buffer@, delta as int) == spec_try_deltatime(
                string@,
            ),
        decreases n - idx,
    {
        let ghost rest = string@.skip(idx as int);
        let c: char = string.get_char(idx);
        proof {
            assert(rest[0] == c);
            assert(rest.drop_first() =~= string@.skip(idx as int + 1));
        }
        match unit_multiplier(c) {
            Option::None => {
                buffer.push(c);
            },
            Option::Some(multiplier) => {
                let base: i64 = match parse_i64(&buffer) {
                    Option::Some(b) => b,
                    Option::None => {
                        return Err(Error::Overflow);
                    },
                };
                let add: i64 = match base.checked_mul(multiplier) {
                    Option::Some(x) => x,
                    Option::None => {
                        return Err(Error::Overflow);
                    },
                };
                let next: i64 = match delta.checked_add(add) {
                    Option::Some(x) => x,
                    Option::None => {
                        return Err(Error::Overflow);
                    },
                };
                delta = next;
                buffer.clear();
                proof {
                    assert(buffer@ =~= Seq::<char>::empty());
                }
            },
        }
        idx = idx + 1;
    }
    proof {
        assert(string@.skip(n as int) =~= Seq::<char>::empty());
    }
    Ok(delta)
}

/// An accepted timer: when it was created, how long it sleeps, and what it
/// says when it fires.  Times are Unix seconds; the duration is strictly
/// positive by construction.
#[derive(Debug, Clone)]
pub struct Timer {
    /// Creation time, Unix seconds.
    pub dob: i64,
    /// Sleep length in seconds, strictly positive.
    pub delta: u64,
    /// The optional trailing recall message, sent when the timer fires.
    pub recalled_message: String,
}

/// How the timer argument is cut: the part before the first space is the
/// duration text, the part after it the recall message; with no space the
/// whole argument is duration text.
pub open spec fn spec_timer_split(c: Seq<char>) -> (Seq<char>, Seq<char>) {
    let i = crate::spec_space_idx(c);
    if i < c.len() {
        (c.take(i), c.skip(i + 1))
    } else {
        (c, Seq::empty())
    }
}

impl Timer {
    /// Builds a timer from the command's argument (`None` when the message
    /// carried none) and the current time.  Absent argument text, a zero
    /// duration, a negative duration and unparsable or out-of-range numbers
    /// are each rejected with their own error; a timer is returned exactly
    /// for a strictly positive parsed duration.
    pub fn try_new(content: Option<String>, now: i64) -> (r: Result<Timer, RKBServiceRequestErr>)
        ensures
            content is None ==> r == Err::<Timer, RKBServiceRequestErr>(
                RKBServiceRequestErr::Timer(Error::CannotParseEmptyUserInputTime),
            ),
            content matches Some(c) ==> ({
                let (dtext, recall) = spec_timer_split(c@);
                match spec_try_deltatime(dtext) {
                    Result::Err(e) => r == Err::<Timer, RKBServiceRequestErr>(
                        RKBServiceRequestErr::Timer(e),
                    ),
                    Result::Ok(v) => if v == 0 {
                        r == Err::<Timer, RKBServiceRequestErr>(
                            RKBServiceRequestErr::Timer(Error::CannotParseEmptyUserInputTime),
                        )
                    } else if v < 0 {
                        r == Err::<Timer, RKBServiceRequestErr>(
                            RKBServiceRequestErr::Timer(Error::Overflow),
                        )
                    } else {
                        r matches Ok(t) && t.dob == now && t.delta == v && t.recalled_message@
                            == recall
                    },
                }
            }),
    {
        let c: String = match content {
            Option::Some(c) => c,
            Option::None => {
                return Err(RKBServiceRequestErr::Timer(Error::CannotParseEmptyUserInputTime));
            },
        };
        let s: &str = c.as_str();
        let n: usize = s.unicode_len();
        let mut j: usize = 0;
        while j < n && s.get_char(j) != ' '
            invariant
                0 <= j <= n,
                n == s@.len(),
                forall|k: int| 0 <= k < j ==> s@[k] != ' ',
            decreases n - j,
        {
            j = j + 1;
        }
        proof {
            crate::lemma_space_idx_at(s@, j as int);
        }
        let dtext: String;
        let recall: String;
        if j < n {
            dtext = s.substring_char(0, j).to_owned();
            recall = s.substring_char(j + 1, n).to_owned();
            proof {
                assert(dtext@ =~= spec_timer_split(c@).0);
                assert(recall@ =~= spec_timer_split(c@).1);
            }
        } else {
            dtext = s.to_owned();
            recall = String::new();
        }
        let v: i64 = match try_deltatime(dtext.as_str()) {
            Result::Ok(v) => v,
            Result::Err(e) => {
                return Err(RKBServiceRequestErr::Timer(e));
            },
        };
        if v == 0 {
            return Err(RKBServiceRequestErr::Timer(Error::CannotParseEmptyUserInputTime));
        }
        if v < 0 {
            return Err(RKBServiceRequestErr::Timer(Error::Overflow));
        }
        Ok(Timer { dob: now, delta: v as u64, recalled_message: recall })
    }

    /// The confirmation text pinned while the timer sleeps: the duration
    /// broken down into days, hours, minutes and seconds, the start and end
    /// times as the caller rendered them, then the recall message.
    pub fn describe(&self, start: &str, end: &str) -> (r: String)
        ensures
            r@ == "[Time: "@ + spec_delta_text(self.delta as nat) + " | Start: "@ + start@
                + " | End: "@ + end@ + "]\n"@ + self.recalled_message@,
    {
        let delta_text = delta_text(self.delta);
        let mut text = String::from_str("[Time: ");
        text.append(delta_text.as_str());
        text.append(" | Start: ");
        text.append(start);
        text.append(" | End: ");
        text.append(end);
        text.append("]\n");
        text.append(self.recalled_message.as_str());
        text
    }
}

/// The decimal digits of `n`, most significant first.
pub open spec fn spec_u64_digits(n: nat) -> Seq<char>
    decreases n,
{
    if n < 10 {
        seq![spec_digit_char(n as int)]
    } else {
        spec_u64_digits(n / 10) + seq![spec_digit_char((n % 10) as int)]
    }
}

/// The character for one decimal digit; values past nine all render as the
/// highest digit, but every use stays below ten.
pub open spec fn spec_digit_char(d: int) -> char {
    if d == 0 {
        '0'
    } else if d == 1 {
        '1'
    } else if d == 2 {
        '2'
    } else if d == 3 {
        '3'
    } else if d == 4 {
        '4'
    } else if d == 5 {
        '5'
    } else if d == 6 {
        '6'
    } else if d == 7 {
        '7'
    } else if d == 8 {
        '8'
    } else {
        '9'
    }
}

fn digit_str(d: u64) -> (r: &'static str)
    ensures
        r@ == seq![spec_digit_char(d as int)],
{
    match d {
        0 => {
            proof {
                reveal_strlit("0");
                assert("0"@ =~= seq!['0']);
            }
            "0"
        },
        1 => {
            proof {
                reveal_strlit("1");
                assert("1"@ =~= seq!['1']);
            }
            "1"
        },
        2 => {
            proof {
                reveal_strlit("2");
                assert("2"@ =~= seq!['2']);
            }
            "2"
        },
        3 => {
            proof {
                reveal_strlit("3");
                assert("3"@ =~= seq!['3']);
            }
            "3"
        },
        4 => {
            proof {
                reveal_strlit("4");
                assert("4"@ =~= seq!['4']);
            }
            "4"
        },
        5 => {
            proof {
                reveal_strlit("5");
                assert("5"@ =~= seq!['5']);
            }
            "5"
        },
        6 => {
            proof {
                reveal_strlit("6");
                assert("6"@ =~= seq!['6']);
            }
            "6"
        },
        7 => {
            proof {
                reveal_strlit("7");
                assert("7"@ =~= seq!['7']);
            }
            "7"
        },
        8 => {
            proof {
                reveal_strlit("8");
                assert("8"@ =~= seq!['8']);
            }
            "8"
        },
        _ => {
            proof {
                reveal_strlit("9");
                assert("9"@ =~= seq!['9']);
            }
            "9"
        },
    }
}

/// Renders `n` in decimal, most significant digit first.
pub fn u64_to_string(n: u64) -> (r: String)
    ensures
        r@ == spec_u64_digits(n as nat),
    decreases n,
{
    if n < 10 {
        digit_str(n).to_owned()
    } else {
        let mut prefix = u64_to_string(n / 10);
        prefix.append(digit_str(n % 10));
        prefix
    }
}

/// The duration breakdown shown to the user: days, hours, minutes and
/// seconds in that order, each with its unit suffix and only when nonzero.
pub open spec fn spec_delta_text(total: nat) -> Seq<char> {
    let days = total / 86400;
    let hours = (total % 86400) / 3600;
    let minutes = (total % 3600) / 60;
    let seconds = total % 60;
    (if days > 0 {
        spec_u64_digits(days) + "d"@
    } else {
        Seq::<char>::empty()
    }) + (if hours > 0 {
        spec_u64_digits(hours) + "h"@
    } else {
        Seq::<char>::empty()
    }) + (if minutes > 0 {
        spec_u64_digits(minutes) + "m"@
    } else {
        Seq::<char>::empty()
    }) + (if seconds > 0 {
        spec_u64_digits(seconds) + "s"@
    } else {
        Seq::<char>::empty()
    })
}

/// Renders the duration breakdown of `total` seconds.
pub fn delta_text(total: u64) -> (r: String)
    ensures
        r@ == spec_delta_text(total as nat),
{
    let days: u64 = total / 86400;
    let hours: u64 = (total % 86400) / 3600;
    let minutes: u64 = (total % 3600) / 60;
    let seconds: u64 = total % 60;
    let mut text = String::new();
    if days > 0 {
        let ds = u64_to_string(days);
        text.append(ds.as_str());
        text.append("d");
    }
    if hours > 0 {
        let hs = u64_to_string(hours);
        text.append(hs.as_str());
        text.append("h");
    }
    if minutes > 0 {
        let ms = u64_to_string(minutes);
        text.append(ms.as_str());
        text.append("m");
    }
    if seconds > 0 {
        let ss = u64_to_string(seconds);
        text.append(ss.as_str());
        text.append("s");
    }
    proof {
        assert(text@ =~= spec_delta_text(total as nat));
    }
    text
}

} // verus!
