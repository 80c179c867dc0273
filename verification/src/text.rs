//! The texts that the pages show: greetings, chart captions and the status
//! line of the demand-curve page.

use vstd::prelude::*;

verus! {

/// The character of a decimal digit.
pub open spec fn digit_char(d: int) -> char {
    if d == 0 {
        '0'
    } else if d == 1 {
        '1'
    } else if d == 2 {
        '2'
    } else if d == 3 {
        '3'
    } else if d == 4 {
        '4'
    } else if d == 5 {
        '5'
    } else if d == 6 {
        '6'
    } else if d == 7 {
        '7'
    } else if d == 8 {
        '8'
    } else {
        '9'
    }
}

/// The decimal digits of `n`, most significant first, without leading zeros.
pub open spec fn decimal(n: nat) -> Seq<char>
    decreases n,
{
    if n < 10 {
        seq![digit_char(n as int)]
    } else {
        decimal(n / 10).push(digit_char((n % 10) as int))
    }
}

/// The value of a decimal digit character.
pub open spec fn digit_value(c: char) -> int {
    if c == '1' {
        1
    } else if c == '2' {
        2
    } else if c == '3' {
        3
    } else if c == '4' {
        4
    } else if c == '5' {
        5
    } else if c == '6' {
        6
    } else if c == '7' {
        7
    } else if c == '8' {
        8
    } else if c == '9' {
        9
    } else {
        0
    }
}

/// The number that a string of decimal digits stands for.
pub open spec fn decimal_value(s: Seq<char>) -> int
    decreases s.len(),
{
    if s.len() == 0 {
        0
    } else {
        decimal_value(s.drop_last()) * 10 + digit_value(s.last())
    }
}

/// The decimal text of a number reads back as that number, and starts with
/// a zero only for zero.
pub proof fn lemma_decimal_round_trip(n: nat)
    ensures
        decimal(n).len() > 0,
        decimal_value(decimal(n)) == n,
        decimal(n)[0] == '0' ==> n == 0,
    decreases n,
{
    if n >= 10 {
        lemma_decimal_round_trip(n / 10);
        let d = decimal(n / 10);
        assert(decimal(n).drop_last() =~= d);
        assert(decimal(n)[0] == d[0]);
        let r: int = (n % 10) as int;
        assert(digit_value(digit_char(r)) == r);
        assert(decimal(n).last() == digit_char(r));
        assert((n / 10) * 10 + r == n);
        assert(decimal_value(decimal(n)) == decimal_value(decimal(n).drop_last()) * 10
            + digit_value(decimal(n).last()));
    } else {
        let s = decimal(n);
        assert(s.drop_last() =~= Seq::<char>::empty());
        assert(digit_value(digit_char(n as int)) == n);
        assert(decimal_value(s) == decimal_value(s.drop_last()) * 10 + digit_value(s.last()));
    }
}

/// `n` in decimal, with a minus sign where it is negative.
pub open spec fn signed_decimal(n: int) -> Seq<char> {
    if n < 0 {
        seq!['-'] + decimal((-n) as nat)
    } else {
        decimal(n as nat)
    }
}

/// Appends one decimal digit.
fn push_digit(out: &mut String, d: u64)
    requires
        d < 10,
    ensures
        final(out)@ == old(out)@.push(digit_char(d as int)),
{
    let text = if d == 0 {
        "0"
    } else if d == 1 {
        "1"
    } else if d == 2 {
        "2"
    } else if d == 3 {
        "3"
    } else if d == 4 {
        "4"
    } else if d == 5 {
        "5"
    } else if d == 6 {
        "6"
    } else if d == 7 {
        "7"
    } else if d == 8 {
        "8"
    } else {
        "9"
    };
    proof {
        reveal_strlit("0");
        reveal_strlit("1");
        reveal_strlit("2");
        reveal_strlit("3");
        reveal_strlit("4");
        reveal_strlit("5");
        reveal_strlit("6");
        reveal_strlit("7");
        reveal_strlit("8");
        reveal_strlit("9");
    }
    out.append(text);
    assert(out@ =~= old(out)@.push(digit_char(d as int)));
}

/// Appends `n` in decimal.
fn push_decimal(out: &mut String, n: u64)
    ensures
        final(out)@ == old(out)@ + decimal(n as nat),
    decreases n,
{
    if n >= 10 {
        push_decimal(out, n / 10);
    }
    push_digit(out, n % 10);
    assert(out@ =~= old(out)@ + decimal(n as nat));
}

/// `n` in decimal.
pub fn decimal_text(n: u64) -> (res: String)
    ensures
        res@ == decimal(n as nat),
        res@.len() > 0,
        decimal_value(res@) == n,
        res@[0] == '0' ==> n == 0,
{
    let mut out = String::new();
    push_decimal(&mut out, n);
    assert(out@ =~= decimal(n as nat));
    proof {
        lemma_decimal_round_trip(n as nat);
    }
    out
}

/// Signed decimal text reads back as its number: a minus sign and the
/// magnitude for a negative number, the digits alone otherwise.
pub proof fn lemma_signed_decimal_round_trip(n: int)
    ensures
        n >= 0 ==> decimal_value(signed_decimal(n)) == n,
        n < 0 ==> signed_decimal(n)[0] == '-' && decimal_value(signed_decimal(n).skip(1)) == -n,
        n < 0 ==> signed_decimal(n).len() >= 2,
        n >= 0 ==> signed_decimal(n).len() >= 1 && signed_decimal(n)[0] != '-',
{
    if n < 0 {
        lemma_decimal_round_trip((-n) as nat);
        assert(signed_decimal(n).skip(1) =~= decimal((-n) as nat));
    } else {
        lemma_decimal_round_trip(n as nat);
        let d = decimal(n as nat);
        if n >= 10 {
            lemma_decimal_chars(n as nat);
        } else {
            assert(d[0] == digit_char(n));
        }
    }
}

/// The decimal text of a number holds digits only.
pub proof fn lemma_decimal_chars(n: nat)
    ensures
        forall|i: int| 0 <= i < decimal(n).len() ==> ascii_digit_char(#[trigger] decimal(n)[i]),
    decreases n,
{
    if n >= 10 {
        lemma_decimal_chars(n / 10);
        let d = decimal(n / 10);
        assert forall|i: int| 0 <= i < decimal(n).len() implies ascii_digit_char(#[trigger] decimal(n)[i]) by {
            if i < d.len() {
                assert(decimal(n)[i] == d[i]);
            }
        }
    }
}

/// The character is one of the ten decimal digits.
pub open spec fn ascii_digit_char(c: char) -> bool {
    c == '0' || c == '1' || c == '2' || c == '3' || c == '4' || c == '5' || c == '6' || c == '7'
        || c == '8' || c == '9'
}

/// The status line of a drawn curve is "Found JSON array with size " and
/// then the decimal text of the array's size, which reads back as the size.
pub proof fn lemma_drawn_message_reads_back(n: usize)
    ensures
        status_message(Status::Drawn(n)).len() > 27,
        status_message(Status::Drawn(n)).take(27) == "Found JSON array with size "@,
        decimal_value(status_message(Status::Drawn(n)).skip(27)) == n,
        status_message(Status::Drawn(n))[27] == '0' ==> n == 0,
{
    reveal_strlit("Found JSON array with size ");
    lemma_decimal_round_trip(n as nat);
    let m = status_message(Status::Drawn(n));
    assert(m.take(27) =~= "Found JSON array with size "@);
    assert(m.skip(27) =~= decimal(n as nat));
}

/// The greeting for `name`: "Hello, " then the name, then "!".
pub fn greeting(name: &str) -> (res: String)
    ensures
        res@ == "Hello, "@ + name@ + "!"@,
{
    let mut out = String::from_str("Hello, ");
    out.append(name);
    out.append("!");
    out
}

/// The caption of the chart of `y = x^power`: "y=x^" then the power in
/// decimal.
pub fn power_caption(power: i32) -> (res: String)
    ensures
        res@ == "y=x^"@ + signed_decimal(power as int),
        res@.take(4) == "y=x^"@,
        power >= 0 ==> decimal_value(res@.skip(4)) == power,
        power < 0 ==> res@[4] == '-' && decimal_value(res@.skip(5)) == -power,
{
    let mut out = String::from_str("y=x^");
    if power < 0 {
        out.append("-");
        let magnitude: u64 = (0i64 - power as i64) as u64;
        push_decimal(&mut out, magnitude);
        proof {
            reveal_strlit("-");
        }
        assert(out@ =~= "y=x^"@ + signed_decimal(power as int));
    } else {
        push_decimal(&mut out, power as u64);
    }
    proof {
        reveal_strlit("y=x^");
        lemma_signed_decimal_round_trip(power as int);
        let d = signed_decimal(power as int);
        assert(out@.take(4) =~= "y=x^"@);
        assert(out@.skip(4) =~= d);
        if power < 0 {
            assert(out@.skip(5) =~= d.skip(1));
        }
    }
    out
}

/// What the demand-curve page has come to, as its status line reports it.
#[derive(Debug)]
pub enum Status {
    /// Nothing has been asked for yet.
    Waiting,
    /// The data source's address does not parse; it holds the text given.
    InvalidUrl(String),
    /// The date range is not set.
    MissingDateRange,
    /// The request for the data failed: the address asked and the reason.
    RequestFailed { url: String, reason: String },
    /// The response is not JSON; it holds the reason.
    NotJson(String),
    /// The JSON is not an array.
    NotAnArray,
    /// The range's start does not lie before its end.
    FromNotBeforeTo,
    /// The curve was drawn from an array of this many readings.
    Drawn(usize),
}

/// The status line for each outcome.
pub open spec fn status_message(status: Status) -> Seq<char> {
    match status {
        Status::Waiting => "nothing"@,
        Status::InvalidUrl(text) => "Could not parse url "@ + text@,
        Status::MissingDateRange => "Set date range parameter"@,
        Status::RequestFailed { url, reason } => "An error occurred while requesting "@ + url@
            + ": "@ + reason@,
        Status::NotJson(reason) => "Response is not a JSON: "@ + reason@,
        Status::NotAnArray => "JSON is not an array"@,
        Status::FromNotBeforeTo => "From parameter needs to be before To parameter"@,
        Status::Drawn(n) => "Found JSON array with size "@ + decimal(n as nat),
    }
}

impl Status {
    /// The status line that reports this outcome.
    pub fn message(&self) -> (res: String)
        ensures
            res@ == status_message(*self),
            *self matches Status::Drawn(n) ==> {
                &&& res@.len() > 27
                &&& res@.take(27) == "Found JSON array with size "@
                &&& decimal_value(res@.skip(27)) == n
                &&& res@[27] == '0' ==> n == 0
            },
    {
        proof {
            if let Status::Drawn(n) = *self {
                lemma_drawn_message_reads_back(n);
            }
        }
        match self {
            Status::Waiting => String::from_str("nothing"),
            Status::InvalidUrl(text) => {
                let mut out = String::from_str("Could not parse url ");
                out.append(text.as_str());
                out
            },
            Status::MissingDateRange => String::from_str("Set date range parameter"),
            Status::RequestFailed { url, reason } => {
                let mut out = String::from_str("An error occurred while requesting ");
                out.append(url.as_str());
                out.append(": ");
                out.append(reason.as_str());
                out
            },
            Status::NotJson(reason) => {
                let mut out = String::from_str("Response is not a JSON: ");
                out.append(reason.as_str());
                out
            },
            Status::NotAnArray => String::from_str("JSON is not an array"),
            Status::FromNotBeforeTo => String::from_str(
                "From parameter needs to be before To parameter",
            ),
            Status::Drawn(n) => {
                let mut out = String::from_str("Found JSON array with size ");
                push_decimal(&mut out, *n as u64);
                out
            },
        }
    }
}

} // verus!
