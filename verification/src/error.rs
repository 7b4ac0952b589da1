use vstd::prelude::*;
use vstd::string::StringExecFns;

verus! {

/// The two kinds of refusal.
#[derive(Clone, Copy, Debug, PartialEq, Eq, Structural)]
pub enum ErrorKind {
    /// The configuration is structurally invalid.
    Parameter,
    /// The series is too short for the requested period.
    Series,
}

/// What an [`Error`] says, as a mathematical value: its kind and its text.
pub struct ErrorView {
    pub kind: ErrorKind,
    pub text: Seq<char>,
}

/// Why a decomposition was refused.
#[derive(Debug, PartialEq, Eq)]
pub enum Error {
    /// The configuration is structurally invalid.
    Parameter(String),
    /// The series is incompatible with the requested period.
    Series(String),
}

impl View for Error {
    type V = ErrorView;

    open spec fn view(&self) -> ErrorView {
        match *self {
            Error::Parameter(m) => ErrorView { kind: ErrorKind::Parameter, text: m@ },
            Error::Series(m) => ErrorView { kind: ErrorKind::Series, text: m@ },
        }
    }
}

impl Clone for Error {
    fn clone(&self) -> (r: Self)
        ensures
            r@ == self@,
    {
        match self {
            Error::Parameter(m) => Error::Parameter(m.clone()),
            Error::Series(m) => Error::Series(m.clone()),
        }
    }
}

impl Error {
    /// A parameter error with the given text.
    pub fn parameter(text: &str) -> (r: Error)
        ensures
            r@ == (ErrorView { kind: ErrorKind::Parameter, text: text@ }),
    {
        Error::Parameter(text.to_owned())
    }

    /// A series error with the given text.
    pub fn series(text: &str) -> (r: Error)
        ensures
            r@ == (ErrorView { kind: ErrorKind::Series, text: text@ }),
    {
        Error::Series(text.to_owned())
    }

    /// Which of the two kinds the error is.
    pub fn kind(&self) -> (r: ErrorKind)
        ensures
            r == self@.kind,
    {
        match self {
            Error::Parameter(_) => ErrorKind::Parameter,
            Error::Series(_) => ErrorKind::Series,
        }
    }

    /// The text of the error, without its kind.
    pub fn message(&self) -> (r: String)
        ensures
            r@ == self@.text,
    {
        match self {
            Error::Parameter(m) => m.clone(),
            Error::Series(m) => m.clone(),
        }
    }
}

/// Whether an outcome is the given refusal.
pub open spec fn refused_with<T>(r: Result<T, Error>, what: ErrorView) -> bool {
    match r {
        Ok(_) => false,
        Err(e) => e@ == what,
    }
}

/// A parameter error with the given text, as a mathematical value.
pub open spec fn parameter_error(text: Seq<char>) -> ErrorView {
    ErrorView { kind: ErrorKind::Parameter, text }
}

/// A series error with the given text, as a mathematical value.
pub open spec fn series_error(text: Seq<char>) -> ErrorView {
    ErrorView { kind: ErrorKind::Series, text }
}

/// What is said of a period below 2.
pub open spec fn period_text() -> Seq<char> {
    "period must be at least 2"@
}

/// What is said of a series that does not hold two cycles of the period.
pub open spec fn series_text() -> Seq<char> {
    "series has less than two periods"@
}

/// What is said of a seasonal degree other than 0 and 1.
pub open spec fn seasonal_degree_text() -> Seq<char> {
    "seasonal_degree must be 0 or 1"@
}

/// What is said of a trend degree other than 0 and 1.
pub open spec fn trend_degree_text() -> Seq<char> {
    "trend_degree must be 0 or 1"@
}

/// What is said of a low-pass degree other than 0 and 1.
pub open spec fn low_pass_degree_text() -> Seq<char> {
    "low_pass_degree must be 0 or 1"@
}

/// What is said of a seasonal window below 1.
pub open spec fn seasonal_length_text() -> Seq<char> {
    "seasonal_length must be at least 1"@
}

/// What is said of a trend window below 1.
pub open spec fn trend_length_text() -> Seq<char> {
    "trend_length must be at least 1"@
}

/// What is said of a low-pass window below 1.
pub open spec fn low_pass_length_text() -> Seq<char> {
    "low_pass_length must be at least 1"@
}

/// What is said of a seasonal stride below 1.
pub open spec fn seasonal_jump_text() -> Seq<char> {
    "seasonal_jump must be at least 1"@
}

/// What is said of a trend stride below 1.
pub open spec fn trend_jump_text() -> Seq<char> {
    "trend_jump must be at least 1"@
}

/// What is said of a low-pass stride below 1.
pub open spec fn low_pass_jump_text() -> Seq<char> {
    "low_pass_jump must be at least 1"@
}

/// What is said of an empty list of periods.
pub open spec fn empty_periods_text() -> Seq<char> {
    "periods must not be empty"@
}

/// What is said of a list with a period below 2.
pub open spec fn short_period_text() -> Seq<char> {
    "periods must be at least 2"@
}

/// What is said of a model without a period.
pub open spec fn missing_period_text() -> Seq<char> {
    "Period must be specified for ndarray input"@
}

/// What is said of a series that does not hold two cycles of a model's period: how many
/// observations two cycles take, and how many there are.
pub open spec fn cycles_text(nobs: int, period: int) -> Seq<char> {
    "endog must have 2 complete cycles requires "@ + decimal(2 * period)
        + " observations. endog only has "@ + decimal(nobs) + " observation(s)"@
}

/// The character of a decimal digit.
pub open spec fn digit(d: int) -> char {
    if d == 0 {
        '0'
    } else if d == 1 {
        '1'
    } else if d == 2 {
        '2'
    } else if d == 3 {
        '3'
    } else if d == 4 {
        '4'
    } else if d == 5 {
        '5'
    } else if d == 6 {
        '6'
    } else if d == 7 {
        '7'
    } else if d == 8 {
        '8'
    } else {
        '9'
    }
}

/// A number written in decimal, without leading zeros.
pub open spec fn decimal(n: int) -> Seq<char>
    decreases n,
{
    if n < 10 {
        seq![digit(n)]
    } else {
        decimal(n / 10).push(digit(n % 10))
    }
}

/// Law: a number is written with as many digits as it takes, one for a number below 10
/// and one more for each further factor of 10, and its last digit is that of its units.
pub proof fn lemma_decimal(n: int)
    requires
        n >= 0,
    ensures
        decimal(n).len() >= 1,
        n < 10 <==> decimal(n).len() == 1,
        n >= 10 ==> decimal(n).len() == decimal(n / 10).len() + 1,
        decimal(n).last() == digit(n % 10),
    decreases n,
{
    if n >= 10 {
        lemma_decimal(n / 10);
    }
}

/// The text of one decimal digit.
fn digit_text(d: u128) -> (r: &'static str)
    requires
        d < 10,
    ensures
        r@ == seq![digit(d as int)],
{
    proof {
        reveal_strlit("0");
        reveal_strlit("1");
        reveal_strlit("2");
        reveal_strlit("3");
        reveal_strlit("4");
        reveal_strlit("5");
        reveal_strlit("6");
        reveal_strlit("7");
        reveal_strlit("8");
        reveal_strlit("9");
    }
    let r = if d == 0 {
        "0"
    } else if d == 1 {
        "1"
    } else if d == 2 {
        "2"
    } else if d == 3 {
        "3"
    } else if d == 4 {
        "4"
    } else if d == 5 {
        "5"
    } else if d == 6 {
        "6"
    } else if d == 7 {
        "7"
    } else if d == 8 {
        "8"
    } else {
        "9"
    };
    assert(r@ =~= seq![digit(d as int)]);
    r
}

/// Writes a number in decimal at the end of a text.
pub fn push_decimal(text: &mut String, n: u128)
    ensures
        final(text)@ == old(text)@ + decimal(n as int),
    decreases n,
{
    if n >= 10 {
        push_decimal(text, n / 10);
        text.append(digit_text(n % 10));
        assert(old(text)@ + decimal(n as int / 10) + seq![digit(n as int % 10)] =~= old(text)@
            + decimal(n as int));
    } else {
        text.append(digit_text(n));
    }
}

impl Error {
    /// The refusal of a model whose series of `nobs` observations does not hold two cycles
    /// of its period.
    pub fn too_few_cycles(nobs: usize, period: usize) -> (r: Error)
        ensures
            r@ == series_error(cycles_text(nobs as int, period as int)),
    {
        let mut text = String::from_str("endog must have 2 complete cycles requires ");
        push_decimal(&mut text, 2 * (period as u128));
        text.append(" observations. endog only has ");
        push_decimal(&mut text, nobs as u128);
        text.append(" observation(s)");
        Error::Series(text)
    }
}

} // verus!
