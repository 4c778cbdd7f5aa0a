//! Status codes returned by the Inference Engine C API and the messages
//! with which a failing status is reported.
use vstd::prelude::*;

verus! {

/// The call succeeded.
pub const STATUS_OK: i32 = 0;
/// A general error was reported.
pub const STATUS_GENERAL_ERROR: i32 = -1;
/// The requested item was not found.
pub const STATUS_NOT_FOUND: i32 = -5;
/// An unexpected exception was raised inside the engine.
pub const STATUS_UNEXPECTED: i32 = -7;

/// Why a status is not `STATUS_OK`.
#[derive(Clone, Copy, Debug, PartialEq, Eq, Structural)]
pub enum StatusError {
    GeneralError,
    Unexpected,
    NotFound,
    /// Any other status, carried as it was returned.
    Unknown(i32),
}

/// What a status code means: `Ok` for success, otherwise the error kind.
pub open spec fn status_outcome(status: i32) -> Result<(), StatusError> {
    if status == STATUS_OK {
        Ok(())
    } else if status == STATUS_GENERAL_ERROR {
        Err(StatusError::GeneralError)
    } else if status == STATUS_NOT_FOUND {
        Err(StatusError::NotFound)
    } else if status == STATUS_UNEXPECTED {
        Err(StatusError::Unexpected)
    } else {
        Err(StatusError::Unknown(status))
    }
}

/// Classifies a status code returned by the C API.
pub fn classify_status(status: i32) -> (r: Result<(), StatusError>)
    ensures
        r == status_outcome(status),
        r is Ok <==> status == STATUS_OK,
{
    if status == STATUS_GENERAL_ERROR {
        Err(StatusError::GeneralError)
    } else if status == STATUS_UNEXPECTED {
        Err(StatusError::Unexpected)
    } else if status == STATUS_OK {
        Ok(())
    } else if status == STATUS_NOT_FOUND {
        Err(StatusError::NotFound)
    } else {
        Err(StatusError::Unknown(status))
    }
}


/// The character of a decimal digit.
pub open spec fn digit_char(d: nat) -> char {
    if d == 0 { '0' }
    else if d == 1 { '1' }
    else if d == 2 { '2' }
    else if d == 3 { '3' }
    else if d == 4 { '4' }
    else if d == 5 { '5' }
    else if d == 6 { '6' }
    else if d == 7 { '7' }
    else if d == 8 { '8' }
    else { '9' }
}

/// The decimal digits of a natural number, most significant first, with no
/// leading zero.
pub open spec fn nat_decimal(n: nat) -> Seq<char>
    decreases n,
{
    if n < 10 {
        seq![digit_char(n)]
    } else {
        nat_decimal(n / 10) + seq![digit_char(n % 10)]
    }
}

/// The decimal rendering of an integer, as `{}` formats it.
pub open spec fn int_decimal(n: int) -> Seq<char> {
    if n < 0 {
        seq!['-'] + nat_decimal((-n) as nat)
    } else {
        nat_decimal(n as nat)
    }
}

fn digit_str(d: u32) -> (r: &'static str)
    requires
        d < 10,
    ensures
        r@ == seq![digit_char(d as nat)],
{
    proof {
        reveal_strlit("0");
        reveal_strlit("1");
        reveal_strlit("2");
        reveal_strlit("3");
        reveal_strlit("4");
        reveal_strlit("5");
        reveal_strlit("6");
        reveal_strlit("7");
        reveal_strlit("8");
        reveal_strlit("9");
    }
    if d == 0 { "0" }
    else if d == 1 { "1" }
    else if d == 2 { "2" }
    else if d == 3 { "3" }
    else if d == 4 { "4" }
    else if d == 5 { "5" }
    else if d == 6 { "6" }
    else if d == 7 { "7" }
    else if d == 8 { "8" }
    else { "9" }
}

fn push_nat_decimal(s: &mut String, n: u32)
    ensures
        final(s)@ == old(s)@ + nat_decimal(n as nat),
    decreases n,
{
    if n >= 10 {
        push_nat_decimal(s, n / 10);
    }
    s.append(digit_str(n % 10));
}

/// Appends the decimal rendering of `n` to `s`.
pub fn push_decimal(s: &mut String, n: i32)
    ensures
        final(s)@ == old(s)@ + int_decimal(n as int),
{
    if n < 0 {
        proof { reveal_strlit("-"); }
        s.append("-");
        let magnitude: u32 = (-(n as i64)) as u32;
        push_nat_decimal(s, magnitude);
    } else {
        push_nat_decimal(s, n as u32);
    }
}


/// The name under which an error kind is reported.
pub open spec fn error_name(e: StatusError) -> Seq<char> {
    match e {
        StatusError::GeneralError => "GENERAL_ERROR"@,
        StatusError::Unexpected => "UNEXPECTED"@,
        StatusError::NotFound => "NOT_FOUND"@,
        StatusError::Unknown(code) => "Unknown return value = "@ + int_decimal(code as int),
    }
}

/// The report of an error kind with the caller's context appended: the
/// known kinds read `NAME: context`, an unknown status is reported alone.
pub open spec fn error_name_with(e: StatusError, msg: Seq<char>) -> Seq<char> {
    match e {
        StatusError::Unknown(_) => error_name(e),
        _ => error_name(e) + ": "@ + msg,
    }
}

impl StatusError {
    /// The text with which a failing status is reported.
    pub fn message(&self) -> (r: String)
        ensures
            r@ == error_name(*self),
    {
        match self {
            StatusError::GeneralError => String::from_str("GENERAL_ERROR"),
            StatusError::Unexpected => String::from_str("UNEXPECTED"),
            StatusError::NotFound => String::from_str("NOT_FOUND"),
            StatusError::Unknown(code) => {
                let mut r = String::from_str("Unknown return value = ");
                push_decimal(&mut r, *code);
                r
            },
        }
    }

    /// The text with which a failing status is reported, with the caller's
    /// context `msg` appended to the known kinds.
    pub fn message_with(&self, msg: &str) -> (r: String)
        ensures
            r@ == error_name_with(*self, msg@),
    {
        let mut r = self.message();
        match self {
            StatusError::Unknown(_) => {},
            _ => {
                r.append(": ");
                r.append(msg);
            },
        }
        r
    }
}

/// The statuses that `check_status` and `check_status_with_error_message`
/// let pass, whatever the context: exactly the successful one.
pub open spec fn check_passes(status: i32) -> bool {
    status_outcome(status) is Ok
}

/// Checks a status code returned by the C API. Only success passes: a
/// failing status is reported, with `StatusError::message`, by the caller
/// that classified it with `classify_status`.
pub fn check_status(status: i32)
    requires
        check_passes(status),
{
}

/// Checks a status code returned by the C API, the caller's context `msg`
/// at hand. Only success passes: a failing status is reported, with
/// `StatusError::message_with`, by the caller that classified it with
/// `classify_status`.
pub fn check_status_with_error_message(status: i32, msg: &str)
    requires
        check_passes(status),
{
}

/// The report of a failing status with the caller's context begins with the
/// plain report of that status; it is the plain report itself exactly when
/// the status is not one of the known kinds.
pub proof fn lemma_message_with_extends_message(e: StatusError, msg: Seq<char>)
    ensures
        error_name(e).is_prefix_of(error_name_with(e, msg)),
        (error_name_with(e, msg) == error_name(e)) <==> (e is Unknown),
{
    if !(e is Unknown) {
        assert(error_name(e).is_prefix_of(error_name_with(e, msg))) by {
            assert(error_name_with(e, msg).subrange(0, error_name(e).len() as int) =~= error_name(e));
        }
        assert(error_name_with(e, msg).len() > error_name(e).len()) by {
            reveal_strlit(": ");
        }
    }
}


/// Both checks refuse exactly the statuses other than `STATUS_OK`; for such a
/// status, the report with context extends the plain report, and equals it
/// exactly when the status is none of the named kinds.
pub proof fn lemma_failing_status_reports(status: i32, msg: Seq<char>)
    requires
        !check_passes(status),
    ensures
        status != STATUS_OK,
        status_outcome(status) is Err,
        error_name(status_outcome(status)->Err_0).is_prefix_of(
            error_name_with(status_outcome(status)->Err_0, msg),
        ),
        (error_name_with(status_outcome(status)->Err_0, msg) == error_name(status_outcome(status)->Err_0))
            <==> (status != STATUS_GENERAL_ERROR && status != STATUS_NOT_FOUND && status != STATUS_UNEXPECTED),
{
    lemma_message_with_extends_message(status_outcome(status)->Err_0, msg);
}


/// A status passes the checks exactly when it is `STATUS_OK`, which is
/// exactly when `classify_status` gives `Ok`; both checks, with or without
/// context, let through the same statuses.
pub proof fn lemma_check_passes_exactly_on_success(status: i32)
    ensures
        check_passes(status) <==> status == STATUS_OK,
        check_passes(status) <==> status_outcome(status) is Ok,
{
}

} // verus!
