//! What can go wrong while a connection is opened or used.

use vstd::prelude::*;
use vstd::string::StringExecFns;

use crate::time::Timeout;

verus! {

/// `std::io::Error`, carried through without being looked into.
#[verifier::external_type_specification]
#[verifier::external_body]
pub struct ExIoError(std::io::Error);

/// The kinds of I/O error that decisions depend on.
#[derive(Debug, Clone, Copy, PartialEq, Eq, Structural)]
pub enum ErrorKind {
    /// The peer refused the connection.
    ConnectionRefused,
    /// The operation was not permitted.
    PermissionDenied,
    /// The local address cannot be used.
    AddrNotAvailable,
    /// A parameter was not valid.
    InvalidInput,
    /// The peer sent something that is not valid.
    InvalidData,
    /// The operation took too long.
    TimedOut,
    /// The operation would have to wait.
    WouldBlock,
    /// Any other kind.
    Other,
}

/// A failure that is found here rather than by the operating system.
#[derive(Debug, Clone, Copy, PartialEq, Eq, Structural)]
pub enum Fault {
    /// No address of the host accepted a connection.
    NoAddressConnected,
    /// The local IP to bind to and the remote address are of different families.
    LocalFamilyMismatch,
    /// No address of the proxy is of the family of the local IP to bind to.
    NoProxyInLocalFamily,
    /// An IPv6 target with a SOCKS4 proxy.
    Socks4Ipv6Target,
    /// The SOCKS4 proxy answered the request with this status.
    Socks4Rejected(u8),
    /// The SOCKS5 proxy took none of the authentication methods on offer.
    Socks5MethodsRejected,
    /// The user name or the password is empty, or too long for SOCKS5.
    Socks5CredentialLength,
    /// The SOCKS5 proxy did not accept the user name and the password.
    Socks5AuthenticationFailed,
    /// The SOCKS5 proxy picked a method that is not known here.
    Socks5UnsupportedMethod,
    /// The host name of the target is too long for SOCKS5.
    Socks5DomainTooLong,
    /// The answer to the SOCKS5 request is malformed.
    Socks5InvalidResponse,
    /// The SOCKS5 proxy answered the request with this status.
    Socks5Rejected(u8),
    /// The answer to the SOCKS5 request holds an address of an unknown type.
    Socks5InvalidAddressType,
}

/// The character of a decimal digit.
pub open spec fn digit_char(digit: nat) -> char {
    ('0' as nat + digit) as char
}

/// A number in decimal digits, without leading zeros.
pub open spec fn decimal(number: nat) -> Seq<char>
    decreases number,
{
    if number < 10 {
        seq![digit_char(number)]
    } else {
        decimal(number / 10).push(digit_char(number % 10))
    }
}

impl Fault {
    /// The kind of I/O error that the failure counts as.
    pub open spec fn kind_spec(&self) -> ErrorKind {
        match self {
            Fault::NoAddressConnected | Fault::Socks4Rejected(_) | Fault::Socks5Rejected(
                _,
            ) => ErrorKind::ConnectionRefused,
            Fault::LocalFamilyMismatch
            | Fault::NoProxyInLocalFamily => ErrorKind::AddrNotAvailable,
            Fault::Socks5MethodsRejected
            | Fault::Socks5AuthenticationFailed => ErrorKind::PermissionDenied,
            Fault::Socks4Ipv6Target
            | Fault::Socks5CredentialLength
            | Fault::Socks5DomainTooLong => ErrorKind::InvalidInput,
            Fault::Socks5UnsupportedMethod
            | Fault::Socks5InvalidResponse
            | Fault::Socks5InvalidAddressType => ErrorKind::InvalidData,
        }
    }

    /// The kind of I/O error that the failure counts as.
    #[verifier::when_used_as_spec(kind_spec)]
    pub fn kind(&self) -> (kind: ErrorKind)
        ensures
            kind == self.kind_spec(),
    {
        match self {
            Fault::NoAddressConnected => ErrorKind::ConnectionRefused,
            Fault::Socks4Rejected(_) => ErrorKind::ConnectionRefused,
            Fault::Socks5Rejected(_) => ErrorKind::ConnectionRefused,
            Fault::LocalFamilyMismatch => ErrorKind::AddrNotAvailable,
            Fault::NoProxyInLocalFamily => ErrorKind::AddrNotAvailable,
            Fault::Socks5MethodsRejected => ErrorKind::PermissionDenied,
            Fault::Socks5AuthenticationFailed => ErrorKind::PermissionDenied,
            Fault::Socks4Ipv6Target => ErrorKind::InvalidInput,
            Fault::Socks5CredentialLength => ErrorKind::InvalidInput,
            Fault::Socks5DomainTooLong => ErrorKind::InvalidInput,
            Fault::Socks5UnsupportedMethod => ErrorKind::InvalidData,
            Fault::Socks5InvalidResponse => ErrorKind::InvalidData,
            Fault::Socks5InvalidAddressType => ErrorKind::InvalidData,
        }
    }

    /// The text for a reader.
    pub open spec fn message_chars(self) -> Seq<char> {
        match self {
            Fault::NoAddressConnected => "Connection refused"@,
            Fault::LocalFamilyMismatch => "local bind IP family does not match remote address"@,
            Fault::NoProxyInLocalFamily =>
                "no resolved proxy address matches the local bind IP family"@,
            Fault::Socks4Ipv6Target => "SOCKS4 does not support IPv6"@,
            Fault::Socks4Rejected(status) => "SOCKS4 proxy rejected CONNECT with status "@
                + decimal(status as nat),
            Fault::Socks5MethodsRejected => "SOCKS5 proxy rejected authentication methods"@,
            Fault::Socks5CredentialLength => "invalid SOCKS5 username or password length"@,
            Fault::Socks5AuthenticationFailed => "SOCKS5 password authentication failed"@,
            Fault::Socks5UnsupportedMethod =>
                "SOCKS5 proxy selected an unsupported authentication method"@,
            Fault::Socks5DomainTooLong => "SOCKS5 target domain is too long"@,
            Fault::Socks5InvalidResponse => "invalid SOCKS5 CONNECT response"@,
            Fault::Socks5Rejected(status) => "SOCKS5 proxy rejected CONNECT with status "@
                + decimal(status as nat),
            Fault::Socks5InvalidAddressType => "invalid SOCKS5 response address type"@,
        }
    }

    /// The text for a reader.
    pub fn message(&self) -> (message: String)
        ensures
            message@ == self.message_chars(),
    {
        match self {
            Fault::NoAddressConnected => "Connection refused".to_owned(),
            Fault::LocalFamilyMismatch =>
                "local bind IP family does not match remote address".to_owned(),
            Fault::NoProxyInLocalFamily =>
                "no resolved proxy address matches the local bind IP family".to_owned(),
            Fault::Socks4Ipv6Target => "SOCKS4 does not support IPv6".to_owned(),
            Fault::Socks4Rejected(status) =>
                with_number("SOCKS4 proxy rejected CONNECT with status ", *status),
            Fault::Socks5MethodsRejected =>
                "SOCKS5 proxy rejected authentication methods".to_owned(),
            Fault::Socks5CredentialLength =>
                "invalid SOCKS5 username or password length".to_owned(),
            Fault::Socks5AuthenticationFailed =>
                "SOCKS5 password authentication failed".to_owned(),
            Fault::Socks5UnsupportedMethod =>
                "SOCKS5 proxy selected an unsupported authentication method".to_owned(),
            Fault::Socks5DomainTooLong => "SOCKS5 target domain is too long".to_owned(),
            Fault::Socks5InvalidResponse => "invalid SOCKS5 CONNECT response".to_owned(),
            Fault::Socks5Rejected(status) =>
                with_number("SOCKS5 proxy rejected CONNECT with status ", *status),
            Fault::Socks5InvalidAddressType =>
                "invalid SOCKS5 response address type".to_owned(),
        }
    }
}

/// The text of a decimal digit.
fn digit_text(digit: u8) -> (text: &'static str)
    requires
        digit < 10,
    ensures
        text@ == seq![digit_char(digit as nat)],
{
    proof {
        reveal_strlit("0");
        reveal_strlit("1");
        reveal_strlit("2");
        reveal_strlit("3");
        reveal_strlit("4");
        reveal_strlit("5");
        reveal_strlit("6");
        reveal_strlit("7");
        reveal_strlit("8");
        reveal_strlit("9");
    }
    match digit {
        0 => "0",
        1 => "1",
        2 => "2",
        3 => "3",
        4 => "4",
        5 => "5",
        6 => "6",
        7 => "7",
        8 => "8",
        _ => "9",
    }
}

/// The text of `prefix` with `number` in decimal digits after it.
fn with_number(prefix: &str, number: u8) -> (text: String)
    ensures
        text@ == prefix@ + decimal(number as nat),
{
    let mut text: String = prefix.to_owned();
    proof {
        reveal_with_fuel(decimal, 3);
    }
    if number >= 100 {
        text.append(digit_text(number / 100));
    }
    if number >= 10 {
        text.append(digit_text(number / 10 % 10));
    }
    text.append(digit_text(number % 10));
    assert(text@ =~= prefix@ + decimal(number as nat));
    text
}

/// An I/O error: one that the operating system or an outside crate reports, with the kind that
/// it reports, or one of this library's own.
#[derive(Debug)]
pub enum IoError {
    /// Reported from outside.
    Outside {
        /// The kind that `cause` is of.
        kind: ErrorKind,
        /// The error as it was reported.
        cause: std::io::Error,
    },
    /// Found here.
    Own(Fault),
}

impl IoError {
    /// The kind of the error.
    pub open spec fn kind_spec(&self) -> ErrorKind {
        match self {
            IoError::Outside { kind, cause: _ } => *kind,
            IoError::Own(fault) => fault.kind(),
        }
    }

    /// The kind of the error.
    #[verifier::when_used_as_spec(kind_spec)]
    pub fn kind(&self) -> (kind: ErrorKind)
        ensures
            kind == self.kind_spec(),
    {
        match self {
            IoError::Outside { kind, cause: _ } => *kind,
            IoError::Own(fault) => fault.kind(),
        }
    }
}

/// Why a transport could not be opened or used.
#[derive(Debug)]
pub enum Error {
    /// An I/O error.
    Io(IoError),
    /// Time ran out.
    Timeout(Timeout),
}

impl Error {
    /// Whether the error says that the peer refused the connection.
    pub open spec fn refused(self) -> bool {
        self matches Error::Io(error) && error.kind() == ErrorKind::ConnectionRefused
    }

    /// Whether the error says that the peer refused the connection.
    pub fn is_refused(&self) -> (refused: bool)
        ensures
            refused == self.refused(),
    {
        match self {
            Error::Io(error) => error.kind() == ErrorKind::ConnectionRefused,
            Error::Timeout(_) => false,
        }
    }
}

/// The kind of an I/O error, with the two that platforms report for a timeout made one.
pub open spec fn normalized(kind: ErrorKind) -> ErrorKind {
    if kind == ErrorKind::WouldBlock {
        ErrorKind::TimedOut
    } else {
        kind
    }
}

/// Makes the kinds that platforms report for a timeout, `WouldBlock` and `TimedOut`, one.
pub fn normalize_would_block(kind: ErrorKind) -> (same_or_timed_out: ErrorKind)
    ensures
        same_or_timed_out == normalized(kind),
{
    if kind == ErrorKind::WouldBlock {
        ErrorKind::TimedOut
    } else {
        kind
    }
}

/// What the outcome of an I/O operation under a timeout means: running out of time is the
/// timeout `reason`, and any other error stays what it is.
pub open spec fn timed_spec<T>(outcome: Result<T, IoError>, reason: Timeout) -> Result<T, Error> {
    match outcome {
        Ok(value) => Ok(value),
        Err(error) => if normalized(error.kind()) == ErrorKind::TimedOut {
            Err(Error::Timeout(reason))
        } else {
            Err(Error::Io(error))
        },
    }
}

/// Sorts the outcome of an I/O operation that was done under the timeout `reason`.
pub fn timed<T>(outcome: Result<T, IoError>, reason: Timeout) -> (sorted: Result<T, Error>)
    ensures
        sorted == timed_spec(outcome, reason),
{
    match outcome {
        Ok(value) => Ok(value),
        Err(error) => if normalize_would_block(error.kind()) == ErrorKind::TimedOut {
            Err(Error::Timeout(reason))
        } else {
            Err(Error::Io(error))
        },
    }
}

/// What a failure counts as goes by whom it blames: the peer that refused, the local address, the
/// authentication, what was asked for, or what the proxy sent.
pub proof fn lemma_kinds_by_blame(fault: Fault, kind: ErrorKind)
    requires
        call_ensures(Fault::kind, (&fault,), kind),
    ensures
        kind is ConnectionRefused <==> (fault is NoAddressConnected || fault is Socks4Rejected
            || fault is Socks5Rejected),
        kind is AddrNotAvailable <==> (fault is LocalFamilyMismatch
            || fault is NoProxyInLocalFamily),
        kind is PermissionDenied <==> (fault is Socks5MethodsRejected
            || fault is Socks5AuthenticationFailed),
        kind is InvalidInput <==> (fault is Socks4Ipv6Target || fault is Socks5CredentialLength
            || fault is Socks5DomainTooLong),
        kind is InvalidData <==> (fault is Socks5UnsupportedMethod
            || fault is Socks5InvalidResponse || fault is Socks5InvalidAddressType),
        !(kind is TimedOut || kind is WouldBlock || kind is Other),
{
}

/// An error is a refusal if and only if it was reported as one, or is one of the failures that
/// say so. A timeout never is.
pub proof fn lemma_refusals(error: Error, refused: bool)
    requires
        call_ensures(Error::is_refused, (&error,), refused),
    ensures
        refused == error.refused(),
        refused == match error {
            Error::Timeout(_) => false,
            Error::Io(IoError::Outside { kind, cause: _ }) => kind is ConnectionRefused,
            Error::Io(IoError::Own(fault)) => fault is NoAddressConnected || fault is Socks4Rejected
                || fault is Socks5Rejected,
        },
{
}

/// An error that was reported keeps the kind that it was reported with, and one of the failures
/// found here has the kind of that failure.
pub proof fn lemma_errors_keep_their_kind(
    reported: ErrorKind,
    cause: std::io::Error,
    fault: Fault,
    kind: ErrorKind,
    outside: ErrorKind,
    own: ErrorKind,
)
    requires
        call_ensures(Fault::kind, (&fault,), kind),
        call_ensures(IoError::kind, (&IoError::Outside { kind: reported, cause },), outside),
        call_ensures(IoError::kind, (&IoError::Own(fault),), own),
    ensures
        outside == reported,
        own == kind,
{
}

/// Two kinds are made one if and only if both stand for running out of time; every other kind
/// stays what it is.
pub proof fn lemma_only_timeouts_are_made_one(
    a: ErrorKind,
    b: ErrorKind,
    one: ErrorKind,
    other: ErrorKind,
)
    requires
        call_ensures(normalize_would_block, (a,), one),
        call_ensures(normalize_would_block, (b,), other),
    ensures
        one == other <==> (a == b || ((a is TimedOut || a is WouldBlock) && (b is TimedOut
            || b is WouldBlock))),
        !(one is WouldBlock),
        !(a is WouldBlock) ==> one == a,
{
}

/// An operation under a timeout loses nothing: what succeeded is handed on, an error that says
/// that time ran out is the timeout, and every other error is handed on as it is.
pub proof fn lemma_only_running_out_of_time_is_a_timeout<T>(
    outcome: Result<T, IoError>,
    reason: Timeout,
    sorted: Result<T, Error>,
)
    requires
        call_ensures(timed::<T>, (outcome, reason), sorted),
    ensures
        is_sorted_outcome(outcome, reason, sorted),
{
}

/// Whether `sorted` is what the outcome of an operation comes to under the timeout `reason`.
pub open spec fn is_sorted_outcome<T>(
    outcome: Result<T, IoError>,
    reason: Timeout,
    sorted: Result<T, Error>,
) -> bool {
    match (outcome, sorted) {
        (Ok(value), Ok(same)) => same == value,
        (Err(error), Err(Error::Timeout(cause))) => cause == reason && says_time_ran_out(error),
        (Err(error), Err(Error::Io(same))) => same == error && !says_time_ran_out(error),
        _ => false,
    }
}

/// Whether an error says that time ran out, in either of the two ways that platforms have.
pub open spec fn says_time_ran_out(error: IoError) -> bool {
    match error {
        IoError::Outside { kind, cause: _ } => kind is TimedOut || kind is WouldBlock,
        IoError::Own(_) => false,
    }
}

/// The number that decimal digits stand for.
pub open spec fn number_in(digits: Seq<char>) -> nat
    decreases digits.len(),
{
    if digits.len() == 0 {
        0
    } else {
        (number_in(digits.drop_last()) * 10 + (digits.last() as nat - '0' as nat)) as nat
    }
}

/// Whether a text is a number in decimal digits, without leading zeros.
pub open spec fn is_number(digits: Seq<char>) -> bool {
    &&& digits.len() > 0
    &&& forall|i: int| 0 <= i < digits.len() ==> '0' <= #[trigger] digits[i] <= '9'
    &&& digits[0] == '0' ==> digits.len() == 1
}

/// A number in decimal digits reads back as that number.
pub proof fn lemma_decimal_reads_back(number: nat)
    ensures
        is_number(decimal(number)),
        number_in(decimal(number)) == number,
        number > 0 ==> decimal(number)[0] != '0',
    decreases number,
{
    reveal_with_fuel(number_in, 2);
    if number < 10 {
        assert(decimal(number).drop_last() =~= seq![]);
    } else {
        lemma_decimal_reads_back(number / 10);
        assert(decimal(number).drop_last() =~= decimal(number / 10));
        assert(decimal(number)[0] == decimal(number / 10)[0]);
    }
}

/// The text of a rejected request says which version of SOCKS rejected it, and ends in the status
/// that the proxy gave, in decimal digits, whatever the status is.
pub proof fn lemma_rejections_tell_the_status(status: u8, text4: String, text5: String)
    requires
        call_ensures(Fault::message, (&Fault::Socks4Rejected(status),), text4),
        call_ensures(Fault::message, (&Fault::Socks5Rejected(status),), text5),
    ensures
        ({
            let start4 = "SOCKS4 proxy rejected CONNECT with status "@;
            let start5 = "SOCKS5 proxy rejected CONNECT with status "@;
            let number4 = text4@.skip(start4.len() as int);
            let number5 = text5@.skip(start5.len() as int);
            &&& start4 == text4@.take(start4.len() as int)
            &&& start5 == text5@.take(start5.len() as int)
            &&& is_number(number4) && number_in(number4) == status
            &&& is_number(number5) && number_in(number5) == status
        }),
{
    lemma_decimal_reads_back(status as nat);
    let start4 = "SOCKS4 proxy rejected CONNECT with status "@;
    let start5 = "SOCKS5 proxy rejected CONNECT with status "@;
    assert(text4@.skip(start4.len() as int) =~= decimal(status as nat));
    assert(text5@.skip(start5.len() as int) =~= decimal(status as nat));
}

/// What a reader is told of each failure that has no status to tell.
pub proof fn lemma_texts_for_readers(fault: Fault, text: String)
    requires
        call_ensures(Fault::message, (&fault,), text),
    ensures
        fault is NoAddressConnected ==> text@ == "Connection refused"@,
        fault is LocalFamilyMismatch ==> text@
            == "local bind IP family does not match remote address"@,
        fault is NoProxyInLocalFamily ==> text@
            == "no resolved proxy address matches the local bind IP family"@,
        fault is Socks4Ipv6Target ==> text@ == "SOCKS4 does not support IPv6"@,
        fault is Socks5MethodsRejected ==> text@ == "SOCKS5 proxy rejected authentication methods"@,
        fault is Socks5CredentialLength ==> text@ == "invalid SOCKS5 username or password length"@,
        fault is Socks5AuthenticationFailed ==> text@ == "SOCKS5 password authentication failed"@,
        fault is Socks5UnsupportedMethod ==> text@
            == "SOCKS5 proxy selected an unsupported authentication method"@,
        fault is Socks5DomainTooLong ==> text@ == "SOCKS5 target domain is too long"@,
        fault is Socks5InvalidResponse ==> text@ == "invalid SOCKS5 CONNECT response"@,
        fault is Socks5InvalidAddressType ==> text@ == "invalid SOCKS5 response address type"@,
{
}

} // verus!
