use vstd::prelude::*;
use vstd::string::*;
use vstd::utf8::*;
use crate::cstring::{c_text, text_from_c, NulError};

verus! {

/// The mode in which a volume group is opened.
#[derive(Clone, Copy, PartialEq, Eq, Structural, Debug)]
pub enum Mode {
    Read,
    ReadWrite,
}

/// The letter by which the C library names a mode.
pub open spec fn mode_letter(mode: Mode) -> u8 {
    match mode {
        Mode::Read => 0x72u8,  // 'r'
        Mode::ReadWrite => 0x77u8,  // 'w'
    }
}

impl Mode {
    /// The mode as a NUL-terminated C string: `"r"` for reading, `"w"` for
    /// reading and writing.
    pub fn to_c_string(&self) -> (bytes: Vec<u8>)
        ensures
            bytes@ == seq![mode_letter(*self), 0u8],
    {
        let letter: u8 = match self {
            Mode::Read => 0x72u8,
            Mode::ReadWrite => 0x77u8,
        };
        let mut bytes: Vec<u8> = Vec::new();
        bytes.push(letter);
        bytes.push(0u8);
        bytes
    }
}

} // verus!

verus! {

/// The character of the decimal digit `d`.
pub open spec fn digit_char(d: int) -> char {
    (48 + d) as char
}

/// The decimal notation of a natural number, most significant digit first.
pub open spec fn decimal_nat(n: nat) -> Seq<char>
    decreases n,
{
    if n < 10 {
        seq![digit_char(n as int)]
    } else {
        decimal_nat(n / 10).push(digit_char((n % 10) as int))
    }
}

/// The decimal notation of an integer, with a leading `-` when it is negative.
pub open spec fn decimal(n: int) -> Seq<char> {
    if n < 0 {
        seq!['-'] + decimal_nat((-n) as nat)
    } else {
        decimal_nat(n as nat)
    }
}

fn digit_str(d: u32) -> (s: &'static str)
    requires
        d < 10,
    ensures
        s@ == seq![digit_char(d as int)],
{
    proof {
        reveal_strlit("0");
        reveal_strlit("1");
        reveal_strlit("2");
        reveal_strlit("3");
        reveal_strlit("4");
        reveal_strlit("5");
        reveal_strlit("6");
        reveal_strlit("7");
        reveal_strlit("8");
        reveal_strlit("9");
    }
    match d {
        0 => "0",
        1 => "1",
        2 => "2",
        3 => "3",
        4 => "4",
        5 => "5",
        6 => "6",
        7 => "7",
        8 => "8",
        _ => "9",
    }
}

fn push_decimal(out: &mut String, m: u32)
    ensures
        final(out)@ == old(out)@ + decimal_nat(m as nat),
    decreases m,
{
    if m >= 10 {
        push_decimal(out, m / 10);
    }
    out.append(digit_str(m % 10));
}

/// Appends the decimal notation of `n` to `out`.
pub fn push_i32_decimal(out: &mut String, n: i32)
    ensures
        final(out)@ == old(out)@ + decimal(n as int),
{
    if n < 0 {
        proof { reveal_strlit("-"); }
        out.append("-");
        let wide: i64 = n as i64;
        let magnitude: u32 = (0i64 - wide) as u32;
        push_decimal(out, magnitude);
    } else {
        push_decimal(out, n as u32);
    }
}

} // verus!

verus! {

/// An error reported by the C library: its error number and its message.
#[derive(Debug)]
pub struct Error {
    errno: i32,
    msg: String,
}

/// The text by which an error with number `errno` and message `msg` is shown:
/// `An error occurred with error code {errno}. ({msg})`.
pub open spec fn error_text(errno: int, msg: Seq<char>) -> Seq<char> {
    "An error occurred with error code "@ + decimal(errno) + ". ("@ + msg + ")"@
}

impl View for Error {
    type V = (i32, Seq<char>);

    closed spec fn view(&self) -> (i32, Seq<char>) {
        (self.errno, self.msg@)
    }
}

impl Error {
    /// An error with the given number and message.
    pub fn new(errno: i32, msg: String) -> (e: Error)
        ensures
            e@ == (errno, msg@),
    {
        Error { errno, msg }
    }

    /// The error that the C library reports with number `errno` and with the
    /// C string `msg` as its message.  `None` when the message is not valid
    /// UTF-8.
    pub fn from_c(errno: i32, msg: Vec<u8>) -> (r: Option<Error>)
        ensures
            r is Some <==> valid_utf8(c_text(msg@)),
            r matches Some(e) ==> e@ == (errno, decode_utf8(c_text(msg@))),
    {
        match text_from_c(msg) {
            Some(text) => Some(Error { errno, msg: text }),
            None => None,
        }
    }

    /// The error number.
    pub fn errno(&self) -> (n: i32)
        ensures
            n == self@.0,
    {
        self.errno
    }

    /// The error message.
    pub fn message(&self) -> (m: &str)
        ensures
            m@ == self@.1,
    {
        self.msg.as_str()
    }

    /// The text by which the error is shown.
    pub fn to_string(&self) -> (s: String)
        ensures
            s@ == error_text(self@.0 as int, self@.1),
    {
        proof {
            reveal_strlit("An error occurred with error code ");
            reveal_strlit(". (");
            reveal_strlit(")");
        }
        let mut s = String::new();
        s.append("An error occurred with error code ");
        push_i32_decimal(&mut s, self.errno);
        s.append(". (");
        s.append(self.msg.as_str());
        s.append(")");
        assert(s@ =~= error_text(self.errno as int, self.msg@));
        s
    }
}

} // verus!

verus! {

/// Why listing volume groups or logical volumes stops short.
#[derive(Debug)]
pub enum Failure {
    /// Scanning for volume groups failed with this error.
    ScanFailed(Error),
    /// The C library gave no list of volume group names; this is its error.
    VgListFailed(Error),
    /// The C library gave no list of logical volumes; this is its error.
    LvListFailed(Error),
    /// The C library's error message is not valid UTF-8.
    InvalidErrorMessage,
    /// A volume group name read from the C library is not valid UTF-8.
    InvalidVgName,
    /// The name of the volume group to open holds a NUL byte.
    InvalidGroupName(NulError),
    /// A logical volume's identifier is not valid UTF-8.
    InvalidLvUuid,
    /// A logical volume's name is not valid UTF-8.
    InvalidLvName,
    /// A list node lies at an address below the offset of the list links
    /// within their element, so the element's address cannot be computed.
    AddressUnderflow,
}

/// A [`Failure`] with each error taken by its view.
pub enum FailureView {
    ScanFailed((i32, Seq<char>)),
    VgListFailed((i32, Seq<char>)),
    LvListFailed((i32, Seq<char>)),
    InvalidErrorMessage,
    InvalidVgName,
    InvalidGroupName,
    InvalidLvUuid,
    InvalidLvName,
    AddressUnderflow,
}

impl View for Failure {
    type V = FailureView;

    open spec fn view(&self) -> FailureView {
        match self {
            Failure::ScanFailed(e) => FailureView::ScanFailed(e@),
            Failure::VgListFailed(e) => FailureView::VgListFailed(e@),
            Failure::LvListFailed(e) => FailureView::LvListFailed(e@),
            Failure::InvalidErrorMessage => FailureView::InvalidErrorMessage,
            Failure::InvalidVgName => FailureView::InvalidVgName,
            Failure::InvalidGroupName(_) => FailureView::InvalidGroupName,
            Failure::InvalidLvUuid => FailureView::InvalidLvUuid,
            Failure::InvalidLvName => FailureView::InvalidLvName,
            Failure::AddressUnderflow => FailureView::AddressUnderflow,
        }
    }
}

/// The error that the C library reports with number `errno` and message
/// `msg`, as a view, or `None` when the message is not valid UTF-8.
pub open spec fn reported_error(errno: i32, msg: Seq<u8>) -> Option<(i32, Seq<char>)> {
    if valid_utf8(c_text(msg)) {
        Some((errno, decode_utf8(c_text(msg))))
    } else {
        None
    }
}

} // verus!

verus! {

/// Whether `c` is one of the decimal digits `0` to `9`.
pub open spec fn is_digit(c: char) -> bool {
    48 <= c as int <= 57
}

/// The number that a sequence of decimal digits denotes.
pub open spec fn digits_value(s: Seq<char>) -> int
    decreases s.len(),
{
    if s.len() == 0 {
        0
    } else {
        digits_value(s.drop_last()) * 10 + (s.last() as int - 48)
    }
}

proof fn lemma_decimal_nat_reads_back(n: nat)
    ensures
        decimal_nat(n).len() >= 1,
        forall|i: int| 0 <= i < decimal_nat(n).len() ==> is_digit(#[trigger] decimal_nat(n)[i]),
        digits_value(decimal_nat(n)) == n,
        decimal_nat(n).len() > 1 ==> decimal_nat(n)[0] != '0',
        n < 10 <==> decimal_nat(n).len() == 1,
    decreases n,
{
    let d: int = (n % 10) as int;
    assert(digit_char(d) as int == 48 + d);
    if n >= 10 {
        let q: nat = n / 10;
        lemma_decimal_nat_reads_back(q);
        let s = decimal_nat(n);
        assert(s == decimal_nat(q).push(digit_char(d)));
        assert(s.drop_last() =~= decimal_nat(q));
        assert(s.last() == digit_char(d));
        assert(n == q * 10 + d) by (nonlinear_arith)
            requires
                q == n / 10,
                d == n % 10,
        ;
        assert(s[0] == decimal_nat(q)[0]);
        assert(digits_value(s) == digits_value(s.drop_last()) * 10 + (s.last() as int - 48));
        if decimal_nat(q).len() == 1 {
            assert(q < 10);
            assert(decimal_nat(q) == seq![digit_char(q as int)]);
            assert(digit_char(q as int) as int == 48 + q);
            assert(q >= 1);
        }
        assert forall|i: int| 0 <= i < s.len() implies is_digit(#[trigger] s[i]) by {
            if i < s.len() - 1 {
                assert(s[i] == decimal_nat(q)[i]);
            }
        }
    } else {
        let s = decimal_nat(n);
        assert(s.drop_last() =~= Seq::<char>::empty());
        assert(digits_value(s.drop_last()) == 0);
        assert(digits_value(s) == digits_value(s.drop_last()) * 10 + (s.last() as int - 48));
    }
}

/// Law: the decimal notation of a number reads back as that number: a
/// non-negative number is written as digits, without a leading zero unless
/// it is zero itself, and a negative one as `-` followed by the digits of
/// its magnitude.
pub proof fn law_decimal_reads_back(n: int)
    ensures
        n >= 0 ==> {
            let s = decimal(n);
            &&& s.len() >= 1
            &&& forall|i: int| 0 <= i < s.len() ==> is_digit(#[trigger] s[i])
            &&& digits_value(s) == n
            &&& s.len() > 1 ==> s[0] != '0'
        },
        n < 0 ==> {
            let s = decimal(n);
            let digits = s.drop_first();
            &&& s.len() >= 2
            &&& s[0] == '-'
            &&& forall|i: int| 0 <= i < digits.len() ==> is_digit(#[trigger] digits[i])
            &&& digits_value(digits) == -n
            &&& digits.len() > 1 ==> digits[0] != '0'
        },
{
    if n >= 0 {
        lemma_decimal_nat_reads_back(n as nat);
    } else {
        lemma_decimal_nat_reads_back((-n) as nat);
        assert(decimal(n).drop_first() =~= decimal_nat((-n) as nat));
    }
}

/// Law: reading is given `"r"` as its C string and reading and writing
/// `"w"`; each is one letter followed by a NUL, and the two differ.
pub proof fn law_mode_letters()
    ensures
        mode_letter(Mode::Read) == 0x72u8,
        mode_letter(Mode::ReadWrite) == 0x77u8,
        mode_letter(Mode::Read) != mode_letter(Mode::ReadWrite),
        mode_letter(Mode::Read) != 0u8 && mode_letter(Mode::ReadWrite) != 0u8,
{
}

} // verus!

verus! {

/// Law: the text of an error shows its number and its message so that both
/// read back: after the fixed opening words come the number's digits
/// (after a `-` when it is negative), denoting the error number, then
/// `. (`, the message exactly, and a closing `)`.
pub proof fn law_error_text_reads_back(errno: i32, msg: Seq<char>)
    ensures
        ({
            let t = error_text(errno as int, msg);
            let opening = "An error occurred with error code "@;
            let num_len = decimal(errno as int).len() as int;
            let num = t.subrange(opening.len() as int, opening.len() + num_len);
            let start = opening.len() + num_len + 3;
            &&& t.subrange(0, opening.len() as int) == opening
            &&& errno >= 0 ==> digits_value(num) == errno
            &&& errno < 0 ==> num[0] == '-' && digits_value(num.drop_first()) == -errno
            &&& t.subrange(opening.len() + num_len, start) == ". ("@
            &&& t.subrange(start, start + msg.len()) == msg
            &&& t.len() == start + msg.len() + 1
            &&& t[t.len() - 1] == ')'
        }),
{
    reveal_strlit("An error occurred with error code ");
    reveal_strlit(". (");
    reveal_strlit(")");
    law_decimal_reads_back(errno as int);
    let t = error_text(errno as int, msg);
    let opening = "An error occurred with error code "@;
    let d = decimal(errno as int);
    let num_len = d.len() as int;
    let start = opening.len() + num_len + 3;
    assert(t.subrange(0, opening.len() as int) =~= opening);
    assert(t.subrange(opening.len() as int, opening.len() + num_len) =~= d);
    assert(t.subrange(opening.len() + num_len, start) =~= ". ("@);
    assert(t.subrange(start, start + msg.len()) =~= msg);
}

} // verus!
