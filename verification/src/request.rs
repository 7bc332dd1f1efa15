use vstd::prelude::*;
use vstd::string::*;
use vstd::utf8::valid_utf8;
use vstd::utf8::decode_utf8;

verus! {

/// The request line and headers sent for `GET path`.
pub open spec fn request_text(path: Seq<char>) -> Seq<char> {
    "GET "@ + path + " HTTP/1.1\r\nHost: localhost\r\nConnection: close\r\n\r\n"@
}

/// Frames an HTTP/1.1 `GET` request for `path` that asks the server to close
/// the connection once it has answered.
pub fn get_req(path: &str) -> (req: String)
    ensures
        req@ == request_text(path@),
{
    let req = String::from_str("GET ");
    let req = req.concat(path);
    let req = req.concat(" HTTP/1.1\r\nHost: localhost\r\nConnection: close\r\n\r\n");
    req
}

/// The decimal digit character of `d`, for `0 <= d < 10`.
pub open spec fn digit_char(d: int) -> char {
    if d == 0 {
        '0'
    } else if d == 1 {
        '1'
    } else if d == 2 {
        '2'
    } else if d == 3 {
        '3'
    } else if d == 4 {
        '4'
    } else if d == 5 {
        '5'
    } else if d == 6 {
        '6'
    } else if d == 7 {
        '7'
    } else if d == 8 {
        '8'
    } else {
        '9'
    }
}

/// The decimal notation of `n`, without leading zeros.
pub open spec fn decimal_text(n: nat) -> Seq<char>
    decreases n,
{
    if n < 10 {
        seq![digit_char(n as int)]
    } else {
        decimal_text(n / 10) + seq![digit_char((n % 10) as int)]
    }
}

/// The number a character stands for as a decimal digit.
pub open spec fn digit_value(c: char) -> int {
    c as int - '0' as int
}

/// The number that the decimal digits `s` write.
pub open spec fn digits_value(s: Seq<char>) -> int
    decreases s.len(),
{
    if s.len() == 0 {
        0
    } else {
        digits_value(s.drop_last()) * 10 + digit_value(s.last())
    }
}

/// The decimal notation of `n` is made of decimal digits, writes `n`, and
/// starts with a zero only when `n` is zero.
pub proof fn law_decimal_writes_the_number(n: nat)
    ensures
        decimal_text(n).len() > 0,
        forall|i: int| 0 <= i < decimal_text(n).len() ==> '0' <= #[trigger] decimal_text(n)[i] <= '9',
        digits_value(decimal_text(n)) == n,
        decimal_text(n)[0] == '0' ==> n == 0,
    decreases n,
{
    if n >= 10 {
        law_decimal_writes_the_number(n / 10);
        let s = decimal_text(n);
        assert(s.drop_last() =~= decimal_text(n / 10));
        assert(s.last() == digit_char((n % 10) as int));
        assert(n == (n / 10) * 10 + n % 10);
        assert forall|i: int| 0 <= i < s.len() implies '0' <= #[trigger] s[i] <= '9' by {
            if i < s.len() - 1 {
                assert(s[i] == decimal_text(n / 10)[i]);
            }
        }
        assert(s[0] == decimal_text(n / 10)[0]);
        assert(digit_value(s.last()) == n % 10);
        assert(digits_value(s) == digits_value(s.drop_last()) * 10 + digit_value(s.last()));
    } else {
        let s = decimal_text(n);
        assert(s.drop_last() =~= Seq::<char>::empty());
        assert(digit_value(s.last()) == n);
        assert(digits_value(s) == digits_value(s.drop_last()) * 10 + digit_value(s.last()));
    }
}

fn digit_str(d: u64) -> (s: &'static str)
    requires
        d < 10,
    ensures
        s@ == seq![digit_char(d as int)],
{
    if d == 0 {
        proof { reveal_strlit("0"); }
        "0"
    } else if d == 1 {
        proof { reveal_strlit("1"); }
        "1"
    } else if d == 2 {
        proof { reveal_strlit("2"); }
        "2"
    } else if d == 3 {
        proof { reveal_strlit("3"); }
        "3"
    } else if d == 4 {
        proof { reveal_strlit("4"); }
        "4"
    } else if d == 5 {
        proof { reveal_strlit("5"); }
        "5"
    } else if d == 6 {
        proof { reveal_strlit("6"); }
        "6"
    } else if d == 7 {
        proof { reveal_strlit("7"); }
        "7"
    } else if d == 8 {
        proof { reveal_strlit("8"); }
        "8"
    } else {
        proof { reveal_strlit("9"); }
        "9"
    }
}

/// Writes `n` in decimal.
pub fn decimal(n: u64) -> (s: String)
    ensures
        s@ == decimal_text(n as nat),
    decreases n,
{
    if n < 10 {
        String::from_str(digit_str(n))
    } else {
        let head = decimal(n / 10);
        head.concat(digit_str(n % 10))
    }
}

/// The path that asks the delay server to answer request `i` of `n_events`
/// after `(n_events - i) * 1000` milliseconds, so that later requests are
/// answered first.
pub open spec fn request_path_text(n_events: nat, i: nat) -> Seq<char> {
    "/"@ + decimal_text(((n_events - i) * 1000) as nat) + "/request-"@ + decimal_text(i)
}

/// Builds the path of request `i` of `n_events` (see `request_path_text`).
pub fn request_path(n_events: u64, i: u64) -> (path: String)
    requires
        i < n_events,
        (n_events - i) * 1000 <= u64::MAX,
    ensures
        path@ == request_path_text(n_events as nat, i as nat),
{
    let delay = (n_events - i) * 1000;
    let path = String::from_str("/");
    let d = decimal(delay);
    let path = path.concat(d.as_str());
    let path = path.concat("/request-");
    let k = decimal(i);
    let path = path.concat(k.as_str());
    path
}

/// The body with which the delay server answers request `request_id`.
pub open spec fn delay_reply_text(request_id: Seq<char>) -> Seq<char> {
    "DONE: "@ + request_id
}

/// Builds the delay server's answer to request `request_id`.
pub fn delay_reply(request_id: &str) -> (body: String)
    ensures
        body@ == delay_reply_text(request_id@),
{
    String::from_str("DONE: ").concat(request_id)
}

/// What `String::from_utf8_lossy` makes of `bytes`: their UTF-8 decoding,
/// with each invalid sequence replaced by U+FFFD.
pub uninterp spec fn utf8_lossy(bytes: Seq<u8>) -> Seq<char>;

/// Decodes `bytes` as UTF-8, replacing invalid sequences, by
/// `String::from_utf8_lossy`. Its documentation promises that valid UTF-8
/// comes back decoded unchanged; what an invalid input gives is only named.
#[verifier::external_body]
pub(crate) fn decode_lossy(bytes: &[u8]) -> (text: String)
    ensures
        text@ == utf8_lossy(bytes@),
        valid_utf8(bytes@) ==> text@ == decode_utf8(bytes@),
{
    String::from_utf8_lossy(bytes).into_owned()
}

} // verus!
