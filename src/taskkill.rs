use vstd::prelude::*;

use encoding::Encoding;

use crate::env::digit_char;

verus! {

/// The text that bytes encode in UTF-8, none when they are not valid UTF-8.
pub uninterp spec fn utf8_strict(b: Seq<u8>) -> Option<Seq<char>>;

/// The text that bytes encode in GB18030, none when they are not valid GB18030.
pub uninterp spec fn gb18030_strict(b: Seq<u8>) -> Option<Seq<char>>;

/// Relies on `encoding::all::UTF_8.decode` with `DecoderTrap::Strict`: the
/// decoded text, or none when the bytes are not valid UTF-8.
#[verifier::external_body]
fn decode_utf8(b: &Vec<u8>) -> (r: Option<String>)
    ensures
        match r {
            Some(s) => utf8_strict(b@) == Some(s@),
            None => utf8_strict(b@) is None,
        },
{
    encoding::all::UTF_8.decode(b, encoding::DecoderTrap::Strict).ok()
}

/// Relies on `encoding::all::GB18030.decode` with `DecoderTrap::Strict`: the
/// decoded text, or none when the bytes are not valid GB18030.
#[verifier::external_body]
fn decode_gb18030(b: &Vec<u8>) -> (r: Option<String>)
    ensures
        match r {
            Some(s) => gb18030_strict(b@) == Some(s@),
            None => gb18030_strict(b@) is None,
        },
{
    encoding::all::GB18030.decode(b, encoding::DecoderTrap::Strict).ok()
}

/// The first decoding that succeeded, else empty text.
pub open spec fn first_decoded(utf8: Option<Seq<char>>, gb: Option<Seq<char>>) -> Seq<char> {
    match utf8 {
        Some(s) => s,
        None => match gb {
            Some(s) => s,
            None => Seq::empty(),
        },
    }
}

/// Chooses between the two decodings of a message.
pub fn decoded_text(utf8: Option<String>, gb: Option<String>) -> (r: String)
    ensures
        r@ == first_decoded(
            match utf8 {
                Some(s) => Some(s@),
                None => None,
            },
            match gb {
                Some(s) => Some(s@),
                None => None,
            },
        ),
{
    proof {
        reveal_strlit("");
    }
    match utf8 {
        Some(s) => s,
        None => match gb {
            Some(s) => s,
            None => String::from_str(""),
        },
    }
}

/// A console message: UTF-8, else GB18030, else empty.
pub fn decode_msg(bytes: &Vec<u8>) -> (r: String)
    ensures
        r@ == first_decoded(utf8_strict(bytes@), gb18030_strict(bytes@)),
{
    let utf8 = decode_utf8(bytes);
    if utf8.is_some() {
        return decoded_text(utf8, None);
    }
    decoded_text(None, decode_gb18030(bytes))
}

/// The decimal text of `n`.
pub open spec fn decimal_text(n: nat) -> Seq<char>
    decreases n,
{
    if n < 10 {
        seq![digit_char(n as int)]
    } else {
        decimal_text(n / 10).push(digit_char((n % 10) as int))
    }
}

fn digit_str(n: u32) -> (r: &'static str)
    requires
        n < 10,
    ensures
        r@ == seq![digit_char(n as int)],
{
    proof {
        reveal_strlit("0");
        reveal_strlit("1");
        reveal_strlit("2");
        reveal_strlit("3");
        reveal_strlit("4");
        reveal_strlit("5");
        reveal_strlit("6");
        reveal_strlit("7");
        reveal_strlit("8");
        reveal_strlit("9");
    }
    if n == 0 {
        "0"
    } else if n == 1 {
        "1"
    } else if n == 2 {
        "2"
    } else if n == 3 {
        "3"
    } else if n == 4 {
        "4"
    } else if n == 5 {
        "5"
    } else if n == 6 {
        "6"
    } else if n == 7 {
        "7"
    } else if n == 8 {
        "8"
    } else {
        "9"
    }
}

/// `n` in decimal.
pub fn decimal(n: u32) -> (r: String)
    ensures
        r@ == decimal_text(n as nat),
    decreases n,
{
    if n < 10 {
        String::from_str(digit_str(n))
    } else {
        let mut s = decimal(n / 10);
        s.append(digit_str(n % 10));
        s
    }
}

/// Arguments of `taskkill` for `pid`: the whole tree, forced when `force`.
pub fn taskkill_args(pid: u32, force: bool) -> (r: Vec<String>)
    ensures
        r@.len() == (if force {
            4int
        } else {
            3int
        }),
        force ==> r@[0]@ == "/F"@,
        r@[r@.len() - 3]@ == "/T"@,
        r@[r@.len() - 2]@ == "/PID"@,
        r@[r@.len() - 1]@ == decimal_text(pid as nat),
{
    let mut args: Vec<String> = Vec::new();
    if force {
        args.push(String::from_str("/F"));
    }
    args.push(String::from_str("/T"));
    args.push(String::from_str("/PID"));
    args.push(decimal(pid));
    args
}

/// The error reported when `taskkill` fails: its error output, else its
/// standard output, else "unkown error", after a fixed prefix.
pub open spec fn kill_failure_text(stdout: Seq<char>, stderr: Seq<char>) -> Seq<char> {
    let msg = if stderr.len() == 0 {
        stdout
    } else {
        stderr
    };
    "An error occurred when attempting to terminate process："@ + if msg.len() == 0 {
        "unkown error"@
    } else {
        msg
    }
}

pub fn kill_failure_message(stdout: &str, stderr: &str) -> (r: String)
    ensures
        r@ == kill_failure_text(stdout@, stderr@),
{
    let msg = if stderr.unicode_len() == 0 {
        stdout
    } else {
        stderr
    };
    let mut r = String::from_str("An error occurred when attempting to terminate process：");
    if msg.unicode_len() == 0 {
        r.append("unkown error");
    } else {
        r.append(msg);
    }
    r
}

} // verus!
