use vstd::prelude::*;

verus! {

/// Unicode White_Space, the characters `char::is_whitespace` accepts.
pub open spec fn is_white(c: char) -> bool {
    let u = c as u32;
    ||| 0x09 <= u <= 0x0d
    ||| u == 0x20
    ||| u == 0x85
    ||| u == 0xa0
    ||| u == 0x1680
    ||| 0x2000 <= u <= 0x200a
    ||| u == 0x2028
    ||| u == 0x2029
    ||| u == 0x202f
    ||| u == 0x205f
    ||| u == 0x3000
}

/// `s` without leading whitespace.
pub open spec fn trim_start(s: Seq<char>) -> Seq<char>
    decreases s.len(),
{
    if s.len() > 0 && is_white(s[0]) {
        trim_start(s.drop_first())
    } else {
        s
    }
}

/// `s` without trailing whitespace.
pub open spec fn trim_end(s: Seq<char>) -> Seq<char>
    decreases s.len(),
{
    if s.len() > 0 && is_white(s.last()) {
        trim_end(s.drop_last())
    } else {
        s
    }
}

pub open spec fn is_digit(c: char) -> bool {
    '0' <= c && c <= '9'
}

pub open spec fn all_digits(s: Seq<char>) -> bool {
    forall|i: int| 0 <= i < s.len() ==> is_digit(#[trigger] s[i])
}

/// The number the decimal digits `s` write.
pub open spec fn digits_value(s: Seq<char>) -> int
    decreases s.len(),
{
    if s.len() == 0 {
        0
    } else {
        digits_value(s.drop_last()) * 10 + (s.last() as u32 - '0' as u32)
    }
}

/// The PID that the text of a PID file holds: surrounding whitespace is
/// ignored, then an optional `+` and at least one decimal digit, with a value
/// that fits `u32`.
pub open spec fn pid_text_value(text: Seq<char>) -> Option<u32> {
    let t = trim_end(trim_start(text));
    let d = if t.len() > 0 && t[0] == '+' {
        t.drop_first()
    } else {
        t
    };
    if d.len() > 0 && all_digits(d) && digits_value(d) <= u32::MAX {
        Some(digits_value(d) as u32)
    } else {
        None
    }
}

/// True iff `c` is whitespace.
pub fn white(c: char) -> (r: bool)
    ensures
        r == is_white(c),
{
    let u = c as u32;
    (0x09 <= u && u <= 0x0d) || u == 0x20 || u == 0x85 || u == 0xa0 || u == 0x1680 || (0x2000 <= u
        && u <= 0x200a) || u == 0x2028 || u == 0x2029 || u == 0x202f || u == 0x205f || u == 0x3000
}

proof fn lemma_digits_value_nonneg(s: Seq<char>)
    requires
        all_digits(s),
    ensures
        digits_value(s) >= 0,
    decreases s.len(),
{
    if s.len() > 0 {
        assert(all_digits(s.drop_last())) by {
            assert forall|i: int| 0 <= i < s.drop_last().len() implies is_digit(
                #[trigger] s.drop_last()[i],
            ) by {
                assert(s.drop_last()[i] == s[i]);
            }
        }
        lemma_digits_value_nonneg(s.drop_last());
        assert(is_digit(s[s.len() - 1]));
    }
}

/// Reads the PID that a PID file's text holds.
pub fn parse_pid(text: &str) -> (r: Option<u32>)
    ensures
        r == pid_text_value(text@),
{
    let n = text.unicode_len();
    // leading whitespace
    let mut a: usize = 0;
    assert(text@.subrange(0, n as int) =~= text@);
    while a < n && white(text.get_char(a))
        invariant
            a <= n,
            n == text@.len(),
            trim_start(text@) == trim_start(text@.subrange(a as int, n as int)),
        decreases n - a,
    {
        assert(text@.subrange(a as int, n as int).drop_first() =~= text@.subrange(a + 1, n as int));
        a = a + 1;
    }
    let ghost front = text@.subrange(a as int, n as int);
    assert(trim_start(text@) == front);
    // trailing whitespace
    let mut b: usize = n;
    while b > a && white(text.get_char(b - 1))
        invariant
            a <= b <= n,
            n == text@.len(),
            front == text@.subrange(a as int, n as int),
            trim_end(front) == trim_end(text@.subrange(a as int, b as int)),
        decreases b - a,
    {
        assert(text@.subrange(a as int, b as int).drop_last() =~= text@.subrange(a as int, b - 1));
        b = b - 1;
    }
    let ghost t = text@.subrange(a as int, b as int);
    assert(trim_end(front) == t);
    assert(trim_end(trim_start(text@)) == t);
    let mut i: usize = a;
    if i < b && text.get_char(i) == '+' {
        i = i + 1;
    }
    let ghost d = text@.subrange(i as int, b as int);
    assert(d =~= (if t.len() > 0 && t[0] == '+' {
        t.drop_first()
    } else {
        t
    }));
    if i == b {
        assert(d.len() == 0);
        return None;
    }
    let start = i;
    assert(pid_text_value(text@) == (if d.len() > 0 && all_digits(d) && digits_value(d) <= u32::MAX {
        Some(digits_value(d) as u32)
    } else {
        None
    }));
    let mut acc: u64 = 0;
    let mut big = false;
    while i < b
        invariant
            start <= i <= b <= n,
            n == text@.len(),
            d == text@.subrange(start as int, b as int),
            d.len() > 0,
            pid_text_value(text@) == (if d.len() > 0 && all_digits(d) && digits_value(d) <= u32::MAX {
                Some(digits_value(d) as u32)
            } else {
                None
            }),
            all_digits(text@.subrange(start as int, i as int)),
            !big ==> acc == digits_value(text@.subrange(start as int, i as int)),
            !big ==> acc <= u32::MAX,
            big ==> digits_value(text@.subrange(start as int, i as int)) > u32::MAX,
        decreases b - i,
    {
        let c = text.get_char(i);
        if !('0' <= c && c <= '9') {
            assert(!all_digits(d)) by {
                assert(d[i - start] == c);
            }
            assert(pid_text_value(text@) is None);
            return None;
        }
        let ghost prev = text@.subrange(start as int, i as int);
        let ghost next = text@.subrange(start as int, i + 1);
        assert(next.drop_last() =~= prev);
        assert(next.last() == c);
        proof {
            lemma_digits_value_nonneg(prev);
        }
        if !big {
            let v = acc * 10 + (c as u64 - '0' as u64);
            if v > u32::MAX as u64 {
                big = true;
            } else {
                acc = v;
            }
        }
        assert(all_digits(next)) by {
            assert forall|q: int| 0 <= q < next.len() implies is_digit(#[trigger] next[q]) by {
                if q < prev.len() {
                    assert(next[q] == prev[q]);
                }
            }
        }
        i = i + 1;
    }
    assert(text@.subrange(start as int, b as int) == d);
    if big {
        None
    } else {
        Some(acc as u32)
    }
}

} // verus!
