//! Diagnostic lines: an elapsed-time stamp `[SSSSS.mmm]` followed by a message.

use vstd::prelude::*;

verus! {

/// The ASCII digit for `d` (meaningful for `d < 10`).
pub open spec fn digit_char(d: nat) -> char {
    if d == 0 { '0' }
    else if d == 1 { '1' }
    else if d == 2 { '2' }
    else if d == 3 { '3' }
    else if d == 4 { '4' }
    else if d == 5 { '5' }
    else if d == 6 { '6' }
    else if d == 7 { '7' }
    else if d == 8 { '8' }
    else { '9' }
}

/// Decimal notation of `n`, without leading zeros.
pub open spec fn decimal(n: nat) -> Seq<char>
    decreases n,
{
    if n < 10 {
        seq![digit_char(n)]
    } else {
        decimal(n / 10) + seq![digit_char(n % 10)]
    }
}

/// `s` left-padded with `fill` up to `width` characters.
pub open spec fn pad_left(s: Seq<char>, width: nat, fill: char) -> Seq<char> {
    if s.len() >= width {
        s
    } else {
        Seq::new((width - s.len()) as nat, |_i: int| fill) + s
    }
}

/// The stamp for `ms` milliseconds: whole seconds right-aligned in five
/// columns, a dot, and the milliseconds as three digits, in brackets.
pub open spec fn stamp_text(ms: nat) -> Seq<char> {
    seq!['['] + pad_left(decimal(ms / 1000), 5, ' ') + seq!['.'] + pad_left(
        decimal(ms % 1000),
        3,
        '0',
    ) + seq![']']
}

fn digit_str(d: u64) -> (r: &'static str)
    requires
        d < 10,
    ensures
        r@ == seq![digit_char(d as nat)],
{
    proof {
        reveal_strlit("0");
        reveal_strlit("1");
        reveal_strlit("2");
        reveal_strlit("3");
        reveal_strlit("4");
        reveal_strlit("5");
        reveal_strlit("6");
        reveal_strlit("7");
        reveal_strlit("8");
        reveal_strlit("9");
    }
    if d == 0 {
        "0"
    } else if d == 1 {
        "1"
    } else if d == 2 {
        "2"
    } else if d == 3 {
        "3"
    } else if d == 4 {
        "4"
    } else if d == 5 {
        "5"
    } else if d == 6 {
        "6"
    } else if d == 7 {
        "7"
    } else if d == 8 {
        "8"
    } else {
        "9"
    }
}

fn decimal_string(n: u64) -> (r: String)
    ensures
        r@ == decimal(n as nat),
    decreases n,
{
    if n < 10 {
        String::from_str(digit_str(n))
    } else {
        let mut s = decimal_string(n / 10);
        s.append(digit_str(n % 10));
        s
    }
}

fn padded(s: String, width: usize, fill: &str) -> (r: String)
    requires
        fill@.len() == 1,
    ensures
        r@ == pad_left(s@, width as nat, fill@[0]),
{
    let len = s.as_str().unicode_len();
    if len >= width {
        return s;
    }
    let missing = width - len;
    let mut out = String::new();
    let mut i: usize = 0;
    while i < missing
        invariant
            i <= missing,
            fill@.len() == 1,
            out@ == Seq::new(i as nat, |_j: int| fill@[0]),
        decreases missing - i,
    {
        out.append(fill);
        i = i + 1;
        assert(out@ =~= Seq::new(i as nat, |_j: int| fill@[0]));
    }
    out.append(s.as_str());
    out
}

/// Renders `elapsed_ms` milliseconds as the stamp that opens each diagnostic line.
pub fn timestamp(elapsed_ms: u64) -> (r: String)
    ensures
        r@ == stamp_text(elapsed_ms as nat),
{
    proof {
        reveal_strlit("[");
        reveal_strlit(" ");
        reveal_strlit(".");
        reveal_strlit("0");
        reveal_strlit("]");
    }
    let secs = padded(decimal_string(elapsed_ms / 1000), 5, " ");
    let millis = padded(decimal_string(elapsed_ms % 1000), 3, "0");
    let mut r = String::from_str("[");
    r.append(secs.as_str());
    r.append(".");
    r.append(millis.as_str());
    r.append("]");
    assert(r@ =~= stamp_text(elapsed_ms as nat));
    r
}

/// The line written before each attempt on `url`.
pub open spec fn requesting_text(ms: nat, url: Seq<char>) -> Seq<char> {
    stamp_text(ms) + " requesting "@ + url + "..."@
}

/// The line written after an attempt on `url` that got a response.
pub open spec fn got_text(ms: nat, url: Seq<char>) -> Seq<char> {
    stamp_text(ms) + " got "@ + url
}

/// The line announcing an attempt on `url`, stamped `elapsed_ms`.
pub fn requesting_line(elapsed_ms: u64, url: &str) -> (r: String)
    ensures
        r@ == requesting_text(elapsed_ms as nat, url@),
{
    let mut r = timestamp(elapsed_ms);
    r.append(" requesting ");
    r.append(url);
    r.append("...");
    r
}

/// The line reporting a response from `url`, stamped `elapsed_ms`.
pub fn got_line(elapsed_ms: u64, url: &str) -> (r: String)
    ensures
        r@ == got_text(elapsed_ms as nat, url@),
{
    let mut r = timestamp(elapsed_ms);
    r.append(" got ");
    r.append(url);
    r
}

} // verus!
