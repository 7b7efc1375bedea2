//! Clock-time formatting and the plain-text export of captions.
use vstd::prelude::*;
use crate::records::Caption;

verus! {

pub open spec fn digit_char(d: int) -> char {
    if d == 0 {
        '0'
    } else if d == 1 {
        '1'
    } else if d == 2 {
        '2'
    } else if d == 3 {
        '3'
    } else if d == 4 {
        '4'
    } else if d == 5 {
        '5'
    } else if d == 6 {
        '6'
    } else if d == 7 {
        '7'
    } else if d == 8 {
        '8'
    } else {
        '9'
    }
}

/// A number of at most two digits written with at least two characters: a
/// leading zero pads one digit, and a negative number gets a minus sign in
/// place of the padding.
pub open spec fn pad2(v: int) -> Seq<char> {
    if v >= 0 {
        if v < 10 {
            seq!['0', digit_char(v)]
        } else {
            seq![digit_char(v / 10), digit_char(v % 10)]
        }
    } else if -v < 10 {
        seq!['-', digit_char(-v)]
    } else {
        seq!['-', digit_char(-v / 10), digit_char(-v % 10)]
    }
}

pub open spec fn abs_ms(ts: i64) -> int {
    if ts < 0 {
        -(ts as int)
    } else {
        ts as int
    }
}

/// One clock field: the magnitude `x`, negated for times before the epoch.
pub open spec fn clock_field(ts: i64, x: int) -> Seq<char> {
    pad2(
        if ts < 0 {
            -x
        } else {
            x
        },
    )
}

/// The time of day `HH:MM:SS` (UTC) of a timestamp in milliseconds; each
/// field is computed from the timestamp's magnitude and, before the epoch,
/// shown negated.
pub open spec fn clock_text(ts: i64) -> Seq<char> {
    let secs = abs_ms(ts) / 1000;
    clock_field(ts, (secs / 3600) % 24) + seq![':'] + clock_field(ts, (secs / 60) % 60) + seq![':']
        + clock_field(ts, secs % 60)
}

fn digit(d: u64) -> (r: &'static str)
    requires
        d < 10,
    ensures
        r@ == seq![digit_char(d as int)],
{
    proof {
        reveal_strlit("0");
        reveal_strlit("1");
        reveal_strlit("2");
        reveal_strlit("3");
        reveal_strlit("4");
        reveal_strlit("5");
        reveal_strlit("6");
        reveal_strlit("7");
        reveal_strlit("8");
        reveal_strlit("9");
    }
    let r = if d == 0 {
        "0"
    } else if d == 1 {
        "1"
    } else if d == 2 {
        "2"
    } else if d == 3 {
        "3"
    } else if d == 4 {
        "4"
    } else if d == 5 {
        "5"
    } else if d == 6 {
        "6"
    } else if d == 7 {
        "7"
    } else if d == 8 {
        "8"
    } else {
        "9"
    };
    assert(r@ =~= seq![digit_char(d as int)]);
    r
}

fn field(negative: bool, x: u64) -> (r: String)
    requires
        x < 100,
    ensures
        r@ == pad2(
            if negative {
                -(x as int)
            } else {
                x as int
            },
        ),
{
    proof {
        reveal_strlit("0");
        reveal_strlit("-");
    }
    let mut r = String::new();
    if !negative || x == 0 {
        if x < 10 {
            r.append("0");
            r.append(digit(x));
        } else {
            r.append(digit(x / 10));
            r.append(digit(x % 10));
        }
    } else {
        r.append("-");
        if x < 10 {
            r.append(digit(x));
        } else {
            r.append(digit(x / 10));
            r.append(digit(x % 10));
        }
    }
    let ghost v: int = if negative {
        -(x as int)
    } else {
        x as int
    };
    assert(r@ =~= pad2(v));
    r
}

/// Formats the time of day of a timestamp in milliseconds as `HH:MM:SS`.
pub fn chrono_lite_format(timestamp_ms: i64) -> (r: String)
    ensures
        r@ == clock_text(timestamp_ms),
{
    let negative = timestamp_ms < 0;
    let m: u64 = if negative {
        ((-(timestamp_ms + 1)) as u64) + 1
    } else {
        timestamp_ms as u64
    };
    assert(m == abs_ms(timestamp_ms));
    let secs = m / 1000;
    let mut r = field(negative, (secs / 3600) % 24);
    proof {
        reveal_strlit(":");
    }
    r.append(":");
    r.append(field(negative, (secs / 60) % 60).as_str());
    r.append(":");
    r.append(field(negative, secs % 60).as_str());
    assert(r@ =~= clock_text(timestamp_ms));
    r
}

/// The export lines of the final captions, in order: `[HH:MM:SS] text`.
pub open spec fn export_lines(captions: Seq<Caption>) -> Seq<char>
    decreases captions.len(),
{
    if captions.len() == 0 {
        Seq::empty()
    } else {
        let c = captions.last();
        export_lines(captions.drop_last()) + if c.caption_type@ == "final"@ {
            "["@ + clock_text(c.timestamp) + "] "@ + c.text@ + "\n"@
        } else {
            Seq::empty()
        }
    }
}

/// The text of a caption export: a title line, a blank line, then one line
/// per final caption; partial captions are left out.
pub fn export_text(captions: &Vec<Caption>) -> (r: String)
    ensures
        r@ == "# Zipy Export\n\n"@ + export_lines(captions@),
{
    let mut content = String::from_str("# Zipy Export\n\n");
    let final_kind = String::from_str("final");
    let mut i: usize = 0;
    while i < captions.len()
        invariant
            i <= captions@.len(),
            final_kind@ == "final"@,
            content@ == "# Zipy Export\n\n"@ + export_lines(captions@.subrange(0, i as int)),
        decreases captions@.len() - i,
    {
        let c = &captions[i];
        proof {
            let s = captions@.subrange(0, i + 1);
            assert(s.drop_last() =~= captions@.subrange(0, i as int));
            assert(s.last() == *c);
        }
        if c.caption_type == final_kind {
            content.append("[");
            content.append(chrono_lite_format(c.timestamp).as_str());
            content.append("] ");
            content.append(c.text.as_str());
            content.append("\n");
        }
        proof {
            let s = captions@.subrange(0, i + 1);
            assert(content@ =~= "# Zipy Export\n\n"@ + export_lines(s));
        }
        i = i + 1;
    }
    assert(captions@.subrange(0, captions@.len() as int) =~= captions@);
    content
}

} // verus!
