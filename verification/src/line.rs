//! The line appended to the tracked file on every run: a fixed prefix, the
//! wall-clock time as decimal seconds, and a newline. The specs pin the text
//! down exactly; the lemmas show the line is well formed, that the embedded
//! timestamp reads back unchanged, and that distinct timestamps give distinct
//! lines.

use vstd::prelude::*;
use vstd::string::StringExecFns;

verus! {

/// The decimal digit `d` as a character (`d < 10`).
pub open spec fn digit_char(d: nat) -> char {
    if d == 0 {
        '0'
    } else if d == 1 {
        '1'
    } else if d == 2 {
        '2'
    } else if d == 3 {
        '3'
    } else if d == 4 {
        '4'
    } else if d == 5 {
        '5'
    } else if d == 6 {
        '6'
    } else if d == 7 {
        '7'
    } else if d == 8 {
        '8'
    } else {
        '9'
    }
}

/// The value of a decimal digit character; `0` for any other character.
pub open spec fn digit_val(c: char) -> nat {
    if c == '1' {
        1
    } else if c == '2' {
        2
    } else if c == '3' {
        3
    } else if c == '4' {
        4
    } else if c == '5' {
        5
    } else if c == '6' {
        6
    } else if c == '7' {
        7
    } else if c == '8' {
        8
    } else if c == '9' {
        9
    } else {
        0
    }
}

/// Whether `c` is a decimal digit character.
pub open spec fn is_digit_char(c: char) -> bool {
    ||| c == '0'
    ||| c == '1'
    ||| c == '2'
    ||| c == '3'
    ||| c == '4'
    ||| c == '5'
    ||| c == '6'
    ||| c == '7'
    ||| c == '8'
    ||| c == '9'
}

/// The decimal digits of `n`, most significant first, with no leading zeros
/// (so `0` is the single character `'0'`).
pub open spec fn dec_digits(n: nat) -> Seq<char>
    decreases n,
{
    if n < 10 {
        seq![digit_char(n)]
    } else {
        dec_digits(n / 10).push(digit_char(n % 10))
    }
}

/// The number a digit sequence denotes, most significant first.
pub open spec fn dec_value(s: Seq<char>) -> nat
    decreases s.len(),
{
    if s.len() == 0 {
        0
    } else {
        dec_value(s.drop_last()) * 10 + digit_val(s.last())
    }
}

/// The digits of `n` are nonempty and all decimal digit characters.
pub proof fn lemma_dec_digits_wf(n: nat)
    ensures
        dec_digits(n).len() >= 1,
        forall|i: int| 0 <= i < dec_digits(n).len() ==> is_digit_char(#[trigger] dec_digits(n)[i]),
    decreases n,
{
    if n >= 10 {
        lemma_dec_digits_wf(n / 10);
        assert forall|i: int| 0 <= i < dec_digits(n).len() implies is_digit_char(
            #[trigger] dec_digits(n)[i],
        ) by {
            if i < dec_digits(n / 10).len() {
                assert(dec_digits(n)[i] == dec_digits(n / 10)[i]);
            } else {
                assert(dec_digits(n)[i] == digit_char(n % 10));
            }
        }
    }
}

/// Reading the digits of `n` back gives `n`: writing and parsing the decimal
/// form round-trips.
pub proof fn lemma_dec_digits_value(n: nat)
    ensures
        dec_value(dec_digits(n)) == n,
    decreases n,
{
    if n < 10 {
        let s = seq![digit_char(n)];
        assert(s.drop_last() =~= Seq::<char>::empty());
        assert(dec_value(s.drop_last()) == 0);
    } else {
        lemma_dec_digits_value(n / 10);
        let s = dec_digits(n / 10).push(digit_char(n % 10));
        assert(s.drop_last() =~= dec_digits(n / 10));
        assert(s.last() == digit_char(n % 10));
        assert(n / 10 * 10 + n % 10 == n);
    }
}

/// Distinct numbers have distinct digit sequences.
pub proof fn lemma_dec_digits_injective(m: nat, n: nat)
    requires
        m != n,
    ensures
        dec_digits(m) != dec_digits(n),
{
    lemma_dec_digits_value(m);
    lemma_dec_digits_value(n);
}

/// The fixed text standing before the timestamp.
pub open spec fn line_prefix() -> Seq<char> {
    "* Line added at "@
}

/// The whole line appended for a run whose clock read `t` seconds: the
/// prefix, the decimal seconds, and a newline.
pub open spec fn line_spec(t: nat) -> Seq<char> {
    line_prefix() + dec_digits(t) + "\n"@
}

/// The shape of an appended line: the fixed prefix, then at least one
/// decimal digit and nothing else, then a terminating newline.
pub open spec fn is_readme_line(s: Seq<char>) -> bool {
    &&& s.len() >= 18
    &&& s.subrange(0, 16) == line_prefix()
    &&& s.last() == '\n'
    &&& forall|i: int| 16 <= i < s.len() - 1 ==> is_digit_char(#[trigger] s[i])
}

/// The timestamp embedded in a line of the shape above.
pub open spec fn line_timestamp(s: Seq<char>) -> nat {
    dec_value(s.subrange(16, s.len() - 1))
}

/// Every line the routine appends is well formed — prefix, digits, newline —
/// and is exactly one line: its only newline is the final character.
pub proof fn lemma_line_spec_is_readme_line(t: nat)
    ensures
        is_readme_line(line_spec(t)),
        forall|i: int| 0 <= i < line_spec(t).len() - 1 ==> #[trigger] line_spec(t)[i] != '\n',
{
    reveal_strlit("* Line added at ");
    reveal_strlit("\n");
    lemma_dec_digits_wf(t);
    let s = line_spec(t);
    assert(s.subrange(0, 16) =~= line_prefix());
    assert(s.last() == '\n');
    assert forall|i: int| 16 <= i < s.len() - 1 implies is_digit_char(#[trigger] s[i]) by {
        assert(s[i] == dec_digits(t)[i - 16]);
    }
    assert forall|i: int| 0 <= i < s.len() - 1 implies #[trigger] s[i] != '\n' by {
        if i < 16 {
            assert(s[i] == line_prefix()[i]);
        } else {
            assert(is_digit_char(s[i]));
        }
    }
}

/// The timestamp written into a line reads back unchanged.
pub proof fn lemma_line_timestamp_round_trip(t: nat)
    ensures
        line_timestamp(line_spec(t)) == t,
{
    reveal_strlit("* Line added at ");
    reveal_strlit("\n");
    let s = line_spec(t);
    assert(s.subrange(16, s.len() - 1) =~= dec_digits(t));
    lemma_dec_digits_value(t);
}

/// Runs with distinct timestamps append distinct lines, and a later clock
/// reading embeds a strictly larger timestamp.
pub proof fn lemma_lines_increase(t1: nat, t2: nat)
    requires
        t1 < t2,
    ensures
        line_spec(t1) != line_spec(t2),
        line_timestamp(line_spec(t1)) < line_timestamp(line_spec(t2)),
{
    lemma_line_timestamp_round_trip(t1);
    lemma_line_timestamp_round_trip(t2);
}

/// The decimal digit `d` as a one-character string.
fn digit_str(d: u64) -> (r: &'static str)
    requires
        d < 10,
    ensures
        r@ == seq![digit_char(d as nat)],
{
    if d == 0 {
        proof {
            reveal_strlit("0");
            assert("0"@ =~= seq![digit_char(d as nat)]);
        }
        "0"
    } else if d == 1 {
        proof {
            reveal_strlit("1");
            assert("1"@ =~= seq![digit_char(d as nat)]);
        }
        "1"
    } else if d == 2 {
        proof {
            reveal_strlit("2");
            assert("2"@ =~= seq![digit_char(d as nat)]);
        }
        "2"
    } else if d == 3 {
        proof {
            reveal_strlit("3");
            assert("3"@ =~= seq![digit_char(d as nat)]);
        }
        "3"
    } else if d == 4 {
        proof {
            reveal_strlit("4");
            assert("4"@ =~= seq![digit_char(d as nat)]);
        }
        "4"
    } else if d == 5 {
        proof {
            reveal_strlit("5");
            assert("5"@ =~= seq![digit_char(d as nat)]);
        }
        "5"
    } else if d == 6 {
        proof {
            reveal_strlit("6");
            assert("6"@ =~= seq![digit_char(d as nat)]);
        }
        "6"
    } else if d == 7 {
        proof {
            reveal_strlit("7");
            assert("7"@ =~= seq![digit_char(d as nat)]);
        }
        "7"
    } else if d == 8 {
        proof {
            reveal_strlit("8");
            assert("8"@ =~= seq![digit_char(d as nat)]);
        }
        "8"
    } else {
        proof {
            reveal_strlit("9");
            assert("9"@ =~= seq![digit_char(d as nat)]);
        }
        "9"
    }
}

/// Appends the decimal digits of `n` to `s`.
fn push_digits(n: u64, s: &mut String)
    ensures
        final(s)@ == old(s)@ + dec_digits(n as nat),
    decreases n,
{
    if n >= 10 {
        push_digits(n / 10, s);
    }
    let d = digit_str(n % 10);
    s.append(d);
    proof {
        assert(s@ =~= old(s)@ + dec_digits(n as nat));
    }
}

/// The decimal form of `n`, as written into the line.
pub fn timestamp_digits(n: u64) -> (s: String)
    ensures
        s@ == dec_digits(n as nat),
{
    let mut s = String::new();
    push_digits(n, &mut s);
    proof {
        assert(s@ =~= dec_digits(n as nat));
    }
    s
}

/// Builds the line to append for a run whose clock read `secs` seconds.
pub fn readme_line(secs: u64) -> (s: String)
    ensures
        s@ == line_spec(secs as nat),
{
    let mut s = String::from_str("* Line added at ");
    push_digits(secs, &mut s);
    s.append("\n");
    proof {
        assert(s@ =~= line_spec(secs as nat));
    }
    s
}

} // verus!
