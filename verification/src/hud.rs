//! The texts shown on screen: time left, score and high score.

use vstd::prelude::*;
use crate::constants::NANOS_PER_SEC;
use crate::resources::{GameTimer, Score};

verus! {

/// The character of the decimal digit `d`.
pub open spec fn digit_char(d: nat) -> char {
    if d == 0 {
        '0'
    } else if d == 1 {
        '1'
    } else if d == 2 {
        '2'
    } else if d == 3 {
        '3'
    } else if d == 4 {
        '4'
    } else if d == 5 {
        '5'
    } else if d == 6 {
        '6'
    } else if d == 7 {
        '7'
    } else if d == 8 {
        '8'
    } else {
        '9'
    }
}

/// `n` written in decimal, without leading zeros.
pub open spec fn decimal(n: nat) -> Seq<char>
    decreases n,
{
    if n < 10 {
        seq![digit_char(n)]
    } else {
        decimal(n / 10).push(digit_char(n % 10))
    }
}

/// Is `c` one of the ten decimal digits?
pub open spec fn is_digit(c: char) -> bool {
    '0' <= c && c <= '9'
}

/// The number that the decimal digit `c` stands for.
pub open spec fn digit_value(c: char) -> nat {
    (c as int - '0' as int) as nat
}

/// The number that a string of decimal digits stands for, read in base ten.
pub open spec fn digits_value(s: Seq<char>) -> nat
    decreases s.len(),
{
    if s.len() == 0 {
        0
    } else {
        digits_value(s.drop_last()) * 10 + digit_value(s.last())
    }
}

/// Each digit character reads back as its digit.
pub proof fn lemma_digit_char_value(d: nat)
    requires
        d < 10,
    ensures
        is_digit(digit_char(d)),
        digit_value(digit_char(d)) == d,
        digit_char(d) == '0' ==> d == 0,
{
    assert('0' as int == 48 && '1' as int == 49 && '2' as int == 50 && '3' as int == 51 && '4' as int
        == 52 && '5' as int == 53 && '6' as int == 54 && '7' as int == 55 && '8' as int == 56
        && '9' as int == 57);
}

/// `decimal(n)` is a non-empty string of decimal digits that reads back as
/// `n`, and it starts with `0` only when `n` is zero.
pub proof fn lemma_decimal_reads_back(n: nat)
    ensures
        decimal(n).len() > 0,
        forall|i: int| 0 <= i < decimal(n).len() ==> is_digit(#[trigger] decimal(n)[i]),
        digits_value(decimal(n)) == n,
        decimal(n)[0] == '0' ==> n == 0,
    decreases n,
{
    if n < 10 {
        let d = decimal(n);
        lemma_digit_char_value(n);
        assert(d.drop_last() =~= Seq::<char>::empty());
        assert(d[0] == digit_char(n));
        assert(digits_value(d) == digits_value(d.drop_last()) * 10 + digit_value(d.last()));
    } else {
        lemma_decimal_reads_back(n / 10);
        let d = decimal(n);
        let p = decimal(n / 10);
        assert(d.drop_last() =~= p);
        assert(d[0] == p[0]);
        assert forall|i: int| 0 <= i < d.len() implies is_digit(#[trigger] d[i]) by {
            if i < p.len() {
                assert(d[i] == p[i]);
            }
        }
        lemma_digit_char_value((n % 10) as nat);
        assert(d.last() == digit_char((n % 10) as nat));
        assert(digits_value(d) == digits_value(p) * 10 + n % 10);
        assert(n == (n / 10) * 10 + n % 10);
    }
}

/// Whole seconds in `nanos` nanoseconds, rounded up.
pub open spec fn seconds_rounded_up(nanos: nat) -> nat {
    ((nanos + NANOS_PER_SEC - 1) / (NANOS_PER_SEC as int)) as nat
}

/// The whole seconds shown for `nanos` nanoseconds are the least number of
/// whole seconds that covers them.
pub proof fn lemma_seconds_rounded_up(nanos: nat)
    ensures
        seconds_rounded_up(nanos) * 1_000_000_000 >= nanos,
        nanos > 0 ==> (seconds_rounded_up(nanos) - 1) * 1_000_000_000 < nanos,
        nanos == 0 ==> seconds_rounded_up(nanos) == 0,
{
    let q = seconds_rounded_up(nanos);
    assert(q == (nanos + 999_999_999) / 1_000_000_000);
    assert(q * 1_000_000_000 >= nanos && (nanos > 0 ==> (q - 1) * 1_000_000_000 < nanos) && (nanos
        == 0 ==> q == 0)) by (nonlinear_arith)
        requires
            q == (nanos + 999_999_999) / 1_000_000_000,
    ;
}

fn digit_str(d: u64) -> (s: &'static str)
    requires
        d < 10,
    ensures
        s@ == seq![digit_char(d as nat)],
{
    if d == 0 {
        proof {
            reveal_strlit("0");
        }
        "0"
    } else if d == 1 {
        proof {
            reveal_strlit("1");
        }
        "1"
    } else if d == 2 {
        proof {
            reveal_strlit("2");
        }
        "2"
    } else if d == 3 {
        proof {
            reveal_strlit("3");
        }
        "3"
    } else if d == 4 {
        proof {
            reveal_strlit("4");
        }
        "4"
    } else if d == 5 {
        proof {
            reveal_strlit("5");
        }
        "5"
    } else if d == 6 {
        proof {
            reveal_strlit("6");
        }
        "6"
    } else if d == 7 {
        proof {
            reveal_strlit("7");
        }
        "7"
    } else if d == 8 {
        proof {
            reveal_strlit("8");
        }
        "8"
    } else {
        proof {
            reveal_strlit("9");
        }
        "9"
    }
}

/// Appends `n` in decimal to `s`.
pub fn push_decimal(s: &mut String, n: u64)
    ensures
        final(s)@ == old(s)@ + decimal(n as nat),
        final(s)@.len() > old(s)@.len(),
        digits_value(final(s)@.subrange(old(s)@.len() as int, final(s)@.len() as int)) == n,
        final(s)@[old(s)@.len() as int] == '0' ==> n == 0,
    decreases n,
{
    let ghost start = s@;
    if n >= 10 {
        push_decimal(s, n / 10);
    }
    s.append(digit_str(n % 10));
    assert(decimal(n as nat) =~= if n < 10 {
        seq![digit_char(n as nat)]
    } else {
        decimal((n / 10) as nat).push(digit_char((n % 10) as nat))
    });
    proof {
        lemma_decimal_reads_back(n as nat);
        assert(s@.subrange(start.len() as int, s@.len() as int) =~= decimal(n as nat));
        assert(s@[start.len() as int] == decimal(n as nat)[0]);
    }
}

/// The label of the time left: `Time: ` and the seconds.
pub fn time_label(secs: u64) -> (s: String)
    ensures
        s@ == "Time: "@ + decimal(secs as nat),
{
    let mut s = String::from_str("Time: ");
    push_decimal(&mut s, secs);
    s
}

/// The label of the round's score: `Score: ` and the score.
pub fn score_label(score: u32) -> (s: String)
    ensures
        s@ == "Score: "@ + decimal(score as nat),
{
    let mut s = String::from_str("Score: ");
    push_decimal(&mut s, score as u64);
    s
}

/// The label of the high score on the menu: `High Score: ` and the score.
pub fn high_score_label(high_score: u32) -> (s: String)
    ensures
        s@ == "High Score: "@ + decimal(high_score as nat),
{
    let mut s = String::from_str("High Score: ");
    push_decimal(&mut s, high_score as u64);
    s
}

/// The seconds left in the round, rounded up.
pub fn whole_seconds_left(game_timer: &GameTimer) -> (secs: u64)
    ensures
        secs == seconds_rounded_up(game_timer.0@.remaining()),
        secs * 1_000_000_000 >= game_timer.0@.remaining(),
        game_timer.0@.remaining() > 0 ==> (secs - 1) * 1_000_000_000 < game_timer.0@.remaining(),
        game_timer.0@.remaining() == 0 ==> secs == 0,
{
    let nanos = game_timer.0.remaining_nanos();
    let whole = nanos / NANOS_PER_SEC;
    let secs = if nanos % NANOS_PER_SEC == 0 {
        whole
    } else {
        whole + 1
    };
    assert(secs == seconds_rounded_up(nanos as nat)) by (nonlinear_arith)
        requires
            whole == nanos / NANOS_PER_SEC,
            nanos % NANOS_PER_SEC == 0 ==> secs == whole,
            nanos % NANOS_PER_SEC != 0 ==> secs == whole + 1,
            NANOS_PER_SEC == 1_000_000_000u64,
    ;
    proof {
        lemma_seconds_rounded_up(nanos as nat);
    }
    secs
}

/// The two HUD texts for this frame: the time left and the score.
pub fn update_hud(game_timer: &GameTimer, score: &Score) -> (texts: (String, String))
    ensures
        texts.0@ == "Time: "@ + decimal(seconds_rounded_up(game_timer.0@.remaining())),
        texts.1@ == "Score: "@ + decimal(score.0 as nat),
{
    let remaining = whole_seconds_left(game_timer);
    (time_label(remaining), score_label(score.0))
}

} // verus!
