//! File names of screenshots: `screenshots/shot_<seconds>.png`.
use vstd::prelude::*;
use vstd::string::StringExecFns;

verus! {

/// The decimal digit character of `d`.
pub open spec fn digit_char(d: int) -> char {
    if d == 0 {
        '0'
    } else if d == 1 {
        '1'
    } else if d == 2 {
        '2'
    } else if d == 3 {
        '3'
    } else if d == 4 {
        '4'
    } else if d == 5 {
        '5'
    } else if d == 6 {
        '6'
    } else if d == 7 {
        '7'
    } else if d == 8 {
        '8'
    } else {
        '9'
    }
}

/// The decimal notation of `n`, without leading zeros ("0" for zero).
pub open spec fn decimal(n: nat) -> Seq<char>
    decreases n,
{
    if n < 10 {
        seq![digit_char(n as int)]
    } else {
        decimal(n / 10) + seq![digit_char((n % 10) as int)]
    }
}

/// The path of a screenshot taken `secs` seconds after the Unix epoch.
pub open spec fn screenshot_path_spec(secs: nat) -> Seq<char> {
    "screenshots/shot_"@ + decimal(secs) + ".png"@
}

/// The number a string of decimal digits denotes.
pub open spec fn decimal_value(s: Seq<char>) -> int
    decreases s.len(),
{
    if s.len() == 0 {
        0
    } else {
        decimal_value(s.drop_last()) * 10 + (s.last() as int - '0' as int)
    }
}

proof fn lemma_digit_char_value(d: int)
    requires
        0 <= d < 10,
    ensures
        digit_char(d) as int - '0' as int == d,
        '0' <= digit_char(d) <= '9',
{
}

/// The decimal notation of `n` is made of the digits `0` to `9`, starts
/// with a nonzero digit unless `n` is 0, and denotes `n`.
pub proof fn lemma_decimal_denotes(n: nat)
    ensures
        decimal(n).len() >= 1,
        forall|i: int| 0 <= i < decimal(n).len() ==> '0' <= #[trigger] decimal(n)[i] <= '9',
        n > 0 ==> decimal(n)[0] != '0',
        decimal_value(decimal(n)) == n,
    decreases n,
{
    if n >= 10 {
        lemma_decimal_denotes(n / 10);
        lemma_digit_char_value((n % 10) as int);
        let d = decimal(n);
        assert(d.drop_last() =~= decimal(n / 10));
        assert(d.last() == digit_char((n % 10) as int));
        assert(d[0] == decimal(n / 10)[0]);
        assert(n == (n / 10) * 10 + n % 10);
        assert(decimal_value(d) == decimal_value(d.drop_last()) * 10 + (d.last() as int - '0' as int));
        assert(decimal_value(d.drop_last()) == (n / 10) as int);
    } else {
        lemma_digit_char_value(n as int);
        let d = decimal(n);
        assert(d.drop_last() =~= Seq::<char>::empty());
        assert(decimal_value(d) == decimal_value(d.drop_last()) * 10 + (d.last() as int - '0' as int));
        assert(decimal_value(d.drop_last()) == 0);
    }
}

fn digit_str(d: u64) -> (s: &'static str)
    requires
        d < 10,
    ensures
        s@ == seq![digit_char(d as int)],
{
    if d == 0 {
        proof {
            reveal_strlit("0");
        }
        "0"
    } else if d == 1 {
        proof {
            reveal_strlit("1");
        }
        "1"
    } else if d == 2 {
        proof {
            reveal_strlit("2");
        }
        "2"
    } else if d == 3 {
        proof {
            reveal_strlit("3");
        }
        "3"
    } else if d == 4 {
        proof {
            reveal_strlit("4");
        }
        "4"
    } else if d == 5 {
        proof {
            reveal_strlit("5");
        }
        "5"
    } else if d == 6 {
        proof {
            reveal_strlit("6");
        }
        "6"
    } else if d == 7 {
        proof {
            reveal_strlit("7");
        }
        "7"
    } else if d == 8 {
        proof {
            reveal_strlit("8");
        }
        "8"
    } else {
        proof {
            reveal_strlit("9");
        }
        "9"
    }
}

/// Appends the decimal notation of `n` to `s`.
pub fn append_decimal(s: &mut String, n: u64)
    ensures
        final(s)@ == old(s)@ + decimal(n as nat),
    decreases n,
{
    if n >= 10 {
        append_decimal(s, n / 10);
    }
    let d = digit_str(n % 10);
    s.append(d);
    assert(s@ =~= old(s)@ + decimal(n as nat));
}

/// Directory that screenshots are saved in.
pub fn screenshot_dir() -> (d: &'static str)
    ensures
        d@ == "screenshots"@,
{
    "screenshots"
}

/// The path of a screenshot taken `secs` seconds after the Unix epoch.
pub fn screenshot_path(secs: u64) -> (p: String)
    ensures
        p@ == screenshot_path_spec(secs as nat),
{
    let mut p = String::from_str("screenshots/shot_");
    append_decimal(&mut p, secs);
    p.append(".png");
    p
}

/// A screenshot's path is `screenshots/shot_`, then the digits of the
/// seconds it was taken at, then `.png`: cutting off the 17 leading and
/// the 4 trailing characters leaves digits that denote those seconds.
pub proof fn lemma_screenshot_path_holds_seconds(secs: nat)
    ensures
        screenshot_path_spec(secs).len() == 21 + decimal(secs).len(),
        screenshot_path_spec(secs).subrange(0, 12) == "screenshots/"@,
        decimal_value(
            screenshot_path_spec(secs).subrange(17, screenshot_path_spec(secs).len() - 4),
        ) == secs,
        screenshot_path_spec(secs).subrange(
            screenshot_path_spec(secs).len() - 4,
            screenshot_path_spec(secs).len() as int,
        ) == ".png"@,
{
    reveal_strlit("screenshots/shot_");
    reveal_strlit(".png");
    reveal_strlit("screenshots/");
    lemma_decimal_denotes(secs);
    let p = screenshot_path_spec(secs);
    let d = decimal(secs);
    assert(p.subrange(17, p.len() - 4) =~= d);
    assert(p.subrange(0, 12) =~= "screenshots/"@);
    assert(p.subrange(p.len() - 4, p.len() as int) =~= ".png"@);
}

} // verus!
