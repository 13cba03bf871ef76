//! Small verified text builders: decimal rendering of indices and
//! joining words with single spaces.
use vstd::prelude::*;
use vstd::string::*;

verus! {

/// The character of a decimal digit.
pub open spec fn digit_char(d: nat) -> char {
    if d == 0 { '0' }
    else if d == 1 { '1' }
    else if d == 2 { '2' }
    else if d == 3 { '3' }
    else if d == 4 { '4' }
    else if d == 5 { '5' }
    else if d == 6 { '6' }
    else if d == 7 { '7' }
    else if d == 8 { '8' }
    else { '9' }
}

/// The decimal representation of `n`, most significant digit first, without leading zeros.
pub open spec fn decimal(n: nat) -> Seq<char>
    decreases n,
{
    if n < 10 {
        seq![digit_char(n)]
    } else {
        decimal(n / 10).push(digit_char(n % 10))
    }
}

/// The words joined by single spaces (`[]` gives the empty text).
pub open spec fn joined(words: Seq<Seq<char>>) -> Seq<char>
    decreases words.len(),
{
    if words.len() == 0 {
        Seq::empty()
    } else if words.len() == 1 {
        words[0]
    } else {
        joined(words.drop_last()) + seq![' '] + words.last()
    }
}

/// The texts of a list of strings.
pub open spec fn texts(v: Seq<String>) -> Seq<Seq<char>> {
    v.map_values(|s: String| s@)
}

fn digit_str(d: usize) -> (s: &'static str)
    requires
        d < 10,
    ensures
        s@ == seq![digit_char(d as nat)],
{
    proof {
        reveal_strlit("0");
        reveal_strlit("1");
        reveal_strlit("2");
        reveal_strlit("3");
        reveal_strlit("4");
        reveal_strlit("5");
        reveal_strlit("6");
        reveal_strlit("7");
        reveal_strlit("8");
        reveal_strlit("9");
    }
    if d == 0 { "0" }
    else if d == 1 { "1" }
    else if d == 2 { "2" }
    else if d == 3 { "3" }
    else if d == 4 { "4" }
    else if d == 5 { "5" }
    else if d == 6 { "6" }
    else if d == 7 { "7" }
    else if d == 8 { "8" }
    else { "9" }
}

/// Appends the decimal representation of `n` to `out`.
pub fn push_decimal(out: &mut String, n: usize)
    ensures
        final(out)@ == old(out)@ + decimal(n as nat),
    decreases n,
{
    if n >= 10 {
        push_decimal(out, n / 10);
    }
    out.append(digit_str(n % 10));
    proof {
        assert(decimal(n as nat) == if n < 10 { seq![digit_char(n as nat)] } else {
            decimal((n / 10) as nat).push(digit_char((n % 10) as nat))
        });
    }
}

/// Joins `words` with single spaces, as `words.join(" ")` does.
pub fn join_words(words: &Vec<String>) -> (res: String)
    ensures
        res@ == joined(texts(words@)),
{
    let mut res = String::new();
    let n = words.len();
    let ghost ws = texts(words@);
    let mut i: usize = 0;
    while i < n
        invariant
            n == words@.len(),
            ws == texts(words@),
            0 <= i <= n,
            res@ == joined(ws.take(i as int)),
        decreases n - i,
    {
        proof { reveal_strlit(" "); }
        if i > 0 {
            res.append(" ");
        }
        res.append(words[i].as_str());
        proof {
            let next = ws.take(i + 1);
            assert(next.drop_last() == ws.take(i as int));
            assert(next.last() == words@[i as int]@);
            if i == 0 {
                assert(joined(next) == next[0]);
            } else {
                assert(joined(next) == joined(next.drop_last()) + seq![' '] + next.last());
            }
        }
        i = i + 1;
    }
    proof {
        assert(ws.take(n as int) == ws);
    }
    res
}

} // verus!
