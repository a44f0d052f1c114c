//! Character-level utilities: decimal rendering of counters and indices,
//! decimal parsing of operand fields, string equality, and whitespace
//! tokenization of source lines.

use vstd::prelude::*;
use vstd::string::*;

verus! {

broadcast use vstd::seq::group_seq_axioms;

/// Characters treated as insignificant whitespace in source lines.
pub open spec fn is_space_char(c: char) -> bool {
    c == ' ' || c == '\t' || c == '\r'
}

pub open spec fn is_digit_char(c: char) -> bool {
    48 <= c as int && c as int <= 57
}

/// Numeric value of a decimal digit character.
pub open spec fn digit_val(c: char) -> int {
    c as int - 48
}

/// The decimal digit character for a value below ten.
pub open spec fn digit_char(d: int) -> char {
    if d == 0 {
        '0'
    } else if d == 1 {
        '1'
    } else if d == 2 {
        '2'
    } else if d == 3 {
        '3'
    } else if d == 4 {
        '4'
    } else if d == 5 {
        '5'
    } else if d == 6 {
        '6'
    } else if d == 7 {
        '7'
    } else if d == 8 {
        '8'
    } else {
        '9'
    }
}

/// The canonical decimal representation of a natural number, most
/// significant digit first, with no leading zeros (except for zero itself).
pub open spec fn dec_rep(n: nat) -> Seq<char>
    decreases n,
{
    if n < 10 {
        seq![digit_char(n as int)]
    } else {
        dec_rep(n / 10).push(digit_char((n % 10) as int))
    }
}

/// Value denoted by a sequence of decimal digit characters, most
/// significant digit first.
pub open spec fn dec_value(s: Seq<char>) -> int
    decreases s.len(),
{
    if s.len() == 0 {
        0
    } else {
        dec_value(s.drop_last()) * 10 + digit_val(s.last())
    }
}

pub open spec fn all_digits(s: Seq<char>) -> bool {
    forall|i: int| 0 <= i < s.len() ==> is_digit_char(#[trigger] s[i])
}

/// A decimal representation is non-empty and made of digits alone.
pub proof fn lemma_dec_rep_digits(n: nat)
    ensures
        all_digits(dec_rep(n)),
        dec_rep(n).len() >= 1,
    decreases n,
{
    if n < 10 {
        assert(is_digit_char(digit_char(n as int)));
    } else {
        lemma_dec_rep_digits(n / 10);
        assert(is_digit_char(digit_char((n % 10) as int)));
        assert(forall|i: int|
            0 <= i < dec_rep(n / 10).len() ==> #[trigger] dec_rep(n)[i] == dec_rep(n / 10)[i]);
        assert(dec_rep(n).last() == digit_char((n % 10) as int));
    }
}

/// Distinct numbers have distinct decimal representations.
pub proof fn lemma_dec_rep_injective(a: nat, b: nat)
    requires
        dec_rep(a) == dec_rep(b),
    ensures
        a == b,
    decreases a,
{
    if a < 10 && b < 10 {
        assert(dec_rep(a)[0] == digit_char(a as int));
        assert(dec_rep(b)[0] == digit_char(b as int));
        assert(a == b) by {
            if a != b {
                assert(digit_char(a as int) != digit_char(b as int));
            }
        }
    } else if a < 10 && b >= 10 {
        lemma_dec_rep_digits(b / 10);
        assert(dec_rep(b).len() >= 2);
    } else if a >= 10 && b < 10 {
        lemma_dec_rep_digits(a / 10);
        assert(dec_rep(a).len() >= 2);
    } else {
        assert(dec_rep(a).last() == digit_char((a % 10) as int));
        assert(dec_rep(b).last() == digit_char((b % 10) as int));
        assert(a % 10 == b % 10) by {
            if a % 10 != b % 10 {
                assert(digit_char((a % 10) as int) != digit_char((b % 10) as int));
            }
        }
        assert(dec_rep(a).drop_last() =~= dec_rep(a / 10));
        assert(dec_rep(b).drop_last() =~= dec_rep(b / 10));
        lemma_dec_rep_injective(a / 10, b / 10);
    }
}

/// A shared prefix cancels on the left of sequence concatenation.
pub proof fn lemma_concat_cancel_left(p: Seq<char>, x: Seq<char>, y: Seq<char>)
    requires
        p + x == p + y,
    ensures
        x == y,
{
    assert(x =~= (p + x).skip(p.len() as int));
    assert(y =~= (p + y).skip(p.len() as int));
}

/// Two decompositions into a body ending in a non-digit followed by a
/// non-empty run of digits agree piecewise.
pub proof fn lemma_digit_suffix_unique(x: Seq<char>, y: Seq<char>, d1: Seq<char>, d2: Seq<char>)
    requires
        x + d1 == y + d2,
        all_digits(d1),
        all_digits(d2),
        d1.len() >= 1,
        d2.len() >= 1,
        x.len() >= 1,
        y.len() >= 1,
        !is_digit_char(x.last()),
        !is_digit_char(y.last()),
    ensures
        x == y,
        d1 == d2,
{
    assert((x + d1).len() == (y + d2).len());
    assert((x + d1).len() == x.len() + d1.len()) by {
        vstd::seq::axiom_seq_add_len::<char>(x, d1);
    }
    assert((y + d2).len() == y.len() + d2.len()) by {
        vstd::seq::axiom_seq_add_len::<char>(y, d2);
    }
    assert(x.len() + d1.len() == y.len() + d2.len());
    if x.len() > y.len() {
        let i: int = x.len() - 1;
        assert(y.len() <= i < y.len() + d2.len());
        assert((x + d1)[i] == x.last());
        assert((y + d2)[i] == d2[i - y.len()]);
        assert(is_digit_char(d2[i - y.len()]));
    } else if x.len() < y.len() {
        let i: int = y.len() - 1;
        assert(x.len() <= i < x.len() + d1.len());
        assert((y + d2)[i] == y.last());
        assert((x + d1)[i] == d1[i - x.len()]);
        assert(is_digit_char(d1[i - x.len()]));
    } else {
        assert(x =~= (x + d1).take(x.len() as int));
        assert(y =~= (y + d2).take(x.len() as int));
        assert(d1 =~= (x + d1).skip(x.len() as int));
        assert(d2 =~= (y + d2).skip(x.len() as int));
    }
}

/// One-character string for a decimal digit value.
fn digit_str(d: u64) -> (r: &'static str)
    requires
        d < 10,
    ensures
        r@ =~= seq![digit_char(d as int)],
{
    if d == 0 {
        proof {
            reveal_strlit("0");
        }
        "0"
    } else if d == 1 {
        proof {
            reveal_strlit("1");
        }
        "1"
    } else if d == 2 {
        proof {
            reveal_strlit("2");
        }
        "2"
    } else if d == 3 {
        proof {
            reveal_strlit("3");
        }
        "3"
    } else if d == 4 {
        proof {
            reveal_strlit("4");
        }
        "4"
    } else if d == 5 {
        proof {
            reveal_strlit("5");
        }
        "5"
    } else if d == 6 {
        proof {
            reveal_strlit("6");
        }
        "6"
    } else if d == 7 {
        proof {
            reveal_strlit("7");
        }
        "7"
    } else if d == 8 {
        proof {
            reveal_strlit("8");
        }
        "8"
    } else {
        proof {
            reveal_strlit("9");
        }
        "9"
    }
}

/// Renders a 64-bit counter value in decimal.
pub fn u64_dec(n: u64) -> (r: String)
    ensures
        r@ == dec_rep(n as nat),
    decreases n,
{
    if n < 10 {
        String::from_str(digit_str(n))
    } else {
        let mut r = u64_dec(n / 10);
        r.append(digit_str(n % 10));
        proof {
            assert(r@ =~= dec_rep(n as nat));
        }
        r
    }
}

/// Renders a 16-bit operand value in decimal.
pub fn u16_dec(n: u16) -> (r: String)
    ensures
        r@ == dec_rep(n as nat),
{
    u64_dec(n as u64)
}

/// Length of the leading run of non-whitespace characters.
pub open spec fn token_run(s: Seq<char>) -> nat
    decreases s.len(),
{
    if s.len() == 0 || is_space_char(s[0]) {
        0
    } else {
        1 + token_run(s.drop_first())
    }
}

pub proof fn lemma_token_run_le(s: Seq<char>)
    ensures
        token_run(s) <= s.len(),
    decreases s.len(),
{
    if s.len() > 0 && !is_space_char(s[0]) {
        lemma_token_run_le(s.drop_first());
    }
}

/// The whitespace-separated tokens of a line, in order.
pub open spec fn tokens_of(s: Seq<char>) -> Seq<Seq<char>>
    decreases s.len(),
    via tokens_of_dec
{
    if s.len() == 0 {
        Seq::empty()
    } else if is_space_char(s[0]) {
        tokens_of(s.drop_first())
    } else {
        seq![s.take(token_run(s) as int)] + tokens_of(s.skip(token_run(s) as int))
    }
}

#[via_fn]
proof fn tokens_of_dec(s: Seq<char>) {
    lemma_token_run_le(s);
    if s.len() > 0 && !is_space_char(s[0]) {
        assert(token_run(s) >= 1);
    }
}

/// A maximal non-whitespace run starting at the front has the length that
/// `token_run` gives.
proof fn lemma_token_run_is(s: Seq<char>, k: int)
    requires
        0 <= k <= s.len(),
        forall|m: int| 0 <= m < k ==> !is_space_char(#[trigger] s[m]),
        k == s.len() || is_space_char(s[k]),
    ensures
        token_run(s) == k,
    decreases s.len(),
{
    if k == 0 {
    } else {
        assert(!is_space_char(s[0]));
        lemma_token_run_is(s.drop_first(), k - 1);
    }
}

/// Skipping a leading space does not change the token list.
proof fn lemma_tokens_skip_space(s: Seq<char>, i: int)
    requires
        0 <= i < s.len(),
        is_space_char(s[i]),
    ensures
        tokens_of(s.skip(i)) == tokens_of(s.skip(i + 1)),
{
    assert(s.skip(i)[0] == s[i]);
    assert(s.skip(i).drop_first() =~= s.skip(i + 1));
}

/// A leading token of length `j - i` contributes itself and leaves the rest.
proof fn lemma_tokens_take_token(s: Seq<char>, i: int, j: int)
    requires
        0 <= i < j <= s.len(),
        forall|m: int| i <= m < j ==> !is_space_char(#[trigger] s[m]),
        j == s.len() || is_space_char(s[j]),
    ensures
        tokens_of(s.skip(i)) == seq![s.subrange(i, j)] + tokens_of(s.skip(j)),
{
    let t = s.skip(i);
    assert(forall|m: int| 0 <= m < j - i ==> t[m] == s[i + m] && !is_space_char(#[trigger] t[m]));
    if j < s.len() {
        assert(t[j - i] == s[j]);
    }
    lemma_token_run_is(t, j - i);
    assert(!is_space_char(t[0]));
    assert(t.take(j - i) =~= s.subrange(i, j));
    assert(t.skip(j - i) =~= s.skip(j));
}

pub open spec fn views_of(ts: Seq<String>) -> Seq<Seq<char>> {
    ts.map_values(|t: String| t@)
}

/// Whether the character at a position of a line is whitespace.
fn is_space_at(s: &str, i: usize) -> (r: bool)
    requires
        i < s@.len(),
    ensures
        r == is_space_char(s@[i as int]),
{
    let c = s.get_char(i);
    c == ' ' || c == '\t' || c == '\r'
}

/// Splits a line into its whitespace-separated tokens.
pub fn tokenize(s: &str) -> (r: Vec<String>)
    ensures
        views_of(r@) == tokens_of(s@),
{
    let len = s.unicode_len();
    let mut toks: Vec<String> = Vec::new();
    let mut i: usize = 0;
    proof {
        assert(s@.skip(0) =~= s@);
        assert(views_of(toks@) + tokens_of(s@.skip(0)) =~= tokens_of(s@));
    }
    while i < len
        invariant
            i <= len,
            len == s@.len(),
            views_of(toks@) + tokens_of(s@.skip(i as int)) =~= tokens_of(s@),
        decreases len - i,
    {
        if is_space_at(s, i) {
            proof {
                lemma_tokens_skip_space(s@, i as int);
            }
            i += 1;
        } else {
            let start = i;
            let mut j = i + 1;
            while j < len && !is_space_at(s, j)
                invariant
                    start < j <= len,
                    len == s@.len(),
                    forall|m: int| start <= m < j ==> !is_space_char(#[trigger] s@[m]),
                decreases len - j,
            {
                j += 1;
            }
            let tok = s.substring_char(start, j).to_owned();
            proof {
                lemma_tokens_take_token(s@, start as int, j as int);
            }
            toks.push(tok);
            proof {
                assert(views_of(toks@) =~= views_of(toks@.drop_last()).push(tok@));
                assert(views_of(toks@) + tokens_of(s@.skip(j as int)) =~= tokens_of(s@));
            }
            i = j;
        }
    }
    proof {
        assert(tokens_of(s@.skip(len as int)) =~= Seq::<Seq<char>>::empty());
        assert(views_of(toks@) =~= tokens_of(s@));
    }
    toks
}

/// Any prefix of an all-digit string denotes no more than the whole, and the
/// whole denotes a non-negative value.
pub proof fn lemma_dec_value_bounds(s: Seq<char>, i: int)
    requires
        all_digits(s),
        0 <= i <= s.len(),
    ensures
        dec_value(s.take(i)) <= dec_value(s),
        dec_value(s) >= 0,
    decreases s.len(),
{
    if s.len() == 0 {
        assert(s.take(i) =~= s);
    } else {
        assert(all_digits(s.drop_last()));
        assert(is_digit_char(s.last()));
        if i == s.len() {
            assert(s.take(i) =~= s);
            lemma_dec_value_bounds(s.drop_last(), 0);
        } else {
            assert(s.take(i) =~= s.drop_last().take(i));
            lemma_dec_value_bounds(s.drop_last(), i);
        }
    }
}

/// Parses an all-digit operand as a 16-bit value; anything else is refused.
pub fn parse_u16(s: &str) -> (r: Option<u16>)
    ensures
        match r {
            Some(v) => s@.len() > 0 && all_digits(s@) && dec_value(s@) <= u16::MAX && v == dec_value(
                s@,
            ),
            None => s@.len() == 0 || !all_digits(s@) || dec_value(s@) > u16::MAX,
        },
{
    let len = s.unicode_len();
    if len == 0 {
        return None;
    }
    let mut v: u64 = 0;
    let mut i: usize = 0;
    proof {
        assert(s@.take(0) =~= Seq::<char>::empty());
    }
    while i < len
        invariant
            i <= len,
            len == s@.len(),
            all_digits(s@.take(i as int)),
            v <= u16::MAX,
            v == dec_value(s@.take(i as int)),
        decreases len - i,
    {
        let c = s.get_char(i);
        let cv = c as u32;
        if cv < 48 || cv > 57 {
            assert(!is_digit_char(s@[i as int]));
            return None;
        }
        let d = (cv - 48) as u64;
        proof {
            assert(s@.take(i + 1).drop_last() =~= s@.take(i as int));
            assert(s@.take(i + 1).last() == s@[i as int]);
            assert(all_digits(s@.take(i + 1)));
        }
        let nv = v * 10 + d;
        if nv > 65535 {
            proof {
                if all_digits(s@) {
                    lemma_dec_value_bounds(s@, i + 1);
                    assert(dec_value(s@) >= dec_value(s@.take(i + 1)));
                }
            }
            return None;
        }
        v = nv;
        i += 1;
    }
    proof {
        assert(s@.take(len as int) =~= s@);
    }
    Some(v as u16)
}

/// Character-wise equality of two strings.
pub fn str_eq(a: &str, b: &str) -> (r: bool)
    ensures
        r == (a@ == b@),
{
    let la = a.unicode_len();
    let lb = b.unicode_len();
    if la != lb {
        return false;
    }
    let mut i: usize = 0;
    while i < la
        invariant
            i <= la,
            la == a@.len(),
            la == b@.len(),
            forall|j: int| 0 <= j < i ==> a@[j] == b@[j],
        decreases la - i,
    {
        if a.get_char(i) != b.get_char(i) {
            return false;
        }
        i += 1;
    }
    proof {
        assert(a@ =~= b@);
    }
    true
}

} // verus!
