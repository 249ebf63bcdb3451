//! Plain text helpers shared by the other modules.

use vstd::prelude::*;

verus! {

/// A character with the Unicode White_Space property.
pub open spec fn is_white(c: char) -> bool {
    let u = c as u32;
    (9 <= u && u <= 13) || u == 32 || u == 0x85 || u == 0xa0 || u == 0x1680 || (0x2000 <= u && u
        <= 0x200a) || u == 0x2028 || u == 0x2029 || u == 0x202f || u == 0x205f || u == 0x3000
}

pub open spec fn trim_start(s: Seq<char>) -> Seq<char>
    decreases s.len(),
{
    if s.len() > 0 && is_white(s[0]) {
        trim_start(s.skip(1))
    } else {
        s
    }
}

pub open spec fn trim_end(s: Seq<char>) -> Seq<char>
    decreases s.len(),
{
    if s.len() > 0 && is_white(s.last()) {
        trim_end(s.drop_last())
    } else {
        s
    }
}

/// `s` without its leading and trailing white space.
pub open spec fn trimmed(s: Seq<char>) -> Seq<char> {
    trim_end(trim_start(s))
}

/// `pat` occurs in `s` at position `i`.
pub open spec fn occurs_at(s: Seq<char>, pat: Seq<char>, i: int) -> bool {
    0 <= i && i + pat.len() <= s.len() && s.subrange(i, i + pat.len()) == pat
}

pub open spec fn contains(s: Seq<char>, pat: Seq<char>) -> bool {
    exists|i: int| occurs_at(s, pat, i)
}

/// `s` is `before`, then the first occurrence of `pat`, then `after`.
pub open spec fn first_split(s: Seq<char>, pat: Seq<char>, before: Seq<char>, after: Seq<char>) -> bool {
    &&& s == before + pat + after
    &&& forall|i: int| 0 <= i < before.len() ==> !#[trigger] occurs_at(s, pat, i)
}

/// The characters of `s` before the first `c`, or all of `s`.
pub open spec fn up_to(s: Seq<char>, c: char) -> Seq<char>
    decreases s.len(),
{
    if s.len() == 0 {
        s
    } else if s[0] == c {
        Seq::empty()
    } else {
        seq![s[0]] + up_to(s.skip(1), c)
    }
}

pub open spec fn digit_char(d: nat) -> char {
    if d == 0 {
        '0'
    } else if d == 1 {
        '1'
    } else if d == 2 {
        '2'
    } else if d == 3 {
        '3'
    } else if d == 4 {
        '4'
    } else if d == 5 {
        '5'
    } else if d == 6 {
        '6'
    } else if d == 7 {
        '7'
    } else if d == 8 {
        '8'
    } else {
        '9'
    }
}

/// The decimal numeral of `n`, without leading zeros.
pub open spec fn decimal_of(n: nat) -> Seq<char>
    decreases n,
{
    if n < 10 {
        seq![digit_char(n)]
    } else {
        decimal_of(n / 10) + seq![digit_char(n % 10)]
    }
}

/// Relies on `str::trim`: the slice without leading and trailing characters that
/// have the Unicode White_Space property.
#[verifier::external_body]
pub fn trim_text(s: &str) -> (r: &str)
    ensures
        r@ == trimmed(s@),
{
    s.trim()
}

/// Relies on `str::split_once`: `None` when `pat` does not occur, else the text
/// before its first occurrence and the text after it.
#[verifier::external_body]
pub fn split_first<'a>(s: &'a str, pat: &str) -> (r: Option<(&'a str, &'a str)>)
    requires
        pat@.len() > 0,
    ensures
        r is None <==> !contains(s@, pat@),
        r matches Some(p) ==> first_split(s@, pat@, p.0@, p.1@),
{
    s.split_once(pat)
}

/// Whether `pat` occurs in `s`.
pub fn contains_text(s: &str, pat: &str) -> (r: bool)
    requires
        pat@.len() > 0,
    ensures
        r == contains(s@, pat@),
{
    split_first(s, pat).is_some()
}

/// Whether `s` begins with `prefix`.
pub fn has_prefix(s: &str, prefix: &str) -> (r: bool)
    ensures
        r == (prefix@.len() <= s@.len() && s@.subrange(0, prefix@.len() as int) == prefix@),
{
    let n = prefix.unicode_len();
    if n > s.unicode_len() {
        return false;
    }
    let mut i: usize = 0;
    while i < n
        invariant
            n == prefix@.len(),
            n <= s@.len(),
            i <= n,
            forall|k: int| 0 <= k < i ==> s@[k] == prefix@[k],
        decreases n - i,
    {
        if s.get_char(i) != prefix.get_char(i) {
            assert(s@.subrange(0, n as int)[i as int] != prefix@[i as int]);
            return false;
        }
        i = i + 1;
    }
    assert(s@.subrange(0, n as int) =~= prefix@);
    true
}

pub proof fn lemma_up_to_prefix(s: Seq<char>, c: char, i: int)
    requires
        0 <= i <= s.len(),
        forall|k: int| 0 <= k < i ==> s[k] != c,
        i == s.len() || s[i] == c,
    ensures
        up_to(s, c) == s.take(i),
    decreases i,
{
    if i == 0 {
        assert(s.take(0) =~= Seq::<char>::empty());
    } else {
        let t = s.skip(1);
        assert forall|k: int| 0 <= k < i - 1 implies t[k] != c by {
            assert(t[k] == s[k + 1]);
        }
        lemma_up_to_prefix(t, c, i - 1);
        assert(s.take(i) =~= seq![s[0]] + t.take(i - 1));
    }
}

/// Splitting at the first occurrence of a single character `c` leaves the text
/// up to `c` on the left; a text without `c` is all left.
pub proof fn lemma_split_on_char(s: Seq<char>, c: char, before: Seq<char>, after: Seq<char>)
    ensures
        first_split(s, seq![c], before, after) ==> before == up_to(s, c) && after == s.skip(before.len() as int + 1)
            && before.len() < s.len(),
        !contains(s, seq![c]) ==> up_to(s, c) == s,
{
    if first_split(s, seq![c], before, after) {
        assert forall|k: int| 0 <= k < before.len() implies s[k] != c by {
            if s[k] == c {
                assert(s.subrange(k, k + 1) =~= seq![c]);
                assert(occurs_at(s, seq![c], k));
            }
        }
        assert(s[before.len() as int] == c);
        lemma_up_to_prefix(s, c, before.len() as int);
        assert(s.take(before.len() as int) =~= before);
        assert(s.skip(before.len() as int + 1) =~= after);
    }
    if !contains(s, seq![c]) {
        assert forall|k: int| 0 <= k < s.len() implies s[k] != c by {
            if s[k] == c {
                assert(s.subrange(k, k + 1) =~= seq![c]);
                assert(occurs_at(s, seq![c], k));
            }
        }
        lemma_up_to_prefix(s, c, s.len() as int);
        assert(s.take(s.len() as int) =~= s);
    }
}

/// The text of `s` before the first occurrence of `pat`, or all of it.
pub open spec fn before_first(s: Seq<char>, pat: Seq<char>) -> Seq<char>
    decreases s.len(),
{
    if s.len() < pat.len() || pat.len() == 0 {
        s
    } else if s.subrange(0, pat.len() as int) == pat {
        Seq::empty()
    } else {
        seq![s[0]] + before_first(s.skip(1), pat)
    }
}

proof fn lemma_before_first_prefix(s: Seq<char>, pat: Seq<char>, i: int)
    requires
        pat.len() > 0,
        0 <= i <= s.len(),
        forall|k: int| 0 <= k < i ==> !#[trigger] occurs_at(s, pat, k),
        i == s.len() || occurs_at(s, pat, i) || i + pat.len() > s.len(),
        i + pat.len() > s.len() ==> forall|k: int| i <= k ==> !#[trigger] occurs_at(s, pat, k),
    ensures
        before_first(s, pat) == if i + pat.len() > s.len() {
            s
        } else {
            s.take(i)
        },
    decreases i,
{
    if i + pat.len() > s.len() && s.len() < pat.len() {
    } else if i == 0 {
        assert(occurs_at(s, pat, 0));
        assert(s.take(0) =~= Seq::<char>::empty());
    } else {
        let t = s.skip(1);
        assert(!occurs_at(s, pat, 0));
        assert forall|k: int| 0 <= k < i - 1 implies !#[trigger] occurs_at(t, pat, k) by {
            if occurs_at(t, pat, k) {
                assert(s.subrange(k + 1, k + 1 + pat.len()) =~= t.subrange(k, k + pat.len()));
                assert(occurs_at(s, pat, k + 1));
            }
        }
        if i + pat.len() > s.len() {
            assert forall|k: int| i - 1 <= k implies !#[trigger] occurs_at(t, pat, k) by {
                if occurs_at(t, pat, k) {
                    assert(s.subrange(k + 1, k + 1 + pat.len()) =~= t.subrange(k, k + pat.len()));
                    assert(occurs_at(s, pat, k + 1));
                }
            }
        } else if i < s.len() {
            assert(s.subrange(i, i + pat.len()) =~= t.subrange(i - 1, i - 1 + pat.len()));
        }
        lemma_before_first_prefix(t, pat, i - 1);
        assert(s.take(i) =~= seq![s[0]] + t.take(i - 1));
        assert(s =~= seq![s[0]] + t);
    }
}

/// Splitting at the first occurrence of `pat` leaves `before_first` on the left;
/// a text without `pat` is all left.
pub proof fn lemma_split_before_first(s: Seq<char>, pat: Seq<char>, before: Seq<char>, after: Seq<char>)
    requires
        pat.len() > 0,
    ensures
        first_split(s, pat, before, after) ==> before == before_first(s, pat) && after == s.skip(
            before.len() + pat.len() as int,
        ),
        !contains(s, pat) ==> before_first(s, pat) == s,
{
    if first_split(s, pat, before, after) {
        let i = before.len() as int;
        assert(s.subrange(i, i + pat.len()) =~= pat);
        assert(occurs_at(s, pat, i));
        lemma_before_first_prefix(s, pat, i);
        assert(s.take(i) =~= before);
        assert(s.skip(i + pat.len()) =~= after);
    }
    if !contains(s, pat) {
        if s.len() >= pat.len() {
            let i = (s.len() - pat.len() + 1) as int;
            lemma_before_first_prefix(s, pat, i);
        } else {
            lemma_before_first_prefix(s, pat, 0);
        }
    }
}

/// The text of `s` before the first `c`, or all of it.
pub fn prefix_before(s: &str, c: char) -> (r: &str)
    ensures
        r@ == up_to(s@, c),
{
    let n = s.unicode_len();
    let mut i: usize = 0;
    while i < n
        invariant
            n == s@.len(),
            i <= n,
            forall|k: int| 0 <= k < i ==> s@[k] != c,
        decreases n - i,
    {
        if s.get_char(i) == c {
            proof {
                lemma_up_to_prefix(s@, c, i as int);
            }
            return s.substring_char(0, i);
        }
        i = i + 1;
    }
    proof {
        lemma_up_to_prefix(s@, c, n as int);
    }
    s.substring_char(0, n)
}

fn digit_text(d: u64) -> (r: &'static str)
    requires
        d < 10,
    ensures
        r@ == seq![digit_char(d as nat)],
{
    proof {
        reveal_strlit("0");
        reveal_strlit("1");
        reveal_strlit("2");
        reveal_strlit("3");
        reveal_strlit("4");
        reveal_strlit("5");
        reveal_strlit("6");
        reveal_strlit("7");
        reveal_strlit("8");
        reveal_strlit("9");
    }
    if d == 0 {
        "0"
    } else if d == 1 {
        "1"
    } else if d == 2 {
        "2"
    } else if d == 3 {
        "3"
    } else if d == 4 {
        "4"
    } else if d == 5 {
        "5"
    } else if d == 6 {
        "6"
    } else if d == 7 {
        "7"
    } else if d == 8 {
        "8"
    } else {
        "9"
    }
}

/// The decimal numeral of `n`.
pub fn decimal(n: u64) -> (r: String)
    ensures
        r@ == decimal_of(n as nat),
    decreases n,
{
    if n < 10 {
        String::from_str(digit_text(n))
    } else {
        let mut s = decimal(n / 10);
        s.append(digit_text(n % 10));
        s
    }
}

} // verus!
