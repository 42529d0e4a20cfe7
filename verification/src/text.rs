//! Text as sequences of characters: containment, ordering and case folding.

use vstd::prelude::*;
use vstd::string::*;
use vstd::std_specs::iter::IteratorSpec;

verus! {

/// `needle` stands in `hay` at offset `at`.
pub open spec fn occurs_at(hay: Seq<char>, needle: Seq<char>, at: int) -> bool {
    &&& 0 <= at
    &&& at + needle.len() <= hay.len()
    &&& hay.subrange(at, at + needle.len()) == needle
}

/// `needle` is a contiguous part of `hay`. The empty text is part of every text.
pub open spec fn contains(hay: Seq<char>, needle: Seq<char>) -> bool {
    exists|at: int| occurs_at(hay, needle, at)
}

/// `at` is the first place at which `needle` stands in `hay`.
pub open spec fn first_at(hay: Seq<char>, needle: Seq<char>, at: int) -> bool {
    &&& occurs_at(hay, needle, at)
    &&& forall|k: int| 0 <= k < at ==> !occurs_at(hay, needle, k)
}

/// `a` and `b` agree on their first `k` characters.
pub open spec fn agree_until(a: Seq<char>, b: Seq<char>, k: int) -> bool {
    &&& 0 <= k <= a.len()
    &&& k <= b.len()
    &&& a.take(k) == b.take(k)
}

/// `a` comes strictly before `b` in the order of a dictionary whose alphabet
/// is the code points: at the first place where they differ `a` has the
/// smaller character, or `a` ends there and `b` goes on.
pub open spec fn precedes(a: Seq<char>, b: Seq<char>) -> bool {
    exists|k: int|
        #[trigger] agree_until(a, b, k) && k < b.len() && (k == a.len() || (a[k] as int) < (
        b[k] as int))
}

/// The lower-case form of `s` by the rules of Unicode, as `str::to_lowercase`
/// gives it.
pub uninterp spec fn lowercase(s: Seq<char>) -> Seq<char>;

/// The views of the texts in `v`.
pub open spec fn texts(v: Seq<String>) -> Seq<Seq<char>> {
    v.map_values(|s: String| s@)
}

/// Calls `str::to_lowercase`. The result depends on the characters of `s`
/// alone; it is spoken of as `lowercase(s@)` and nothing more is claimed of it.
#[verifier::external_body]
pub(crate) fn to_lowercase(s: &str) -> (out: String)
    ensures
        out@ == lowercase(s@),
{
    s.to_lowercase()
}

/// The texts of `words` in a row, with `sep` between each two of them.
pub open spec fn joined_with(words: Seq<Seq<char>>, sep: Seq<char>) -> Seq<char>
    decreases words.len(),
{
    if words.len() == 0 {
        Seq::empty()
    } else if words.len() == 1 {
        words[0]
    } else {
        joined_with(words.drop_last(), sep) + sep + words.last()
    }
}

/// Puts `words` in a row, with `sep` between each two of them.
pub fn join_with(words: &Vec<String>, sep: &str) -> (line: String)
    ensures
        line@ == joined_with(texts(words@), sep@),
{
    let mut line = String::new();
    let mut i: usize = 0;
    while i < words.len()
        invariant
            i <= words.len(),
            line@ == joined_with(texts(words@).take(i as int), sep@),
        decreases words.len() - i,
    {
        proof {
            let upto = texts(words@).take(i + 1);
            assert(upto.drop_last() =~= texts(words@).take(i as int));
            assert(upto.last() == words@[i as int]@);
            if i == 0 {
                assert(line@ + words@[0]@ =~= words@[0]@);
            }
        }
        if i > 0 {
            line.append(sep);
        }
        line.append(words[i].as_str());
        i += 1;
    }
    assert(texts(words@).take(words@.len() as int) =~= texts(words@));
    line
}

/// The digits, in their order.
pub open spec fn digits() -> Seq<char> {
    seq!['0', '1', '2', '3', '4', '5', '6', '7', '8', '9']
}

/// The number `n` written in decimal, without leading zeros.
pub open spec fn decimal(n: nat) -> Seq<char>
    decreases n,
{
    if n < 10 {
        seq![digits()[n as int]]
    } else {
        decimal(n / 10).push(digits()[(n % 10) as int])
    }
}

/// The digit `d` as a text.
fn digit_text(d: u64) -> (text: &'static str)
    requires
        d < 10,
    ensures
        text@ == seq![digits()[d as int]],
{
    proof {
        reveal_strlit("0");
        reveal_strlit("1");
        reveal_strlit("2");
        reveal_strlit("3");
        reveal_strlit("4");
        reveal_strlit("5");
        reveal_strlit("6");
        reveal_strlit("7");
        reveal_strlit("8");
        reveal_strlit("9");
    }
    let text = match d {
        0 => "0",
        1 => "1",
        2 => "2",
        3 => "3",
        4 => "4",
        5 => "5",
        6 => "6",
        7 => "7",
        8 => "8",
        _ => "9",
    };
    assert(text@ =~= seq![digits()[d as int]]);
    text
}

/// Writes `n` in decimal.
pub fn to_decimal(n: u64) -> (text: String)
    ensures
        text@ == decimal(n as nat),
    decreases n,
{
    if n < 10 {
        String::from_str(digit_text(n))
    } else {
        let mut text = to_decimal(n / 10);
        text.append(digit_text(n % 10));
        assert(text@ =~= decimal((n / 10) as nat).push(digits()[(n % 10) as int]));
        text
    }
}

/// The characters of `s`, in order.
pub fn chars_of(s: &str) -> (v: Vec<char>)
    ensures
        v@ == s@,
{
    let mut v: Vec<char> = Vec::new();
    for c in it: s.chars()
        invariant
            v@ == it.seq().take(it.index()),
            it.seq() == s@,
    {
        v.push(c);
    }
    v
}


/// Whether `needle` stands in `hay` at offset `at`.
fn stands_at(hay: &Vec<char>, needle: &Vec<char>, at: usize) -> (found: bool)
    requires
        at + needle.len() <= hay.len(),
    ensures
        found == occurs_at(hay@, needle@, at as int),
{
    let mut i: usize = 0;
    while i < needle.len()
        invariant
            i <= needle.len(),
            at + needle.len() <= hay.len(),
            forall|j: int| 0 <= j < i ==> hay@[at + j] == needle@[j],
        decreases needle.len() - i,
    {
        if hay[at + i] != needle[i] {
            assert(hay@.subrange(at as int, at + needle.len())[i as int] == hay@[at + i]);
            return false;
        }
        i += 1;
    }
    assert(hay@.subrange(at as int, at + needle.len()) =~= needle@);
    true
}

/// The first place at which `needle` stands in `hay`, if it stands in it.
pub fn find(hay: &Vec<char>, needle: &Vec<char>) -> (place: Option<usize>)
    ensures
        place is Some <==> contains(hay@, needle@),
        place matches Some(at) ==> first_at(hay@, needle@, at as int),
{
    if needle.len() > hay.len() {
        return None;
    }
    let last: usize = hay.len() - needle.len();
    let mut at: usize = 0;
    loop
        invariant
            at <= last,
            last == hay.len() - needle.len(),
            forall|k: int| 0 <= k < at ==> !occurs_at(hay@, needle@, k),
        decreases last - at,
    {
        if stands_at(hay, needle, at) {
            return Some(at);
        }
        if at == last {
            return None;
        }
        at += 1;
    }
}

/// Whether `needle` is a contiguous part of `hay`.
pub fn occurs_in(hay: &Vec<char>, needle: &Vec<char>) -> (found: bool)
    ensures
        found == contains(hay@, needle@),
{
    find(hay, needle).is_some()
}

/// Whether `a` comes strictly before `b` in dictionary order, read off the two
/// texts in step.
pub fn comes_before(a: &str, b: &str) -> (yes: bool)
    ensures
        yes == precedes(a@, b@),
{
    let mut rest_a = a.chars();
    let mut rest_b = b.chars();
    let ghost mut i: int = 0;
    assert(a@.take(0) =~= b@.take(0));
    assert(a@.skip(0) =~= a@);
    assert(b@.skip(0) =~= b@);
    loop
        invariant
            agree_until(a@, b@, i),
            rest_a.remaining() == a@.skip(i),
            rest_b.remaining() == b@.skip(i),
        decreases a@.len() - i,
    {
        let next_a = rest_a.next();
        let next_b = rest_b.next();
        match (next_a, next_b) {
            (Some(x), Some(y)) => {
                if x != y {
                    proof {
                        lemma_first_difference(a@, b@, i);
                    }
                    return x < y;
                }
                proof {
                    assert(a@.take(i + 1) =~= a@.take(i).push(a@[i]));
                    assert(b@.take(i + 1) =~= b@.take(i).push(b@[i]));
                    assert(a@.skip(i).drop_first() =~= a@.skip(i + 1));
                    assert(b@.skip(i).drop_first() =~= b@.skip(i + 1));
                    i = i + 1;
                }
            },
            (None, Some(_)) => {
                proof {
                    lemma_first_difference(a@, b@, i);
                }
                return true;
            },
            (_, None) => {
                proof {
                    lemma_first_difference(a@, b@, i);
                }
                return false;
            },
        }
    }
}

/// Two texts that agree on their first `k` characters and part ways there (or
/// one of which ends there) are ordered by what stands at `k`.
proof fn lemma_first_difference(a: Seq<char>, b: Seq<char>, k: int)
    requires
        agree_until(a, b, k),
        k == a.len() || k == b.len() || a[k] != b[k],
    ensures
        precedes(a, b) <==> k < b.len() && (k == a.len() || (a[k] as int) < (b[k] as int)),
{
    if precedes(a, b) {
        let m = choose|m: int|
            #[trigger] agree_until(a, b, m) && m < b.len() && (m == a.len() || (a[m] as int) < (
            b[m] as int));
        if m < k {
            assert(a.take(k)[m] == b.take(k)[m]);
        } else if k < m {
            assert(a.take(m)[k] == b.take(m)[k]);
        }
    }
}


/// A place from `n` on where `a` and `b`, which agree until `n`, part ways or
/// one of them ends.
proof fn parting(a: Seq<char>, b: Seq<char>, n: int) -> (k: int)
    requires
        agree_until(a, b, n),
    ensures
        agree_until(a, b, k),
        k == a.len() || k == b.len() || a[k] != b[k],
    decreases a.len() - n,
{
    if n == a.len() || n == b.len() || a[n] != b[n] {
        n
    } else {
        assert(a.take(n + 1) =~= a.take(n).push(a[n]));
        assert(b.take(n + 1) =~= b.take(n).push(b[n]));
        parting(a, b, n + 1)
    }
}

/// Where two texts part ways, and what the order between them is there.
proof fn lemma_parting(a: Seq<char>, b: Seq<char>) -> (k: int)
    ensures
        agree_until(a, b, k),
        agree_until(b, a, k),
        k == a.len() || k == b.len() || a[k] != b[k],
        precedes(a, b) <==> k < b.len() && (k == a.len() || (a[k] as int) < (b[k] as int)),
        precedes(b, a) <==> k < a.len() && (k == b.len() || (b[k] as int) < (a[k] as int)),
{
    assert(a.take(0) =~= b.take(0));
    let k = parting(a, b, 0);
    lemma_first_difference(a, b, k);
    lemma_first_difference(b, a, k);
    k
}

/// Of two texts at most one comes before the other.
pub proof fn lemma_precedes_asymmetric(a: Seq<char>, b: Seq<char>)
    ensures
        !(precedes(a, b) && precedes(b, a)),
{
    let k = lemma_parting(a, b);
}

/// Of two different texts one comes before the other.
pub proof fn lemma_precedes_total(a: Seq<char>, b: Seq<char>)
    ensures
        precedes(a, b) || precedes(b, a) || a == b,
{
    let k = lemma_parting(a, b);
    if !precedes(a, b) && !precedes(b, a) {
        if k < a.len() && k < b.len() {
            assert((a[k] as int) == (b[k] as int));
        }
        assert(a.take(k) =~= a);
        assert(b.take(k) =~= b);
    }
}

/// A text that comes before a second, which comes before a third, comes
/// before the third.
pub proof fn lemma_precedes_transitive(a: Seq<char>, b: Seq<char>, c: Seq<char>)
    requires
        precedes(a, b),
        precedes(b, c),
    ensures
        precedes(a, c),
{
    let k1 = lemma_parting(a, b);
    let k2 = lemma_parting(b, c);
    let m = if k1 <= k2 {
        k1
    } else {
        k2
    };
    assert(a.take(m) =~= a.take(k1).take(m));
    assert(b.take(m) =~= b.take(k1).take(m));
    assert(b.take(m) =~= b.take(k2).take(m));
    assert(c.take(m) =~= c.take(k2).take(m));
    assert(agree_until(a, c, m));
    if k1 < k2 {
        assert(b.take(k2)[k1] == c.take(k2)[k1]);
    } else if k2 < k1 {
        assert(a.take(k1)[k2] == b.take(k1)[k2]);
    }
}

/// A text that does not come before a second, which does not come before a
/// third, does not come before the third.
pub proof fn lemma_precedes_ranks(a: Seq<char>, b: Seq<char>, c: Seq<char>)
    requires
        !precedes(a, b),
        !precedes(b, c),
    ensures
        !precedes(a, c),
{
    lemma_precedes_total(a, b);
    lemma_precedes_total(b, c);
    if precedes(a, c) {
        if a != b && b != c {
            lemma_precedes_transitive(c, b, a);
            lemma_precedes_asymmetric(a, c);
        }
    }
}

} // verus!
