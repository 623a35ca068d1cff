//! Text: the few operations on strings that the rest of the library is built on.

use vstd::prelude::*;
use vstd::utf8::{decode_utf8, valid_utf8};

verus! {

/// What `str::to_lowercase` makes of a text.
pub uninterp spec fn lowercase(s: Seq<char>) -> Seq<char>;

/// Calls `str::to_lowercase`. All that is claimed is that the result depends on the
/// text alone; the Unicode case mapping itself is left unsaid.
#[verifier::external_body]
pub(crate) fn to_lowercase(s: &str) -> (r: String)
    ensures
        r@ == lowercase(s@),
{
    s.to_lowercase()
}

/// What `String::from_utf8_lossy` makes of some bytes.
pub uninterp spec fn utf8_lossy(bytes: Seq<u8>) -> Seq<char>;

/// Calls `String::from_utf8_lossy`. The result depends on the bytes alone, and
/// bytes that are valid UTF-8 become the text they encode. Where the replacement
/// characters go in other bytes is left unsaid.
#[verifier::external_body]
pub(crate) fn from_utf8_lossy(bytes: &[u8]) -> (r: String)
    ensures
        r@ == utf8_lossy(bytes@),
        valid_utf8(bytes@) ==> r@ == decode_utf8(bytes@),
{
    String::from_utf8_lossy(bytes).into_owned()
}

/// The characters of a text, in order.
pub fn chars_of(s: &str) -> (r: Vec<char>)
    ensures
        r@ == s@,
{
    let mut out: Vec<char> = Vec::new();
    for c in it: s.chars()
        invariant
            it.seq() == s@,
            out@ == s@.take(it.index() as int),
    {
        out.push(c);
        assert(s@.take(it.index() + 1) == s@.take(it.index() as int).push(c));
    }
    assert(s@.take(s@.len() as int) == s@);
    out
}

/// Whether two texts are the same.
pub fn same_text(a: &str, b: &str) -> (r: bool)
    ensures
        r == (a@ == b@),
{
    a.to_owned() == b.to_owned()
}

/// Whether `p` stands in `s` at position `i`.
pub open spec fn occurs_at(s: Seq<char>, p: Seq<char>, i: int) -> bool {
    0 <= i && i + p.len() <= s.len() && s.subrange(i, i + p.len()) == p
}

/// Whether `s` begins with `p`.
pub open spec fn has_prefix(s: Seq<char>, p: Seq<char>) -> bool {
    occurs_at(s, p, 0)
}

/// Whether `p` stands anywhere in `s`.
pub open spec fn has_part(s: Seq<char>, p: Seq<char>) -> bool {
    exists|i: int| occurs_at(s, p, i)
}

fn occurs_here(s: &Vec<char>, p: &Vec<char>, at: usize) -> (r: bool)
    requires
        at <= s.len(),
    ensures
        r == occurs_at(s@, p@, at as int),
{
    if p.len() > s.len() - at {
        return false;
    }
    let mut k: usize = 0;
    while k < p.len()
        invariant
            k <= p.len(),
            at + p.len() <= s.len(),
            forall|j: int| 0 <= j < k ==> s@[at + j] == p@[j],
        decreases p.len() - k,
    {
        if s[at + k] != p[k] {
            assert(s@.subrange(at as int, at + p@.len())[k as int] != p@[k as int]);
            return false;
        }
        k += 1;
    }
    assert(s@.subrange(at as int, at + p@.len()) =~= p@);
    true
}

/// Whether `s` begins with `p`.
pub fn starts_with(s: &str, p: &str) -> (r: bool)
    ensures
        r == has_prefix(s@, p@),
{
    occurs_here(&chars_of(s), &chars_of(p), 0)
}

/// Whether `p` stands anywhere in `s`.
pub fn contains(s: &str, p: &str) -> (r: bool)
    ensures
        r == has_part(s@, p@),
{
    let text = chars_of(s);
    let part = chars_of(p);
    let mut i: usize = 0;
    while i < text.len()
        invariant
            i <= text.len(),
            text@ == s@,
            part@ == p@,
            forall|j: int| 0 <= j < i ==> !occurs_at(s@, p@, j),
        decreases text.len() - i,
    {
        if occurs_here(&text, &part, i) {
            return true;
        }
        i += 1;
    }
    occurs_here(&text, &part, i)
}

/// The decimal digit `d`.
pub open spec fn digit(d: nat) -> char {
    ('0' as nat + d) as char
}

/// `n` written in decimal, without leading zeros.
pub open spec fn decimal(n: nat) -> Seq<char>
    decreases n,
{
    if n < 10 {
        seq![digit(n)]
    } else {
        decimal(n / 10).push(digit(n % 10))
    }
}

fn digit_text(d: u64) -> (r: &'static str)
    requires
        d < 10,
    ensures
        r@ == seq![digit(d as nat)],
{
    proof {
        reveal_strlit("0");
        reveal_strlit("1");
        reveal_strlit("2");
        reveal_strlit("3");
        reveal_strlit("4");
        reveal_strlit("5");
        reveal_strlit("6");
        reveal_strlit("7");
        reveal_strlit("8");
        reveal_strlit("9");
    }
    let r = match d {
        0 => "0",
        1 => "1",
        2 => "2",
        3 => "3",
        4 => "4",
        5 => "5",
        6 => "6",
        7 => "7",
        8 => "8",
        _ => "9",
    };
    assert(r@ =~= seq![digit(d as nat)]);
    r
}

/// Writes `n` in decimal.
pub fn decimal_text(n: u64) -> (r: String)
    ensures
        r@ == decimal(n as nat),
    decreases n,
{
    if n < 10 {
        digit_text(n).to_owned()
    } else {
        let head = decimal_text(n / 10);
        let r = head.concat(digit_text(n % 10));
        assert(r@ =~= decimal(n as nat / 10).push(digit(n as nat % 10)));
        r
    }
}

/// The parts one after the other, with `separator` between neighbours.
pub open spec fn joined(parts: Seq<Seq<char>>, separator: Seq<char>) -> Seq<char>
    decreases parts.len(),
{
    if parts.len() == 0 {
        Seq::empty()
    } else if parts.len() == 1 {
        parts[0]
    } else {
        joined(parts.drop_last(), separator) + separator + parts.last()
    }
}

/// The texts of a list of strings.
pub open spec fn texts(v: Seq<String>) -> Seq<Seq<char>> {
    v.map_values(|s: String| s@)
}

/// Joins the parts, with `separator` between neighbours.
pub fn join(parts: &Vec<String>, separator: &str) -> (r: String)
    ensures
        r@ == joined(texts(parts@), separator@),
{
    let mut out = String::new();
    let mut i: usize = 0;
    while i < parts.len()
        invariant
            i <= parts.len(),
            out@ == joined(texts(parts@).take(i as int), separator@),
        decreases parts.len() - i,
    {
        let ghost before = texts(parts@).take(i as int);
        let ghost after = texts(parts@).take(i + 1);
        assert(after.drop_last() =~= before);
        if i > 0 {
            out.append(separator);
        }
        out.append(parts[i].as_str());
        assert(after.last() == parts@[i as int]@);
        assert(out@ =~= joined(after, separator@));
        i += 1;
    }
    assert(texts(parts@).take(parts@.len() as int) =~= texts(parts@));
    out
}

/// Two texts one after the other.
pub fn concat2(a: &str, b: &str) -> (r: String)
    ensures
        r@ == a@ + b@,
{
    a.to_owned().concat(b)
}

/// Three texts one after the other.
pub fn concat3(a: &str, b: &str, c: &str) -> (r: String)
    ensures
        r@ == a@ + b@ + c@,
{
    a.to_owned().concat(b).concat(c)
}

/// A text begins with another exactly where something can be put behind that one to make
/// it.
pub proof fn a_prefix_is_completed(s: Seq<char>, p: Seq<char>)
    ensures
        has_prefix(s, p) <==> exists|rest: Seq<char>| s == #[trigger] (p + rest),
{
    if has_prefix(s, p) {
        assert(s =~= p + s.skip(p.len() as int));
    }
    assert forall|rest: Seq<char>| s == #[trigger] (p + rest) implies has_prefix(s, p) by {
        assert(s.subrange(0, p.len() as int) =~= p);
    }
}

/// A text stands in another exactly where something can be put before and behind it to
/// make that one.
pub proof fn a_part_is_completed(s: Seq<char>, p: Seq<char>)
    ensures
        has_part(s, p) <==> exists|before: Seq<char>, behind: Seq<char>|
            s == #[trigger] (before + p + behind),
{
    if has_part(s, p) {
        let i = choose|i: int| occurs_at(s, p, i);
        assert(s =~= s.take(i) + p + s.skip(i + p.len())) by {
            assert forall|k: int| i <= k < i + p.len() implies s[k] == p[k - i] by {
                assert(s.subrange(i, i + p.len())[k - i] == s[k]);
            }
        }
    }
    assert forall|before: Seq<char>, behind: Seq<char>| s == #[trigger] (before + p
        + behind) implies has_part(s, p) by {
        let i = before.len() as int;
        assert(s.subrange(i, i + p.len()) =~= p);
        assert(occurs_at(s, p, i));
    }
}

/// Numbers are written digit by digit: one digit for itself, and a longer number as that
/// without its last digit, followed by this one.
pub proof fn numbers_are_written_digit_by_digit(n: nat, d: nat)
    requires
        d < 10,
    ensures
        decimal(0) == seq!['0'],
        decimal(1) == seq!['1'],
        decimal(2) == seq!['2'],
        decimal(3) == seq!['3'],
        decimal(4) == seq!['4'],
        decimal(5) == seq!['5'],
        decimal(6) == seq!['6'],
        decimal(7) == seq!['7'],
        decimal(8) == seq!['8'],
        decimal(9) == seq!['9'],
        n > 0 ==> decimal(10 * n + d) == decimal(n) + decimal(d),
{
    if n > 0 {
        assert((10 * n + d) / 10 == n && (10 * n + d) % 10 == d);
        assert(decimal(n).push(digit(d)) =~= decimal(n) + decimal(d));
    }
}

/// No two numbers are written alike.
pub proof fn numbers_are_told_apart(a: nat, b: nat)
    requires
        decimal(a) == decimal(b),
    ensures
        a == b,
    decreases a,
{
    decimal_is_not_empty(a / 10);
    decimal_is_not_empty(b / 10);
    if a >= 10 && b >= 10 {
        let x = decimal(a / 10);
        let y = decimal(b / 10);
        assert(x =~= decimal(a).drop_last());
        assert(y =~= decimal(b).drop_last());
        numbers_are_told_apart(a / 10, b / 10);
        assert(decimal(a).last() == digit(a % 10));
        assert(decimal(b).last() == digit(b % 10));
        assert(digit(a % 10) as nat == '0' as nat + a % 10);
        assert(digit(b % 10) as nat == '0' as nat + b % 10);
        assert(a % 10 == b % 10);
    } else if a < 10 && b < 10 {
        assert(decimal(a) == seq![digit(a)]);
        assert(decimal(b) == seq![digit(b)]);
        assert(seq![digit(a)][0] == seq![digit(b)][0]);
        assert(digit(a) as nat == '0' as nat + a);
        assert(digit(b) as nat == '0' as nat + b);
    } else if a < 10 {
        assert(decimal(a).len() == 1);
        assert(decimal(b).len() > 1);
    } else {
        assert(decimal(b).len() == 1);
        assert(decimal(a).len() > 1);
    }
}

proof fn decimal_is_not_empty(n: nat)
    ensures
        decimal(n).len() > 0,
{
}

/// Joining puts the separator between neighbours: nothing makes nothing, a single part
/// stands for itself, and one part more adds the separator and that part.
pub proof fn one_part_more_is_joined(
    parts: Seq<Seq<char>>,
    part: Seq<char>,
    separator: Seq<char>,
)
    ensures
        joined(Seq::empty(), separator) == Seq::<char>::empty(),
        joined(seq![part], separator) == part,
        parts.len() > 0 ==> joined(parts.push(part), separator) == joined(parts, separator)
            + separator + part,
{
    assert(parts.push(part).drop_last() =~= parts);
}

/// The texts of a list of strings are those of all of them, in their order.
pub proof fn every_string_has_its_text(v: Seq<String>, i: int)
    requires
        0 <= i < v.len(),
    ensures
        texts(v).len() == v.len(),
        texts(v)[i] == v[i]@,
{
}

} // verus!
